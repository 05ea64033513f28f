//! Connection descriptors for SQLite databases.
//!
//! A descriptor is a URI-like string such as `sqlite://data.db?mode=ro`. This
//! crate decodes one into a [`SqliteConnectOptions`] value and encodes such a
//! value back into a canonical `sqlite://` URL. Nothing here opens a database
//! or touches the file system.
//!
//! Every function carries a contract over the mathematical model of its
//! arguments (see [`options::Options`]); the few calls into `percent-encoding`,
//! `url` and unspecified parts of `std` are confined to small functions whose
//! contracts are assumed, each documented where it stands.

pub mod error;
pub mod laws;
pub mod namer;
pub mod options;
pub mod params;
pub mod parse;
pub mod percent;
pub mod pragma;
pub mod serialize;
mod text;

pub use error::ConfigError;
pub use namer::InMemoryNamer;
pub use options::SqliteConnectOptions;
