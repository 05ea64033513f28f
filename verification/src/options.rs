//! The configuration value and its mathematical model.

use vstd::prelude::*;

verus! {

/// How to open one SQLite database: where it lives and in which mode.
///
/// The value is plain data. It is built by the parser, never changed behind
/// the caller's back, and consumed by whoever opens the database.
#[derive(Debug, Clone, PartialEq, Eq)]
pub struct SqliteConnectOptions {
    /// The path of the database file, or the name of an in-memory database.
    pub filename: String,
    /// No file on disk backs the database.
    pub in_memory: bool,
    /// Connections to the same name within the process share one page cache.
    pub shared_cache: bool,
    /// A missing database file is created instead of reported.
    pub create_if_missing: bool,
    /// Writes are rejected.
    pub read_only: bool,
    /// The file is promised never to change while it is open.
    pub immutable: bool,
    /// The virtual file system to use in place of the default one.
    pub vfs: Option<String>,
    /// Pragmas to run when the database is opened, in the order given.
    /// Later entries never replace earlier ones.
    pub pragmas: Vec<(String, String)>,
}

/// The mathematical model of a [`SqliteConnectOptions`] value.
pub struct Options {
    pub filename: Seq<char>,
    pub in_memory: bool,
    pub shared_cache: bool,
    pub create_if_missing: bool,
    pub read_only: bool,
    pub immutable: bool,
    pub vfs: Option<Seq<char>>,
    pub pragmas: Seq<(Seq<char>, Seq<char>)>,
}

/// The characters of each name and value of a list of pairs.
pub open spec fn pair_views(pairs: Seq<(String, String)>) -> Seq<(Seq<char>, Seq<char>)> {
    Seq::new(pairs.len(), |i: int| (pairs[i].0@, pairs[i].1@))
}

/// The characters of an optional string.
pub open spec fn option_view(text: Option<String>) -> Option<Seq<char>> {
    match text {
        Some(t) => Some(t@),
        None => None,
    }
}

impl View for SqliteConnectOptions {
    type V = Options;

    open spec fn view(&self) -> Options {
        Options {
            filename: self.filename@,
            in_memory: self.in_memory,
            shared_cache: self.shared_cache,
            create_if_missing: self.create_if_missing,
            read_only: self.read_only,
            immutable: self.immutable,
            vfs: option_view(self.vfs),
            pragmas: pair_views(self.pragmas@),
        }
    }
}

impl Options {
    /// The options for the database at `filename` before any parameter is
    /// applied: on disk, shared cache, read-write, no pragmas.
    pub open spec fn new(filename: Seq<char>) -> Options {
        Options {
            filename,
            in_memory: false,
            shared_cache: true,
            create_if_missing: false,
            read_only: false,
            immutable: false,
            vfs: None,
            pragmas: Seq::empty(),
        }
    }

    /// These options with one more pragma at the end of the list.
    pub open spec fn with_pragma(self, name: Seq<char>, value: Seq<char>) -> Options {
        Options { pragmas: self.pragmas.push((name, value)), ..self }
    }
}

impl SqliteConnectOptions {
    /// The options for the database at `filename` with every setting at its
    /// default.
    pub fn new(filename: String) -> (r: SqliteConnectOptions)
        ensures
            r@ == Options::new(filename@),
    {
        let r = SqliteConnectOptions {
            filename,
            in_memory: false,
            shared_cache: true,
            create_if_missing: false,
            read_only: false,
            immutable: false,
            vfs: None,
            pragmas: Vec::new(),
        };
        assert(r@.pragmas =~= Seq::empty());
        r
    }

    /// Appends one pragma to the list and leaves everything else as it is.
    ///
    /// An earlier entry of the same name stays: all entries are replayed in
    /// order when the database is opened.
    pub fn pragma(self, name: String, value: String) -> (r: SqliteConnectOptions)
        ensures
            r@ == self@.with_pragma(name@, value@),
    {
        let mut r = self;
        r.pragmas.push((name, value));
        assert(r@.pragmas =~= self@.pragmas.push((name@, value@)));
        r
    }
}

impl Default for SqliteConnectOptions {
    /// No path, on disk, shared cache, read-write, no pragmas.
    fn default() -> (r: SqliteConnectOptions)
        ensures
            r@ == Options::new(Seq::empty()),
    {
        SqliteConnectOptions::new(String::new())
    }
}

} // verus!
