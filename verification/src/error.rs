//! The one kind of failure this crate reports: an invalid configuration.

use vstd::prelude::*;
use crate::text::{concat, debug_quote, debug_quoted};

verus! {

/// Why a descriptor was rejected.
///
/// Every variant is an *invalid configuration*: a defect of the descriptor the
/// caller supplied. None is worth retrying.
#[derive(Debug, Clone, PartialEq, Eq)]
pub enum ConfigError {
    /// The path component does not percent-decode to UTF-8. `reason` is the
    /// description `std` gives of the offending bytes.
    InvalidPath { reason: String },
    /// `mode` was given a value other than `ro`, `rw`, `rwc` or `memory`.
    UnknownMode { value: String },
    /// `cache` was given a value other than `private` or `shared`.
    UnknownCache { value: String },
    /// `immutable` was given a value other than `true`, `1`, `false` or `0`.
    UnknownImmutable { value: String },
    /// The query holds a key that is neither an option nor a known pragma.
    UnknownParameter { key: String },
}

/// The mathematical model of a [`ConfigError`].
pub enum ConfigErrorModel {
    InvalidPath { reason: Seq<char> },
    UnknownMode { value: Seq<char> },
    UnknownCache { value: Seq<char> },
    UnknownImmutable { value: Seq<char> },
    UnknownParameter { key: Seq<char> },
}

impl View for ConfigError {
    type V = ConfigErrorModel;

    open spec fn view(&self) -> ConfigErrorModel {
        match self {
            ConfigError::InvalidPath { reason } => ConfigErrorModel::InvalidPath { reason: reason@ },
            ConfigError::UnknownMode { value } => ConfigErrorModel::UnknownMode { value: value@ },
            ConfigError::UnknownCache { value } => ConfigErrorModel::UnknownCache { value: value@ },
            ConfigError::UnknownImmutable { value } => ConfigErrorModel::UnknownImmutable {
                value: value@,
            },
            ConfigError::UnknownParameter { key } => ConfigErrorModel::UnknownParameter { key: key@ },
        }
    }
}

/// The message for a value that an option does not accept.
pub open spec fn unknown_value_message(value: Seq<char>, option: Seq<char>) -> Seq<char> {
    "unknown value "@ + debug_quoted(value) + " for `"@ + option + "`"@
}

impl ConfigErrorModel {
    /// The human-readable message of the error.
    pub open spec fn message(self) -> Seq<char> {
        match self {
            ConfigErrorModel::InvalidPath { reason } => reason,
            ConfigErrorModel::UnknownMode { value } => unknown_value_message(value, "mode"@),
            ConfigErrorModel::UnknownCache { value } => unknown_value_message(value, "cache"@),
            ConfigErrorModel::UnknownImmutable { value } => unknown_value_message(
                value,
                "immutable"@,
            ),
            ConfigErrorModel::UnknownParameter { key } => "unknown query parameter `"@ + key
                + "` while parsing connection URL"@,
        }
    }
}

fn unknown_value(value: &str, option: &str) -> (r: String)
    ensures
        r@ == unknown_value_message(value@, option@),
{
    let quoted = debug_quote(value);
    let mut r = concat("unknown value ", quoted.as_str());
    r.append(" for `");
    r.append(option);
    r.append("`");
    r
}

impl ConfigError {
    /// A human-readable message that names the offending key or value.
    pub fn message(&self) -> (r: String)
        ensures
            r@ == self@.message(),
    {
        match self {
            ConfigError::InvalidPath { reason } => reason.clone(),
            ConfigError::UnknownMode { value } => unknown_value(value.as_str(), "mode"),
            ConfigError::UnknownCache { value } => unknown_value(value.as_str(), "cache"),
            ConfigError::UnknownImmutable { value } => unknown_value(value.as_str(), "immutable"),
            ConfigError::UnknownParameter { key } => {
                let mut r = concat("unknown query parameter `", key.as_str());
                r.append("` while parsing connection URL");
                r
            },
        }
    }
}

} // verus!
