//! From a descriptor to options.
//!
//! A descriptor is an optional scheme, a path, and an optional query after the
//! first `?`:
//!
//! ```text
//! descriptor := scheme? body
//! scheme     := "sqlite://" | "sqlite:"
//! body       := path ("?" query)?
//! path       := ":memory:" | percent-encoded text
//! query      := pair ("&" pair)*
//! ```

use vstd::prelude::*;
use vstd::utf8::{decode_utf8, valid_utf8};
use crate::error::{ConfigError, ConfigErrorModel};
use crate::namer::{in_memory_name, successor, InMemoryNamer};
use crate::options::{pair_views, Options, SqliteConnectOptions};
use crate::params::{apply_params, outcome_view};
use crate::percent::{decoded_bytes, percent_decode_utf8, utf8_error_text};
use crate::text::{same_text, skip_chars, starts_with};

verus! {

/// The path that stands for an anonymous in-memory database.
pub open spec fn in_memory_sentinel() -> Seq<char> {
    ":memory:"@
}

/// The descriptor without its scheme. Of the two schemes the longer one is
/// tried first, and one scheme is taken off at most.
pub open spec fn strip_scheme(descriptor: Seq<char>) -> Seq<char> {
    if "sqlite://"@.is_prefix_of(descriptor) {
        descriptor.skip("sqlite://"@.len() as int)
    } else if "sqlite:"@.is_prefix_of(descriptor) {
        descriptor.skip("sqlite:"@.len() as int)
    } else {
        descriptor
    }
}

/// The part of a body before its first `?`, or all of it.
pub open spec fn path_part(body: Seq<char>) -> Seq<char> {
    match body.index_of_first('?') {
        Some(i) => body.take(i),
        None => body,
    }
}

/// The part of a body after its first `?`, if it has one. Further `?` belong
/// to the query.
pub open spec fn query_part(body: Seq<char>) -> Option<Seq<char>> {
    match body.index_of_first('?') {
        Some(i) => Some(body.skip(i + 1)),
        None => None,
    }
}

/// The name/value pairs that `form_urlencoded::parse` of the `url` crate reads
/// from a query string that is not empty: the string is cut at each `&` and
/// each piece at its first `=`, and both halves are decoded.
pub uninterp spec fn form_urlencoded_pairs(query: Seq<char>) -> Seq<(Seq<char>, Seq<char>)>;

/// The name/value pairs of a query string, in the order in which they stand.
/// The empty query holds none.
pub open spec fn pairs_of_query(query: Seq<char>) -> Seq<(Seq<char>, Seq<char>)> {
    if query.len() == 0 {
        Seq::empty()
    } else {
        form_urlencoded_pairs(query)
    }
}

/// The pairs of an optional query string.
pub open spec fn query_pairs(query: Option<Seq<char>>) -> Option<Seq<(Seq<char>, Seq<char>)>> {
    match query {
        Some(q) => Some(pairs_of_query(q)),
        None => None,
    }
}

/// The characters of an optional string slice.
pub open spec fn str_option_view(text: Option<&str>) -> Option<Seq<char>> {
    match text {
        Some(t) => Some(t@),
        None => None,
    }
}

/// Reads the pairs of a query string with `form_urlencoded::parse` of the
/// `url` crate, in the order in which they stand, duplicates included.
///
/// Assumed: the pairs depend on the characters of `query` alone, and the
/// empty query holds none.
#[verifier::external_body]
pub(crate) fn parse_query(query: &str) -> (pairs: Vec<(String, String)>)
    ensures
        pair_views(pairs@) == if query@.len() == 0 {
            Seq::empty()
        } else {
            form_urlencoded_pairs(query@)
        },
{
    url::form_urlencoded::parse(query.as_bytes()).into_owned().collect()
}

/// The options that the path component alone gives, before any parameter.
///
/// The sentinel gives an in-memory database with a shared cache under the name
/// for `counter`. Any other path is percent-decoded and must be UTF-8.
pub open spec fn initial_options(database: Seq<char>, counter: nat) -> Result<
    Options,
    ConfigErrorModel,
> {
    if database == in_memory_sentinel() {
        Ok(Options { in_memory: true, shared_cache: true, ..Options::new(in_memory_name(counter)) })
    } else if valid_utf8(decoded_bytes(database)) {
        Ok(Options::new(decode_utf8(decoded_bytes(database))))
    } else {
        Err(ConfigErrorModel::InvalidPath { reason: utf8_error_text(decoded_bytes(database)) })
    }
}

/// The outcome of parsing a path and the pairs of its query.
pub open spec fn parse_outcome(
    database: Seq<char>,
    params: Option<Seq<(Seq<char>, Seq<char>)>>,
    counter: nat,
) -> Result<Options, ConfigErrorModel> {
    match initial_options(database, counter) {
        Ok(o) => match params {
            Some(pairs) => apply_params(o, pairs),
            None => Ok(o),
        },
        Err(e) => Err(e),
    }
}

/// The namer's number after a parse: the sentinel uses up one name, whether or
/// not the parameters are accepted afterwards; any other path uses none.
pub open spec fn counter_after(database: Seq<char>, counter: nat) -> nat {
    if database == in_memory_sentinel() {
        successor(counter)
    } else {
        counter
    }
}

/// Takes the scheme off a descriptor.
pub fn without_scheme(descriptor: &str) -> (body: &str)
    ensures
        body@ == strip_scheme(descriptor@),
{
    proof {
        reveal_strlit("sqlite://");
        reveal_strlit("sqlite:");
    }
    if starts_with(descriptor, "sqlite://") {
        skip_chars(descriptor, 9)
    } else if starts_with(descriptor, "sqlite:") {
        skip_chars(descriptor, 7)
    } else {
        descriptor
    }
}

/// The position of the first `?` of `s`.
fn first_question_mark(s: &str) -> (r: Option<usize>)
    ensures
        match r {
            Some(i) => i < s@.len() <= usize::MAX && s@.index_of_first('?') == Some(i as int),
            None => s@.index_of_first('?') is None,
        },
{
    let n = s.unicode_len();
    let mut i: usize = 0;
    for c in it: s.chars()
        invariant
            it.seq() == s@,
            n == s@.len(),
            i == it.index(),
            forall|j: int| 0 <= j < i ==> s@[j] != '?',
    {
        if c == '?' {
            proof {
                assert(s@[i as int] == '?');
                s@.index_of_first_ensures('?');
            }
            return Some(i);
        }
        i = i + 1;
    }
    proof {
        s@.index_of_first_ensures('?');
    }
    None
}

/// Cuts a body at its first `?` into the path and, if there is one, the query.
pub fn split_body(body: &str) -> (parts: (&str, Option<&str>))
    ensures
        parts.0@ == path_part(body@),
        str_option_view(parts.1) == query_part(body@),
{
    match first_question_mark(body) {
        Some(i) => {
            let path = body.substring_char(0, i);
            let query = skip_chars(body, i + 1);
            (path, Some(query))
        },
        None => (body, None),
    }
}

impl SqliteConnectOptions {
    /// The options that a path gives before any parameter is applied.
    ///
    /// The sentinel `:memory:` draws a fresh name from `namer`; any other path
    /// is percent-decoded and leaves `namer` alone.
    pub fn from_database(database: &str, namer: &mut InMemoryNamer) -> (r: Result<
        SqliteConnectOptions,
        ConfigError,
    >)
        ensures
            outcome_view(r) == initial_options(database@, old(namer)@),
            final(namer)@ == counter_after(database@, old(namer)@),
    {
        if same_text(database, ":memory:") {
            let mut options = SqliteConnectOptions::new(namer.next());
            options.in_memory = true;
            options.shared_cache = true;
            Ok(options)
        } else {
            match percent_decode_utf8(database) {
                Ok(filename) => {
                    proof {
                        vstd::utf8::encode_utf8_decode_utf8(filename@);
                    }
                    Ok(SqliteConnectOptions::new(filename))
                },
                Err(reason) => Err(ConfigError::InvalidPath { reason }),
            }
        }
    }

    /// Parses a path and an optional query string that were already cut apart.
    ///
    /// The path decides where the database lives (see
    /// [`SqliteConnectOptions::from_database`]). The pairs of the query are
    /// then applied in order; the first one that is refused ends the parse
    /// with its error and no options are returned.
    pub fn from_db_and_params(
        database: &str,
        params: Option<&str>,
        namer: &mut InMemoryNamer,
    ) -> (r: Result<SqliteConnectOptions, ConfigError>)
        ensures
            outcome_view(r) == parse_outcome(
                database@,
                query_pairs(str_option_view(params)),
                old(namer)@,
            ),
            final(namer)@ == counter_after(database@, old(namer)@),
    {
        let options = match SqliteConnectOptions::from_database(database, namer) {
            Ok(options) => options,
            Err(e) => {
                return Err(e);
            },
        };
        match params {
            Some(query) => {
                let pairs = parse_query(query);
                options.apply_params(&pairs)
            },
            None => Ok(options),
        }
    }

    /// Parses a descriptor such as `sqlite://data.db?mode=ro`.
    ///
    /// The scheme is optional. What follows is cut at the first `?` into path
    /// and query, which are parsed as
    /// [`SqliteConnectOptions::from_db_and_params`] says.
    pub fn from_str(url: &str, namer: &mut InMemoryNamer) -> (r: Result<
        SqliteConnectOptions,
        ConfigError,
    >)
        ensures
            outcome_view(r) == parse_outcome(
                path_part(strip_scheme(url@)),
                query_pairs(query_part(strip_scheme(url@))),
                old(namer)@,
            ),
            final(namer)@ == counter_after(path_part(strip_scheme(url@)), old(namer)@),
    {
        let body = without_scheme(url);
        let (database, params) = split_body(body);
        SqliteConnectOptions::from_db_and_params(database, params, namer)
    }
}

} // verus!
