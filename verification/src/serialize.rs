//! From options to the canonical URL.
//!
//! The URL is `sqlite://` and the percent-encoded path, followed by the query
//! parameters that say how the database is opened: always `mode` and `cache`,
//! `immutable` only where it is set, `vfs` only where one is named. Pragmas
//! are not written: they cannot be read back from a canonical URL.

use vstd::prelude::*;
use vstd::utf8::encode_utf8;
use url::Url;
use crate::options::{pair_views, Options, SqliteConnectOptions};
use crate::percent::{percent_encode_path, percent_encoded};
use crate::text::concat;

verus! {

/// `Url` of the `url` crate: a parsed URL. Its inside is not visible here.
#[verifier::external_type_specification]
#[verifier::external_body]
pub struct ExUrl(Url);

/// The text of a URL: its serialization, by which two URLs are compared.
pub uninterp spec fn url_text(url: Url) -> Seq<char>;

/// The text of the URL that `Url::parse` makes of `input`, or `None` where it
/// refuses `input`.
pub uninterp spec fn parsed_url_text(input: Seq<char>) -> Option<Seq<char>>;

/// The text of a URL after one name/value pair was appended to its query.
pub uninterp spec fn url_text_with_pair(
    url: Seq<char>,
    name: Seq<char>,
    value: Seq<char>,
) -> Seq<char>;

/// The number of bytes of a text in UTF-8.
pub open spec fn byte_len(text: Seq<char>) -> nat {
    encode_utf8(text).len()
}

/// The most bytes that appending one pair adds to a URL: a `?` or `&` before
/// the pair, a `=` between name and value, and three bytes for each byte of
/// both.
pub open spec fn pair_room(pair: (Seq<char>, Seq<char>)) -> nat {
    2 + 3 * (byte_len(pair.0) + byte_len(pair.1))
}

/// The most bytes that appending all of `pairs` adds to a URL.
pub open spec fn pairs_room(pairs: Seq<(Seq<char>, Seq<char>)>) -> nat
    decreases pairs.len(),
{
    if pairs.len() == 0 {
        0
    } else {
        pair_room(pairs[0]) + pairs_room(pairs.skip(1))
    }
}

/// `Url::parse` of the `url` crate.
///
/// Assumed: whether the input is accepted, and the text of the URL made of
/// it, depend on the characters of the input alone.
#[verifier::external_body]
pub(crate) fn parse_url(input: &str) -> (r: Option<Url>)
    ensures
        match r {
            Some(url) => parsed_url_text(input@) == Some(url_text(url)),
            None => parsed_url_text(input@) is None,
        },
{
    Url::parse(input).ok()
}

/// `Url::as_str` of the `url` crate.
///
/// Assumed: it returns the serialization of the URL.
pub assume_specification[ Url::as_str ](url: &Url) -> (text: &str)
    ensures
        text@ == url_text(*url),
;

/// Appends one pair to the query of `url`, by `Url::query_pairs_mut` of the
/// `url` crate and `Serializer::append_pair` of `form_urlencoded`.
///
/// The `url` crate keeps positions within a URL in 32 bits and panics where
/// one does not fit; the precondition keeps the text below that limit.
///
/// Assumed: the new text depends on the old text, the name and the value
/// alone, and is longer than the old text by no more than [`pair_room`]: a
/// `?` or `&`, the name, a `=` and the value, where each byte of name and
/// value is written as one byte or as three.
#[verifier::external_body]
pub(crate) fn append_query_pair(url: &mut Url, name: &str, value: &str)
    requires
        byte_len(url_text(*old(url))) + pair_room((name@, value@)) <= u32::MAX,
    ensures
        url_text(*final(url)) == url_text_with_pair(url_text(*old(url)), name@, value@),
        byte_len(url_text(*final(url))) <= byte_len(url_text(*old(url))) + pair_room(
            (name@, value@),
        ),
{
    url.query_pairs_mut().append_pair(name, value);
}

/// The value of `mode` that stands for the options: in-memory before
/// creating before read-only, and read-write where none of them is set.
pub open spec fn mode_name(o: Options) -> Seq<char> {
    if o.in_memory {
        "memory"@
    } else if o.create_if_missing {
        "rwc"@
    } else if o.read_only {
        "ro"@
    } else {
        "rw"@
    }
}

/// The value of `cache` that stands for the options.
pub open spec fn cache_name(o: Options) -> Seq<char> {
    if o.shared_cache {
        "shared"@
    } else {
        "private"@
    }
}

/// The query parameters of the canonical URL, in the order in which they are
/// written.
pub open spec fn canonical_pairs(o: Options) -> Seq<(Seq<char>, Seq<char>)> {
    seq![("mode"@, mode_name(o)), ("cache"@, cache_name(o))] + (if o.immutable {
        seq![("immutable"@, "true"@)]
    } else {
        Seq::empty()
    }) + (match o.vfs {
        Some(vfs) => seq![("vfs"@, vfs)],
        None => Seq::empty(),
    })
}

/// The canonical URL before its query: the scheme and the encoded path.
pub open spec fn base_text(o: Options) -> Seq<char> {
    "sqlite://"@ + percent_encoded(encode_utf8(o.filename))
}

/// The text of a URL after `pairs` were appended to its query in order.
pub open spec fn text_with_pairs(text: Seq<char>, pairs: Seq<(Seq<char>, Seq<char>)>) -> Seq<char>
    decreases pairs.len(),
{
    if pairs.len() == 0 {
        text
    } else {
        text_with_pairs(url_text_with_pair(text, pairs[0].0, pairs[0].1), pairs.skip(1))
    }
}

/// The text of the canonical URL of the options, or `None` where they have
/// none: where the `url` crate does not accept the scheme and encoded path as
/// a URL, or where the URL might outgrow the 32 bits that crate counts in.
pub open spec fn canonical_url_text(o: Options) -> Option<Seq<char>> {
    match parsed_url_text(base_text(o)) {
        Some(text) => if byte_len(text) + pairs_room(canonical_pairs(o)) <= u32::MAX {
            Some(text_with_pairs(text, canonical_pairs(o)))
        } else {
            None
        },
        None => None,
    }
}

/// The most bytes that appending `name` and `value` adds, where that fits in
/// 32 bits.
fn room_for_pair(name: &str, value: &str) -> (r: Option<u64>)
    ensures
        match r {
            Some(n) => n == pair_room((name@, value@)) && n <= u32::MAX,
            None => pair_room((name@, value@)) > u32::MAX,
        },
{
    let a = name.as_bytes().len();
    let b = value.as_bytes().len();
    if a > 0x5555_5555 || b > 0x5555_5555 {
        return None;
    }
    let n: u64 = 2 + 3 * (a as u64 + b as u64);
    if n > 0xffff_ffff {
        None
    } else {
        Some(n)
    }
}

/// The most bytes that appending all of `pairs` adds, where that fits in 32
/// bits.
fn room_for_pairs(pairs: &Vec<(String, String)>) -> (r: Option<u64>)
    ensures
        match r {
            Some(n) => n == pairs_room(pair_views(pairs@)) && n <= u32::MAX,
            None => pairs_room(pair_views(pairs@)) > u32::MAX,
        },
{
    let ghost all = pair_views(pairs@);
    let mut total: u64 = 0;
    let mut i: usize = pairs.len();
    assert(all.skip(i as int) =~= Seq::empty());
    while i > 0
        invariant
            i <= pairs@.len(),
            all == pair_views(pairs@),
            total == pairs_room(all.skip(i as int)),
            total <= u32::MAX,
        decreases i,
    {
        i = i - 1;
        proof {
            assert(all.skip(i as int)[0] == all[i as int]);
            assert(all.skip(i as int).skip(1) =~= all.skip(i + 1));
            lemma_pairs_room_grows(all, i as int);
        }
        let pair = &pairs[i];
        match room_for_pair(pair.0.as_str(), pair.1.as_str()) {
            Some(n) => {
                if total + n > 0xffff_ffff {
                    return None;
                }
                total = total + n;
            },
            None => {
                return None;
            },
        }
    }
    assert(all.skip(0) =~= all);
    Some(total)
}

/// A longer tail of a list of pairs needs at least as much room.
proof fn lemma_pairs_room_grows(pairs: Seq<(Seq<char>, Seq<char>)>, i: int)
    requires
        0 <= i <= pairs.len(),
    ensures
        pairs_room(pairs.skip(i)) <= pairs_room(pairs),
    decreases i,
{
    if i == 0 {
        assert(pairs.skip(0) =~= pairs);
    } else {
        lemma_pairs_room_grows(pairs, i - 1);
        assert(pairs.skip(i - 1).skip(1) =~= pairs.skip(i));
    }
}

impl SqliteConnectOptions {
    /// The value of `mode` in the canonical URL.
    pub fn mode_name(&self) -> (r: &'static str)
        ensures
            r@ == mode_name(self@),
    {
        if self.in_memory {
            "memory"
        } else if self.create_if_missing {
            "rwc"
        } else if self.read_only {
            "ro"
        } else {
            "rw"
        }
    }

    /// The query parameters of the canonical URL, in order: `mode`, `cache`,
    /// then `immutable=true` if set, then `vfs` if one is named.
    pub fn canonical_pairs(&self) -> (r: Vec<(String, String)>)
        ensures
            pair_views(r@) == canonical_pairs(self@),
    {
        let mut pairs: Vec<(String, String)> = Vec::new();
        pairs.push(("mode".to_owned(), self.mode_name().to_owned()));
        let cache = if self.shared_cache {
            "shared"
        } else {
            "private"
        };
        pairs.push(("cache".to_owned(), cache.to_owned()));
        if self.immutable {
            pairs.push(("immutable".to_owned(), "true".to_owned()));
        }
        match &self.vfs {
            Some(vfs) => {
                pairs.push(("vfs".to_owned(), vfs.clone()));
            },
            None => {},
        }
        assert(pair_views(pairs@) =~= canonical_pairs(self@));
        pairs
    }

    /// The canonical URL before its query: `sqlite://` and the encoded path.
    pub fn url_base(&self) -> (r: String)
        ensures
            r@ == base_text(self@),
    {
        let encoded = percent_encode_path(self.filename.as_str());
        concat("sqlite://", encoded.as_str())
    }

    /// Appends the query parameters of these options to a URL.
    pub fn append_query(&self, url: Url) -> (r: Url)
        requires
            byte_len(url_text(url)) + pairs_room(canonical_pairs(self@)) <= u32::MAX,
        ensures
            url_text(r) == text_with_pairs(url_text(url), canonical_pairs(self@)),
    {
        let pairs = self.canonical_pairs();
        let ghost all = pair_views(pairs@);
        let mut url = url;
        let ghost start = url_text(url);
        let mut i: usize = 0;
        assert(all.skip(0) =~= all);
        while i < pairs.len()
            invariant
                i <= pairs@.len(),
                all == pair_views(pairs@),
                text_with_pairs(url_text(url), all.skip(i as int)) == text_with_pairs(start, all),
                byte_len(url_text(url)) + pairs_room(all.skip(i as int)) <= u32::MAX,
            decreases pairs@.len() - i,
        {
            proof {
                assert(all.skip(i as int)[0] == all[i as int]);
                assert(all.skip(i as int).skip(1) =~= all.skip(i + 1));
            }
            let pair = &pairs[i];
            append_query_pair(&mut url, pair.0.as_str(), pair.1.as_str());
            i = i + 1;
        }
        assert(all.skip(i as int).len() == 0);
        url
    }

    /// The canonical URL of these options.
    ///
    /// Options have a canonical URL unless the `url` crate refuses the scheme
    /// and encoded path, as it does for a path such as `a:b` that it reads as
    /// a host with a malformed port. [`SqliteConnectOptions::try_build_url`]
    /// tells.
    pub fn build_url(&self) -> (r: Url)
        requires
            canonical_url_text(self@) is Some,
        ensures
            canonical_url_text(self@) == Some(url_text(r)),
    {
        let base = self.url_base();
        let url = parse_url(base.as_str()).unwrap();
        self.append_query(url)
    }

    /// The canonical URL of these options, or `None` where they have none.
    pub fn try_build_url(&self) -> (r: Option<Url>)
        ensures
            match r {
                Some(url) => canonical_url_text(self@) == Some(url_text(url)),
                None => canonical_url_text(self@) is None,
            },
    {
        let base = self.url_base();
        let pairs = self.canonical_pairs();
        let room = match room_for_pairs(&pairs) {
            Some(room) => room,
            None => {
                return None;
            },
        };
        match parse_url(base.as_str()) {
            Some(url) => {
                let len = url.as_str().as_bytes().len();
                if len > 0xffff_ffff || len as u64 + room > 0xffff_ffff {
                    None
                } else {
                    Some(self.build_url())
                }
            },
            None => None,
        }
    }
}

} // verus!
