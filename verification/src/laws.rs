//! What holds of the parser, the interpreter and the serializer, beyond the
//! contract of each function.

use vstd::prelude::*;
use vstd::utf8::encode_utf8;
use crate::error::ConfigErrorModel;
use crate::namer::{in_memory_name, lemma_names_distinct, successor};
use crate::options::Options;
use crate::params::{apply_mode, apply_param, apply_params};
use crate::parse::{
    counter_after, in_memory_sentinel, initial_options, parse_outcome, path_part, query_pairs,
    query_part, strip_scheme,
};
use crate::percent::{
    lemma_literal_path, lemma_path_round_trip, lemma_percent_encoded_has_no_delimiter,
    percent_encoded,
};
use crate::pragma::{is_pragma_key, pragma_marker, pragma_name};
use crate::serialize::{base_text, canonical_pairs};

verus! {

/// Whether `mode` accepts the value.
pub open spec fn is_mode(value: Seq<char>) -> bool {
    value == "ro"@ || value == "rw"@ || value == "rwc"@ || value == "memory"@
}

/// Whether `cache` accepts the value.
pub open spec fn is_cache(value: Seq<char>) -> bool {
    value == "private"@ || value == "shared"@
}

/// Whether `immutable` accepts the value.
pub open spec fn is_immutable(value: Seq<char>) -> bool {
    value == "true"@ || value == "1"@ || value == "false"@ || value == "0"@
}

/// Whether the key is one of the four options or a known pragma.
pub open spec fn is_key(key: Seq<char>) -> bool {
    key == "mode"@ || key == "cache"@ || key == "immutable"@ || key == "vfs"@ || is_pragma_key(
        key,
    )
}

/// What the option names and values are, character by character.
proof fn reveal_words()
    ensures
        "mode"@ == seq!['m', 'o', 'd', 'e'],
        "cache"@ == seq!['c', 'a', 'c', 'h', 'e'],
        "immutable"@ == seq!['i', 'm', 'm', 'u', 't', 'a', 'b', 'l', 'e'],
        "vfs"@ == seq!['v', 'f', 's'],
        "ro"@ == seq!['r', 'o'],
        "rw"@ == seq!['r', 'w'],
        "rwc"@ == seq!['r', 'w', 'c'],
        "memory"@ == seq!['m', 'e', 'm', 'o', 'r', 'y'],
        "private"@ == seq!['p', 'r', 'i', 'v', 'a', 't', 'e'],
        "shared"@ == seq!['s', 'h', 'a', 'r', 'e', 'd'],
        "true"@ == seq!['t', 'r', 'u', 'e'],
{
    reveal_strlit("mode");
    reveal_strlit("cache");
    reveal_strlit("immutable");
    reveal_strlit("vfs");
    reveal_strlit("ro");
    reveal_strlit("rw");
    reveal_strlit("rwc");
    reveal_strlit("memory");
    reveal_strlit("private");
    reveal_strlit("shared");
    reveal_strlit("true");
    assert("mode"@ =~= seq!['m', 'o', 'd', 'e']);
    assert("cache"@ =~= seq!['c', 'a', 'c', 'h', 'e']);
    assert("immutable"@ =~= seq!['i', 'm', 'm', 'u', 't', 'a', 'b', 'l', 'e']);
    assert("vfs"@ =~= seq!['v', 'f', 's']);
    assert("ro"@ =~= seq!['r', 'o']);
    assert("rw"@ =~= seq!['r', 'w']);
    assert("rwc"@ =~= seq!['r', 'w', 'c']);
    assert("memory"@ =~= seq!['m', 'e', 'm', 'o', 'r', 'y']);
    assert("private"@ =~= seq!['p', 'r', 'i', 'v', 'a', 't', 'e']);
    assert("shared"@ =~= seq!['s', 'h', 'a', 'r', 'e', 'd']);
    assert("true"@ =~= seq!['t', 'r', 'u', 'e']);
}

/// A value that `mode` does not accept is refused, and the error holds it.
pub proof fn lemma_unknown_mode(o: Options, value: Seq<char>)
    requires
        !is_mode(value),
    ensures
        apply_param(o, "mode"@, value) == Err::<Options, _>(
            ConfigErrorModel::UnknownMode { value },
        ),
{
}

/// A value that `cache` does not accept is refused, and the error holds it.
pub proof fn lemma_unknown_cache(o: Options, value: Seq<char>)
    requires
        !is_cache(value),
    ensures
        apply_param(o, "cache"@, value) == Err::<Options, _>(
            ConfigErrorModel::UnknownCache { value },
        ),
{
    reveal_words();
    assert("cache"@[0] != "mode"@[0]);
}

/// A value that `immutable` does not accept is refused, and the error holds
/// it.
pub proof fn lemma_unknown_immutable(o: Options, value: Seq<char>)
    requires
        !is_immutable(value),
    ensures
        apply_param(o, "immutable"@, value) == Err::<Options, _>(
            ConfigErrorModel::UnknownImmutable { value },
        ),
{
    reveal_words();
    assert("immutable"@[0] != "mode"@[0]);
    assert("immutable"@[0] != "cache"@[0]);
}

/// A key that is neither an option nor a known pragma is refused whatever its
/// value, and the error holds the key.
pub proof fn lemma_unknown_key(o: Options, key: Seq<char>, value: Seq<char>)
    requires
        !is_key(key),
    ensures
        apply_param(o, key, value) == Err::<Options, _>(
            ConfigErrorModel::UnknownParameter { key },
        ),
{
}

/// Applying two lists one after the other is applying their concatenation.
pub proof fn lemma_apply_params_concat(
    o: Options,
    first: Seq<(Seq<char>, Seq<char>)>,
    second: Seq<(Seq<char>, Seq<char>)>,
)
    ensures
        apply_params(o, first + second) == match apply_params(o, first) {
            Ok(m) => apply_params(m, second),
            Err(e) => Err(e),
        },
    decreases first.len(),
{
    if first.len() == 0 {
        assert(first + second =~= second);
    } else {
        assert((first + second)[0] == first[0]);
        assert((first + second).skip(1) =~= first.skip(1) + second);
        match apply_param(o, first[0].0, first[0].1) {
            Ok(next) => lemma_apply_params_concat(next, first.skip(1), second),
            Err(_) => {},
        }
    }
}

/// Applying a list of one parameter is applying that parameter.
pub proof fn lemma_apply_params_one(o: Options, key: Seq<char>, value: Seq<char>)
    ensures
        apply_params(o, seq![(key, value)]) == apply_param(o, key, value),
{
    let one = seq![(key, value)];
    assert(one[0] == (key, value));
    assert(one.skip(1) =~= Seq::empty());
    match apply_param(o, key, value) {
        Ok(next) => {
            assert(apply_params(next, one.skip(1)) == Ok::<_, ConfigErrorModel>(next));
        },
        Err(_) => {},
    }
}

/// The first parameter that is refused ends the parse with its error: what
/// stands behind it in the query is not looked at.
pub proof fn lemma_first_refusal_ends(
    o: Options,
    accepted: Seq<(Seq<char>, Seq<char>)>,
    key: Seq<char>,
    value: Seq<char>,
    rest: Seq<(Seq<char>, Seq<char>)>,
)
    requires
        apply_params(o, accepted) is Ok,
        apply_param(apply_params(o, accepted)->Ok_0, key, value) is Err,
    ensures
        apply_params(o, accepted + seq![(key, value)] + rest) == Err::<Options, _>(
            apply_param(apply_params(o, accepted)->Ok_0, key, value)->Err_0,
        ),
{
    let m = apply_params(o, accepted)->Ok_0;
    lemma_apply_params_concat(o, accepted + seq![(key, value)], rest);
    lemma_apply_params_concat(o, accepted, seq![(key, value)]);
    lemma_apply_params_one(m, key, value);
}

/// A pragma key loses its marker once, at the front: what follows the marker
/// is the pragma's name as it stands, even where it holds the marker's text
/// again.
pub proof fn lemma_marker_removed_once(name: Seq<char>)
    ensures
        pragma_name(pragma_marker() + name) == name,
{
    assert((pragma_marker() + name).skip(pragma_marker().len() as int) =~= name);
}

/// Whether two options agree on everything that `mode` with the value `m`
/// does not set.
pub open spec fn agree_but_for_mode(a: Options, b: Options, m: Seq<char>) -> bool {
    &&& a.filename == b.filename
    &&& a.immutable == b.immutable
    &&& a.vfs == b.vfs
    &&& a.pragmas == b.pragmas
    &&& (m != "ro"@ ==> a.read_only == b.read_only)
    &&& (m != "rwc"@ ==> a.create_if_missing == b.create_if_missing)
    &&& (m != "memory"@ ==> a.in_memory == b.in_memory && a.shared_cache == b.shared_cache)
}

/// Whether two outcomes are the same error, or options that agree on
/// everything that `mode` with the value `m` does not set.
pub open spec fn outcomes_agree_but_for_mode(
    a: Result<Options, ConfigErrorModel>,
    b: Result<Options, ConfigErrorModel>,
    m: Seq<char>,
) -> bool {
    match (a, b) {
        (Ok(x), Ok(y)) => agree_but_for_mode(x, y, m),
        (Err(e), Err(f)) => e == f,
        _ => false,
    }
}

/// A parameter is accepted or refused whatever the options are, and it
/// changes no field by what another field holds.
proof fn lemma_param_keeps_agreement(
    a: Options,
    b: Options,
    m: Seq<char>,
    key: Seq<char>,
    value: Seq<char>,
)
    requires
        agree_but_for_mode(a, b, m),
    ensures
        outcomes_agree_but_for_mode(apply_param(a, key, value), apply_param(b, key, value), m),
{
}

/// A list of parameters keeps the agreement of two options, or is refused on
/// both with one error.
proof fn lemma_params_keep_agreement(
    a: Options,
    b: Options,
    m: Seq<char>,
    pairs: Seq<(Seq<char>, Seq<char>)>,
)
    requires
        agree_but_for_mode(a, b, m),
    ensures
        outcomes_agree_but_for_mode(apply_params(a, pairs), apply_params(b, pairs), m),
    decreases pairs.len(),
{
    if pairs.len() > 0 {
        lemma_param_keeps_agreement(a, b, m, pairs[0].0, pairs[0].1);
        match (apply_param(a, pairs[0].0, pairs[0].1), apply_param(b, pairs[0].0, pairs[0].1)) {
            (Ok(x), Ok(y)) => lemma_params_keep_agreement(x, y, m, pairs.skip(1)),
            _ => {},
        }
    }
}

/// A mode overwrites all that an earlier occurrence of the same mode set.
proof fn lemma_mode_ends_disagreement(a: Options, b: Options, m: Seq<char>)
    requires
        agree_but_for_mode(a, b, m),
    ensures
        apply_mode(a, m) == apply_mode(b, m),
{
    reveal_words();
    assert("ro"@[1] != "rw"@[1]);
    assert("ro"@.len() != "rwc"@.len());
    assert("ro"@.len() != "memory"@.len());
    assert("rw"@.len() != "rwc"@.len());
    assert("rw"@.len() != "memory"@.len());
    assert("rwc"@.len() != "memory"@.len());
}

/// Of two occurrences of `mode` the second decides alone, where the first is
/// `rw` or the same as the second: the descriptor then parses as it does
/// without the first occurrence.
///
/// A different first mode other than `rw` is not undone by the second: each
/// mode sets its own flag and clears none, so `mode=ro&mode=rw` stays
/// read-only.
pub proof fn lemma_repeated_mode(
    o: Options,
    before: Seq<(Seq<char>, Seq<char>)>,
    first: Seq<char>,
    between: Seq<(Seq<char>, Seq<char>)>,
    second: Seq<char>,
    after: Seq<(Seq<char>, Seq<char>)>,
)
    requires
        is_mode(first),
        first == "rw"@ || first == second,
    ensures
        apply_params(
            o,
            before + seq![("mode"@, first)] + between + seq![("mode"@, second)] + after,
        ) == apply_params(o, before + between + seq![("mode"@, second)] + after),
{
    let one = seq![("mode"@, first)];
    let two = seq![("mode"@, second)];
    let tail = between + (two + after);
    assert(before + one + between + two + after =~= before + (one + tail));
    assert(before + between + two + after =~= before + tail);
    lemma_apply_params_concat(o, before, one + tail);
    lemma_apply_params_concat(o, before, tail);
    match apply_params(o, before) {
        Ok(s) => {
            lemma_apply_params_concat(s, one, tail);
            lemma_apply_params_one(s, "mode"@, first);
            let s1 = apply_mode(s, first)->Ok_0;
            assert(apply_params(s, one + tail) == apply_params(s1, tail));
            reveal_words();
            assert("ro"@[1] != "rw"@[1]);
            assert("rw"@.len() != "rwc"@.len());
            assert("rw"@.len() != "memory"@.len());
            if first == "rw"@ {
                assert(s1 == s);
            } else {
                assert(agree_but_for_mode(s, s1, first));
                lemma_apply_params_concat(s, between, two + after);
                lemma_apply_params_concat(s1, between, two + after);
                lemma_params_keep_agreement(s, s1, first, between);
                match (apply_params(s, between), apply_params(s1, between)) {
                    (Ok(x), Ok(y)) => {
                        lemma_apply_params_concat(x, two, after);
                        lemma_apply_params_concat(y, two, after);
                        lemma_apply_params_one(x, "mode"@, second);
                        lemma_apply_params_one(y, "mode"@, second);
                        lemma_mode_ends_disagreement(x, y, first);
                    },
                    _ => {},
                }
            }
        },
        Err(_) => {},
    }
}

/// Whether none of the pairs sets `cache`.
pub open spec fn no_cache_key(pairs: Seq<(Seq<char>, Seq<char>)>) -> bool {
    forall|i: int| 0 <= i < pairs.len() ==> (#[trigger] pairs[i]).0 != "cache"@
}

/// No parameter changes the path, and none takes `in_memory` back.
pub proof fn lemma_params_keep_target(o: Options, pairs: Seq<(Seq<char>, Seq<char>)>)
    requires
        apply_params(o, pairs) is Ok,
    ensures
        apply_params(o, pairs)->Ok_0.filename == o.filename,
        o.in_memory ==> apply_params(o, pairs)->Ok_0.in_memory,
    decreases pairs.len(),
{
    if pairs.len() > 0 {
        let next = apply_param(o, pairs[0].0, pairs[0].1)->Ok_0;
        lemma_params_keep_target(next, pairs.skip(1));
    }
}

/// Only `cache` takes a shared cache back.
pub proof fn lemma_params_keep_shared_cache(o: Options, pairs: Seq<(Seq<char>, Seq<char>)>)
    requires
        apply_params(o, pairs) is Ok,
        o.shared_cache,
        no_cache_key(pairs),
    ensures
        apply_params(o, pairs)->Ok_0.shared_cache,
    decreases pairs.len(),
{
    if pairs.len() > 0 {
        let next = apply_param(o, pairs[0].0, pairs[0].1)->Ok_0;
        assert(pairs[0].0 != "cache"@);
        assert forall|i: int| 0 <= i < pairs.skip(1).len() implies (#[trigger] pairs.skip(
            1,
        )[i]).0 != "cache"@ by {
            assert(pairs.skip(1)[i] == pairs[i + 1]);
        }
        lemma_params_keep_shared_cache(next, pairs.skip(1));
    }
}

/// The sentinel always parses to an in-memory database under the name for
/// the namer's number, and to a shared cache unless `cache` says otherwise.
pub proof fn lemma_sentinel_is_in_memory(
    params: Option<Seq<(Seq<char>, Seq<char>)>>,
    counter: nat,
)
    requires
        parse_outcome(in_memory_sentinel(), params, counter) is Ok,
    ensures
        parse_outcome(in_memory_sentinel(), params, counter)->Ok_0.in_memory,
        parse_outcome(in_memory_sentinel(), params, counter)->Ok_0.filename == in_memory_name(
            counter,
        ),
        (params matches Some(pairs) ==> no_cache_key(pairs)) ==> parse_outcome(
            in_memory_sentinel(),
            params,
            counter,
        )->Ok_0.shared_cache,
{
    let o = initial_options(in_memory_sentinel(), counter)->Ok_0;
    match params {
        Some(pairs) => {
            lemma_params_keep_target(o, pairs);
            if no_cache_key(pairs) {
                lemma_params_keep_shared_cache(o, pairs);
            }
        },
        None => {},
    }
}

/// `mode=memory` always yields an in-memory database, whatever the path and
/// the other parameters are, and a shared cache unless a later `cache` says
/// otherwise.
pub proof fn lemma_memory_mode_is_in_memory(
    o: Options,
    before: Seq<(Seq<char>, Seq<char>)>,
    after: Seq<(Seq<char>, Seq<char>)>,
)
    requires
        apply_params(o, before + seq![("mode"@, "memory"@)] + after) is Ok,
    ensures
        apply_params(o, before + seq![("mode"@, "memory"@)] + after)->Ok_0.in_memory,
        no_cache_key(after) ==> apply_params(
            o,
            before + seq![("mode"@, "memory"@)] + after,
        )->Ok_0.shared_cache,
{
    let one = seq![("mode"@, "memory"@)];
    lemma_apply_params_concat(o, before + one, after);
    lemma_apply_params_concat(o, before, one);
    let s = apply_params(o, before)->Ok_0;
    lemma_apply_params_one(s, "mode"@, "memory"@);
    reveal_words();
    assert("memory"@.len() != "ro"@.len());
    assert("memory"@.len() != "rw"@.len());
    assert("memory"@.len() != "rwc"@.len());
    let m = apply_param(s, "mode"@, "memory"@)->Ok_0;
    assert(m.in_memory && m.shared_cache);
    lemma_params_keep_target(m, after);
    if no_cache_key(after) {
        lemma_params_keep_shared_cache(m, after);
    }
}

/// Two parses of the sentinel under different numbers of the namer give
/// databases of different names, whatever their parameters are.
pub proof fn lemma_sentinel_parses_differ(
    first: Option<Seq<(Seq<char>, Seq<char>)>>,
    second: Option<Seq<(Seq<char>, Seq<char>)>>,
    a: nat,
    b: nat,
)
    requires
        a != b,
        parse_outcome(in_memory_sentinel(), first, a) is Ok,
        parse_outcome(in_memory_sentinel(), second, b) is Ok,
    ensures
        parse_outcome(in_memory_sentinel(), first, a)->Ok_0.filename != parse_outcome(
            in_memory_sentinel(),
            second,
            b,
        )->Ok_0.filename,
{
    lemma_sentinel_is_in_memory(first, a);
    lemma_sentinel_is_in_memory(second, b);
    lemma_names_distinct(a, b);
}

/// A path without a `%` that is not the sentinel is taken as it stands: the
/// options before any parameter are the defaults for that very path.
pub proof fn lemma_literal_path_is_kept(path: Seq<char>, counter: nat)
    requires
        !path.contains('%'),
        path != in_memory_sentinel(),
    ensures
        initial_options(path, counter) == Ok::<_, ConfigErrorModel>(Options::new(path)),
{
    lemma_literal_path(path);
}

/// Whether at most one of in-memory, creating and read-only is set: what one
/// `mode` parameter can say.
pub open spec fn has_one_mode(o: Options) -> bool {
    &&& o.in_memory ==> !o.create_if_missing && !o.read_only
    &&& o.create_if_missing ==> !o.read_only
}

/// The query parameters of the canonical URL give the options back: applied
/// to the defaults for the same path, they yield options equal in every
/// field.
///
/// This holds of options without pragmas, which the canonical URL leaves out,
/// and with at most one of in-memory, creating and read-only set, since the
/// URL names one mode.
pub proof fn lemma_canonical_pairs_round_trip(o: Options)
    requires
        o.pragmas.len() == 0,
        has_one_mode(o),
    ensures
        apply_params(Options::new(o.filename), canonical_pairs(o)) == Ok::<_, ConfigErrorModel>(
            o,
        ),
{
    reveal_words();
    assert("cache"@[0] != "mode"@[0]);
    assert("immutable"@[0] != "mode"@[0]);
    assert("immutable"@[0] != "cache"@[0]);
    assert("vfs"@[0] != "mode"@[0]);
    assert("vfs"@[0] != "cache"@[0]);
    assert("vfs"@[0] != "immutable"@[0]);
    assert("ro"@[1] != "rw"@[1]);
    assert("ro"@.len() != "rwc"@.len());
    assert("ro"@.len() != "memory"@.len());
    assert("rw"@.len() != "rwc"@.len());
    assert("rw"@.len() != "memory"@.len());
    assert("rwc"@.len() != "memory"@.len());
    assert("private"@[0] != "shared"@[0]);
    let start = Options::new(o.filename);
    let mode = seq![("mode"@, crate::serialize::mode_name(o))];
    let cache = seq![("cache"@, crate::serialize::cache_name(o))];
    let immutable: Seq<(Seq<char>, Seq<char>)> = if o.immutable {
        seq![("immutable"@, "true"@)]
    } else {
        Seq::empty()
    };
    let vfs: Seq<(Seq<char>, Seq<char>)> = match o.vfs {
        Some(v) => seq![("vfs"@, v)],
        None => Seq::empty(),
    };
    assert(canonical_pairs(o) =~= mode + cache + immutable + vfs);
    lemma_apply_params_concat(start, mode + cache + immutable, vfs);
    lemma_apply_params_concat(start, mode + cache, immutable);
    lemma_apply_params_concat(start, mode, cache);
    lemma_apply_params_one(start, "mode"@, crate::serialize::mode_name(o));
    let s1 = apply_param(start, "mode"@, crate::serialize::mode_name(o))->Ok_0;
    lemma_apply_params_one(s1, "cache"@, crate::serialize::cache_name(o));
    let s2 = apply_param(s1, "cache"@, crate::serialize::cache_name(o))->Ok_0;
    if o.immutable {
        lemma_apply_params_one(s2, "immutable"@, "true"@);
    }
    let s3 = apply_params(s2, immutable)->Ok_0;
    match o.vfs {
        Some(v) => {
            lemma_apply_params_one(s3, "vfs"@, v);
        },
        None => {},
    }
    let s4 = apply_params(s3, vfs)->Ok_0;
    assert(s4.pragmas =~= o.pragmas);
    assert(s4 == o);
}

/// Serializing and parsing again gives the options back.
///
/// The canonical URL of `o` is made of the encoded path and the canonical
/// pairs. Parsing that path and those pairs yields `o` in every field, for
/// options on disk (the path is not the sentinel) without pragmas, with at
/// most one of in-memory, creating and read-only set, and with a path that
/// holds no `%`: a `%` is written as it stands, and read back as the start of
/// an escape.
pub proof fn lemma_round_trip(o: Options, counter: nat)
    requires
        o.pragmas.len() == 0,
        has_one_mode(o),
        o.filename != in_memory_sentinel(),
        !o.filename.contains('%'),
    ensures
        parse_outcome(
            percent_encoded(encode_utf8(o.filename)),
            Some(canonical_pairs(o)),
            counter,
        ) == Ok::<_, ConfigErrorModel>(o),
{
    let written = percent_encoded(encode_utf8(o.filename));
    lemma_path_round_trip(o.filename);
    if written == in_memory_sentinel() {
        reveal_strlit(":memory:");
        assert(!in_memory_sentinel().contains('%'));
        lemma_literal_path(in_memory_sentinel());
        assert(false);
    }
    lemma_canonical_pairs_round_trip(o);
}

/// Two parses of the sentinel, one after the other with one namer, give
/// databases of different names.
pub proof fn lemma_successive_sentinel_parses_differ(
    first: Option<Seq<(Seq<char>, Seq<char>)>>,
    second: Option<Seq<(Seq<char>, Seq<char>)>>,
    counter: nat,
)
    requires
        parse_outcome(in_memory_sentinel(), first, counter) is Ok,
        parse_outcome(
            in_memory_sentinel(),
            second,
            counter_after(in_memory_sentinel(), counter),
        ) is Ok,
    ensures
        parse_outcome(in_memory_sentinel(), first, counter)->Ok_0.filename != parse_outcome(
            in_memory_sentinel(),
            second,
            counter_after(in_memory_sentinel(), counter),
        )->Ok_0.filename,
{
    assert(successor(counter) != counter);
    lemma_sentinel_parses_differ(first, second, counter, successor(counter));
}

/// An empty query is no query: a descriptor that ends in `?` parses as it does
/// without the `?`.
pub proof fn lemma_empty_query(database: Seq<char>, counter: nat)
    ensures
        parse_outcome(database, query_pairs(Some(Seq::empty())), counter) == parse_outcome(
            database,
            query_pairs(None),
            counter,
        ),
{
}

/// A descriptor made of the scheme, a path without `?`, a `?` and a query is
/// cut into that path and that query, whatever the query holds.
pub proof fn lemma_descriptor_parts(path: Seq<char>, query: Seq<char>)
    requires
        !path.contains('?'),
    ensures
        path_part(strip_scheme("sqlite://"@ + path + seq!['?'] + query)) == path,
        query_part(strip_scheme("sqlite://"@ + path + seq!['?'] + query)) == Some(query),
{
    let scheme = "sqlite://"@;
    let body = path + seq!['?'] + query;
    let all = scheme + path + seq!['?'] + query;
    assert(all =~= scheme + body);
    assert(all.subrange(0, scheme.len() as int) =~= scheme);
    assert(all.skip(scheme.len() as int) =~= body);
    assert(body[path.len() as int] == '?');
    body.index_of_first_ensures('?');
    let i = body.index_of_first('?')->0;
    if i < path.len() {
        assert(path[i] == body[i]);
    }
    assert(i == path.len());
    assert(body.take(i) =~= path);
    assert(body.skip(i + 1) =~= query);
}

/// The canonical URL keeps path and query apart: the scheme and encoded path
/// of any options, followed by `?` and a query, are cut at that `?`, since the
/// encoded path holds none.
pub proof fn lemma_canonical_descriptor_parts(o: Options, query: Seq<char>)
    ensures
        path_part(strip_scheme(base_text(o) + seq!['?'] + query)) == percent_encoded(
            encode_utf8(o.filename),
        ),
        query_part(strip_scheme(base_text(o) + seq!['?'] + query)) == Some(query),
{
    lemma_percent_encoded_has_no_delimiter(encode_utf8(o.filename));
    lemma_descriptor_parts(percent_encoded(encode_utf8(o.filename)), query);
}

} // verus!
