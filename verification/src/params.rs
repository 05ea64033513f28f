//! The interpreter of query parameters: what each key and value does to the
//! options under construction.

use vstd::prelude::*;
use crate::error::{ConfigError, ConfigErrorModel};
use crate::options::{pair_views, Options, SqliteConnectOptions};
use crate::pragma::{is_pragma_key, pragma_name, strip_pragma_marker};
use crate::text::same_text;

verus! {

/// What the parameter `mode` does for each value it accepts.
pub open spec fn apply_mode(o: Options, value: Seq<char>) -> Result<Options, ConfigErrorModel> {
    if value == "ro"@ {
        Ok(Options { read_only: true, ..o })
    } else if value == "rw"@ {
        Ok(o)
    } else if value == "rwc"@ {
        Ok(Options { create_if_missing: true, ..o })
    } else if value == "memory"@ {
        Ok(Options { in_memory: true, shared_cache: true, ..o })
    } else {
        Err(ConfigErrorModel::UnknownMode { value })
    }
}

/// What the parameter `cache` does for each value it accepts.
pub open spec fn apply_cache(o: Options, value: Seq<char>) -> Result<Options, ConfigErrorModel> {
    if value == "private"@ {
        Ok(Options { shared_cache: false, ..o })
    } else if value == "shared"@ {
        Ok(Options { shared_cache: true, ..o })
    } else {
        Err(ConfigErrorModel::UnknownCache { value })
    }
}

/// What the parameter `immutable` does for each value it accepts.
pub open spec fn apply_immutable(o: Options, value: Seq<char>) -> Result<
    Options,
    ConfigErrorModel,
> {
    if value == "true"@ || value == "1"@ {
        Ok(Options { immutable: true, ..o })
    } else if value == "false"@ || value == "0"@ {
        Ok(Options { immutable: false, ..o })
    } else {
        Err(ConfigErrorModel::UnknownImmutable { value })
    }
}

/// The effect of one query parameter on the options `o`.
///
/// Keys are matched exactly and with regard to case. `vfs` and the pragmas
/// take any value; a key outside the table is an error.
pub open spec fn apply_param(o: Options, key: Seq<char>, value: Seq<char>) -> Result<
    Options,
    ConfigErrorModel,
> {
    if key == "mode"@ {
        apply_mode(o, value)
    } else if key == "cache"@ {
        apply_cache(o, value)
    } else if key == "immutable"@ {
        apply_immutable(o, value)
    } else if key == "vfs"@ {
        Ok(Options { vfs: Some(value), ..o })
    } else if is_pragma_key(key) {
        Ok(o.with_pragma(pragma_name(key), value))
    } else {
        Err(ConfigErrorModel::UnknownParameter { key })
    }
}

/// The effect of a list of query parameters, applied first to last. The first
/// parameter that is refused ends the run with its error.
pub open spec fn apply_params(o: Options, pairs: Seq<(Seq<char>, Seq<char>)>) -> Result<
    Options,
    ConfigErrorModel,
>
    decreases pairs.len(),
{
    if pairs.len() == 0 {
        Ok(o)
    } else {
        match apply_param(o, pairs[0].0, pairs[0].1) {
            Ok(next) => apply_params(next, pairs.skip(1)),
            Err(e) => Err(e),
        }
    }
}

/// The model of the outcome of a parse.
pub open spec fn outcome_view(r: Result<SqliteConnectOptions, ConfigError>) -> Result<
    Options,
    ConfigErrorModel,
> {
    match r {
        Ok(o) => Ok(o@),
        Err(e) => Err(e@),
    }
}

impl SqliteConnectOptions {
    /// Applies one query parameter.
    ///
    /// On success the options are changed as [`apply_param`] says. On failure
    /// they are left as they were and the error names the offending key or
    /// value.
    pub fn apply_param(&mut self, key: &str, value: &str) -> (r: Result<(), ConfigError>)
        ensures
            match apply_param(old(self)@, key@, value@) {
                Ok(o) => r is Ok && final(self)@ == o,
                Err(e) => r matches Err(err) && err@ == e && final(self)@ == old(self)@,
            },
    {
        if same_text(key, "mode") {
            if same_text(value, "ro") {
                self.read_only = true;
            } else if same_text(value, "rw") {
            } else if same_text(value, "rwc") {
                self.create_if_missing = true;
            } else if same_text(value, "memory") {
                self.in_memory = true;
                self.shared_cache = true;
            } else {
                return Err(ConfigError::UnknownMode { value: value.to_owned() });
            }
        } else if same_text(key, "cache") {
            if same_text(value, "private") {
                self.shared_cache = false;
            } else if same_text(value, "shared") {
                self.shared_cache = true;
            } else {
                return Err(ConfigError::UnknownCache { value: value.to_owned() });
            }
        } else if same_text(key, "immutable") {
            if same_text(value, "true") || same_text(value, "1") {
                self.immutable = true;
            } else if same_text(value, "false") || same_text(value, "0") {
                self.immutable = false;
            } else {
                return Err(ConfigError::UnknownImmutable { value: value.to_owned() });
            }
        } else if same_text(key, "vfs") {
            self.vfs = Some(value.to_owned());
        } else {
            match strip_pragma_marker(key) {
                Some(name) => {
                    self.pragmas.push((name.to_owned(), value.to_owned()));
                    assert(self@.pragmas =~= old(self)@.pragmas.push((name@, value@)));
                },
                None => {
                    return Err(ConfigError::UnknownParameter { key: key.to_owned() });
                },
            }
        }
        Ok(())
    }

    /// Applies a list of query parameters in order and stops at the first one
    /// that is refused.
    pub fn apply_params(self, pairs: &Vec<(String, String)>) -> (r: Result<
        SqliteConnectOptions,
        ConfigError,
    >)
        ensures
            outcome_view(r) == apply_params(self@, pair_views(pairs@)),
    {
        let mut options = self;
        let ghost all = pair_views(pairs@);
        let mut i: usize = 0;
        assert(all.skip(0) =~= all);
        while i < pairs.len()
            invariant
                i <= pairs@.len(),
                all == pair_views(pairs@),
                apply_params(options@, all.skip(i as int)) == apply_params(self@, all),
            decreases pairs@.len() - i,
        {
            let ghost rest = all.skip(i as int);
            assert(rest.len() > 0 && rest[0] == all[i as int]);
            assert(rest.skip(1) =~= all.skip(i + 1));
            let pair = &pairs[i];
            match options.apply_param(pair.0.as_str(), pair.1.as_str()) {
                Ok(()) => {},
                Err(e) => {
                    return Err(e);
                },
            }
            i = i + 1;
        }
        assert(all.skip(i as int).len() == 0);
        Ok(options)
    }
}

} // verus!
