//! The pragmas that a descriptor may set, as one table.

use vstd::prelude::*;
use crate::text::{same_text, skip_chars, starts_with};

verus! {

/// The marker in front of every pragma key of a query string.
pub open spec fn pragma_marker() -> Seq<char> {
    "pragma_"@
}

/// The names of the pragmas that SQLite knows, without the marker.
pub open spec fn known_pragmas() -> Seq<Seq<char>> {
    seq![
        "analysis_limit"@,
        "application_id"@,
        "auto_vacuum"@,
        "automatic_index"@,
        "busy_timeout"@,
        "cache_size"@,
        "cache_spill"@,
        "case_sensitive_like"@,
        "cell_size_check"@,
        "checkpoint_fullfsync"@,
        "collation_list"@,
        "compile_options"@,
        "count_changes"@,
        "data_store_directory"@,
        "data_version"@,
        "database_list"@,
        "default_cache_size"@,
        "defer_foreign_keys"@,
        "empty_result_callbacks"@,
        "encoding"@,
        "foreign_key_check"@,
        "foreign_key_list"@,
        "foreign_keys"@,
        "freelist_count"@,
        "full_column_names"@,
        "fullfsync"@,
        "function_list"@,
        "hard_heap_limit"@,
        "ignore_check_constraints"@,
        "incremental_vacuum"@,
        "index_info"@,
        "index_list"@,
        "index_xinfo"@,
        "integrity_check"@,
        "journal_mode"@,
        "journal_size_limit"@,
        "legacy_alter_table"@,
        "legacy_file_format"@,
        "locking_mode"@,
        "max_page_count"@,
        "mmap_size"@,
        "module_list"@,
        "optimize"@,
        "page_count"@,
        "page_size"@,
        "parser_trace"@,
        "pragma_list"@,
        "query_only"@,
        "quick_check"@,
        "read_uncommitted"@,
        "recursive_triggers"@,
        "reverse_unordered_selects"@,
        "schema_version"@,
        "secure_delete"@,
        "short_column_names"@,
        "shrink_memory"@,
        "soft_heap_limit"@,
        "stats"@,
        "synchronous"@,
        "table_info"@,
        "table_list"@,
        "table_xinfo"@,
        "temp_store"@,
        "temp_store_directory"@,
        "threads"@,
        "trusted_schema"@,
        "user_version"@,
        "vdbe_addoptrace"@,
        "vdbe_debug"@,
        "vdbe_listing"@,
        "vdbe_trace"@,
        "wal_autocheckpoint"@,
        "wal_checkpoint"@,
        "writable_schema"@,
    ]
}

/// Whether `key` is the marker followed by the name of a known pragma.
pub open spec fn is_pragma_key(key: Seq<char>) -> bool {
    pragma_marker().is_prefix_of(key) && known_pragmas().contains(pragma_name(key))
}

/// The key without its leading marker. The marker is taken off the front
/// once; a name that holds the marker's text again keeps it.
pub open spec fn pragma_name(key: Seq<char>) -> Seq<char> {
    key.skip(pragma_marker().len() as int)
}

/// The table of known pragma names, in the order of [`known_pragmas`].
pub fn pragma_names() -> (names: Vec<&'static str>)
    ensures
        names@.len() == known_pragmas().len(),
        forall|i: int| 0 <= i < names@.len() ==> (#[trigger] names@[i])@ == known_pragmas()[i],
{
    vec![
        "analysis_limit",
        "application_id",
        "auto_vacuum",
        "automatic_index",
        "busy_timeout",
        "cache_size",
        "cache_spill",
        "case_sensitive_like",
        "cell_size_check",
        "checkpoint_fullfsync",
        "collation_list",
        "compile_options",
        "count_changes",
        "data_store_directory",
        "data_version",
        "database_list",
        "default_cache_size",
        "defer_foreign_keys",
        "empty_result_callbacks",
        "encoding",
        "foreign_key_check",
        "foreign_key_list",
        "foreign_keys",
        "freelist_count",
        "full_column_names",
        "fullfsync",
        "function_list",
        "hard_heap_limit",
        "ignore_check_constraints",
        "incremental_vacuum",
        "index_info",
        "index_list",
        "index_xinfo",
        "integrity_check",
        "journal_mode",
        "journal_size_limit",
        "legacy_alter_table",
        "legacy_file_format",
        "locking_mode",
        "max_page_count",
        "mmap_size",
        "module_list",
        "optimize",
        "page_count",
        "page_size",
        "parser_trace",
        "pragma_list",
        "query_only",
        "quick_check",
        "read_uncommitted",
        "recursive_triggers",
        "reverse_unordered_selects",
        "schema_version",
        "secure_delete",
        "short_column_names",
        "shrink_memory",
        "soft_heap_limit",
        "stats",
        "synchronous",
        "table_info",
        "table_list",
        "table_xinfo",
        "temp_store",
        "temp_store_directory",
        "threads",
        "trusted_schema",
        "user_version",
        "vdbe_addoptrace",
        "vdbe_debug",
        "vdbe_listing",
        "vdbe_trace",
        "wal_autocheckpoint",
        "wal_checkpoint",
        "writable_schema",
    ]
}

/// Whether `name` is in the table.
pub fn is_known_pragma(name: &str) -> (r: bool)
    ensures
        r == known_pragmas().contains(name@),
{
    let names = pragma_names();
    let mut i: usize = 0;
    while i < names.len()
        invariant
            i <= names@.len(),
            names@.len() == known_pragmas().len(),
            forall|j: int| 0 <= j < names@.len() ==> (#[trigger] names@[j])@ == known_pragmas()[j],
            forall|j: int| 0 <= j < i ==> known_pragmas()[j] != name@,
        decreases names@.len() - i,
    {
        if same_text(names[i], name) {
            assert(known_pragmas()[i as int] == name@);
            return true;
        }
        i = i + 1;
    }
    false
}

/// Takes the marker off a pragma key.
///
/// Returns the pragma's name where `key` is the marker followed by a known
/// name, and `None` for every other key.
pub fn strip_pragma_marker(key: &str) -> (r: Option<&str>)
    ensures
        match r {
            Some(name) => is_pragma_key(key@) && name@ == pragma_name(key@),
            None => !is_pragma_key(key@),
        },
{
    proof {
        reveal_strlit("pragma_");
    }
    if !starts_with(key, "pragma_") {
        return None;
    }
    let name = skip_chars(key, 7);
    if is_known_pragma(name) {
        Some(name)
    } else {
        None
    }
}

} // verus!
