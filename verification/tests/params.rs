use sqlite_options::pragma::{is_known_pragma, pragma_names, strip_pragma_marker};
use sqlite_options::{ConfigError, InMemoryNamer, SqliteConnectOptions};

fn parse(url: &str) -> Result<SqliteConnectOptions, ConfigError> {
    let mut namer = InMemoryNamer::new();
    SqliteConnectOptions::from_str(url, &mut namer)
}

fn pairs(list: &[(&str, &str)]) -> Vec<(String, String)> {
    list.iter().map(|(k, v)| (k.to_string(), v.to_string())).collect()
}

fn base() -> SqliteConnectOptions {
    SqliteConnectOptions::new("a.db".to_string())
}

#[test]
fn mode_values() {
    let mut expected = base();
    expected.read_only = true;
    assert_eq!(parse("a.db?mode=ro").unwrap(), expected);

    assert_eq!(parse("a.db?mode=rw").unwrap(), base());

    let mut expected = base();
    expected.create_if_missing = true;
    assert_eq!(parse("a.db?mode=rwc").unwrap(), expected);

    let mut expected = base();
    expected.in_memory = true;
    expected.shared_cache = true;
    assert_eq!(parse("a.db?mode=memory").unwrap(), expected);
    assert_eq!(parse("a.db?cache=private&mode=memory").unwrap(), expected);
}

#[test]
fn cache_values() {
    let mut expected = base();
    expected.shared_cache = false;
    assert_eq!(parse("a.db?cache=private").unwrap(), expected);
    assert_eq!(parse("a.db?cache=shared").unwrap(), base());
    assert_eq!(parse("a.db?cache=private&cache=shared").unwrap(), base());
}

#[test]
fn immutable_values() {
    let mut expected = base();
    expected.immutable = true;
    assert_eq!(parse("a.db?immutable=true").unwrap(), expected);
    assert_eq!(parse("a.db?immutable=1").unwrap(), expected);
    assert_eq!(parse("a.db?immutable=false").unwrap(), base());
    assert_eq!(parse("a.db?immutable=0").unwrap(), base());
    assert_eq!(parse("a.db?immutable=1&immutable=0").unwrap(), base());
}

#[test]
fn vfs_takes_any_text() {
    let mut expected = base();
    expected.vfs = Some("unix-dotfile".to_string());
    assert_eq!(parse("a.db?vfs=unix-dotfile").unwrap(), expected);
    expected.vfs = Some(String::new());
    assert_eq!(parse("a.db?vfs=").unwrap(), expected);
    expected.vfs = Some("b".to_string());
    assert_eq!(parse("a.db?vfs=a&vfs=b").unwrap(), expected);
}

#[test]
fn memory_mode_then_private_cache() {
    let options = parse("sqlite://?mode=memory&cache=private").unwrap();
    assert!(options.in_memory);
    assert!(!options.shared_cache);
    assert_eq!(options.filename, "");
}

#[test]
fn unknown_mode_value_is_refused() {
    let err = parse("a.db?mode=bogus").unwrap_err();
    assert_eq!(err, ConfigError::UnknownMode { value: "bogus".to_string() });
    assert_eq!(err.message(), "unknown value \"bogus\" for `mode`");
    // keys and values are matched with regard to case
    assert_eq!(parse("a.db?mode=RO").unwrap_err(), ConfigError::UnknownMode { value: "RO".to_string() });
    assert_eq!(parse("a.db?mode=").unwrap_err(), ConfigError::UnknownMode { value: String::new() });
}

#[test]
fn unknown_cache_value_is_refused() {
    let err = parse("a.db?cache=both").unwrap_err();
    assert_eq!(err, ConfigError::UnknownCache { value: "both".to_string() });
    assert_eq!(err.message(), "unknown value \"both\" for `cache`");
}

#[test]
fn unknown_immutable_value_is_refused() {
    let err = parse("a.db?immutable=yes").unwrap_err();
    assert_eq!(err, ConfigError::UnknownImmutable { value: "yes".to_string() });
    assert_eq!(err.message(), "unknown value \"yes\" for `immutable`");
    assert_eq!(
        parse("a.db?immutable=TRUE").unwrap_err(),
        ConfigError::UnknownImmutable { value: "TRUE".to_string() }
    );
}

#[test]
fn unknown_key_is_refused() {
    let err = parse("a.db?foo=bar").unwrap_err();
    assert_eq!(err, ConfigError::UnknownParameter { key: "foo".to_string() });
    assert_eq!(err.message(), "unknown query parameter `foo` while parsing connection URL");
    assert_eq!(parse("a.db?Mode=ro").unwrap_err(), ConfigError::UnknownParameter { key: "Mode".to_string() });
    assert_eq!(
        parse("a.db?pragma_nonsense=1").unwrap_err(),
        ConfigError::UnknownParameter { key: "pragma_nonsense".to_string() }
    );
    assert_eq!(
        parse("a.db?cache_size=1").unwrap_err(),
        ConfigError::UnknownParameter { key: "cache_size".to_string() }
    );
    assert_eq!(parse("a.db?pragma_=1").unwrap_err(), ConfigError::UnknownParameter { key: "pragma_".to_string() });
}

#[test]
fn message_quotes_as_debug_does() {
    let err = ConfigError::UnknownMode { value: "a\"b\n".to_string() };
    assert_eq!(err.message(), "unknown value \"a\\\"b\\n\" for `mode`");
}

#[test]
fn first_refusal_ends_the_parse() {
    let err = parse("a.db?mode=ro&cache=both&mode=bogus&foo=1").unwrap_err();
    assert_eq!(err, ConfigError::UnknownCache { value: "both".to_string() });
}

#[test]
fn refused_parameter_leaves_options_unchanged() {
    let mut options = base();
    options.read_only = true;
    let before = options.clone();
    assert!(options.apply_param("mode", "bogus").is_err());
    assert_eq!(options, before);
    assert!(options.apply_param("cache", "private").is_ok());
    assert!(!options.shared_cache);
}

#[test]
fn apply_params_in_order() {
    let options = base()
        .apply_params(&pairs(&[("mode", "rwc"), ("vfs", "x"), ("pragma_cache_size", "1"), ("vfs", "y")]))
        .unwrap();
    let mut expected = base();
    expected.create_if_missing = true;
    expected.vfs = Some("y".to_string());
    expected.pragmas = pairs(&[("cache_size", "1")]);
    assert_eq!(options, expected);
    assert_eq!(base().apply_params(&Vec::new()).unwrap(), base());
    assert_eq!(
        base().apply_params(&pairs(&[("vfs", "x"), ("nope", "1"), ("mode", "bogus")])).unwrap_err(),
        ConfigError::UnknownParameter { key: "nope".to_string() }
    );
}

#[test]
fn second_mode_decides_where_the_first_is_rw_or_the_same() {
    assert_eq!(parse("a.db?mode=rw&mode=ro").unwrap(), parse("a.db?mode=ro").unwrap());
    assert_eq!(parse("a.db?mode=rwc&cache=private&mode=rwc").unwrap(), parse("a.db?cache=private&mode=rwc").unwrap());
    assert_eq!(
        parse("a.db?mode=memory&cache=private&mode=memory&vfs=x").unwrap(),
        parse("a.db?cache=private&mode=memory&vfs=x").unwrap()
    );
}

#[test]
fn each_mode_sets_its_own_flag_and_clears_none() {
    let options = parse("a.db?mode=ro&mode=rw").unwrap();
    assert!(options.read_only);
    let options = parse("a.db?mode=ro&mode=rwc").unwrap();
    assert!(options.read_only);
    assert!(options.create_if_missing);
}

#[test]
fn pragma_cache_size() {
    let options = parse("sqlite://a.db?pragma_cache_size=2000").unwrap();
    assert_eq!(options.pragmas, pairs(&[("cache_size", "2000")]));
}

#[test]
fn pragma_marker_is_removed_once() {
    let options = parse("sqlite://a.db?pragma_pragma_list=1").unwrap();
    assert_eq!(options.pragmas, pairs(&[("pragma_list", "1")]));
    assert_eq!(strip_pragma_marker("pragma_pragma_list"), Some("pragma_list"));
    assert_eq!(strip_pragma_marker("pragma_cache_size"), Some("cache_size"));
    assert_eq!(strip_pragma_marker("pragma_"), None);
    assert_eq!(strip_pragma_marker("cache_size"), None);
    assert_eq!(strip_pragma_marker("pragma_Cache_Size"), None);
    assert_eq!(strip_pragma_marker("xpragma_cache_size"), None);
}

#[test]
fn pragmas_keep_order_and_duplicates() {
    let options =
        parse("a.db?pragma_foreign_keys=on&pragma_cache_size=1&pragma_foreign_keys=off").unwrap();
    assert_eq!(
        options.pragmas,
        pairs(&[("foreign_keys", "on"), ("cache_size", "1"), ("foreign_keys", "off")])
    );
}

#[test]
fn pragma_appends_one_entry() {
    let options = base().pragma("a".to_string(), "1".to_string()).pragma("a".to_string(), "2".to_string());
    let mut expected = base();
    expected.pragmas = pairs(&[("a", "1"), ("a", "2")]);
    assert_eq!(options, expected);
}

#[test]
fn pragma_table() {
    let names = pragma_names();
    assert_eq!(names.len(), 74);
    assert_eq!(names[0], "analysis_limit");
    assert_eq!(names[5], "cache_size");
    assert_eq!(names[73], "writable_schema");
    for name in &names {
        assert!(is_known_pragma(name));
        let key = format!("pragma_{}", name);
        assert_eq!(strip_pragma_marker(&key), Some(*name));
        let options = parse(&format!("a.db?{}=v", key)).unwrap();
        assert_eq!(options.pragmas, pairs(&[(*name, "v")]));
    }
    assert!(is_known_pragma("journal_mode"));
    assert!(!is_known_pragma("journal"));
    assert!(!is_known_pragma(""));
    assert!(!is_known_pragma("pragma_journal_mode"));
}
