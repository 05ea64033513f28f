use sqlite_options::{ConfigError, InMemoryNamer, SqliteConnectOptions};
use sqlite_options::parse::{split_body, without_scheme};

fn parse(url: &str) -> Result<SqliteConnectOptions, ConfigError> {
    let mut namer = InMemoryNamer::new();
    SqliteConnectOptions::from_str(url, &mut namer)
}

#[test]
fn test_parse_in_memory() -> Result<(), ConfigError> {
    let mut namer = InMemoryNamer::new();

    let options = SqliteConnectOptions::from_str("sqlite::memory:", &mut namer)?;
    assert!(options.in_memory);
    assert!(options.shared_cache);

    let options = SqliteConnectOptions::from_str("sqlite://?mode=memory", &mut namer)?;
    assert!(options.in_memory);
    assert!(options.shared_cache);

    let options = SqliteConnectOptions::from_str("sqlite://:memory:", &mut namer)?;
    assert!(options.in_memory);
    assert!(options.shared_cache);

    let options = SqliteConnectOptions::from_str("sqlite://?mode=memory&cache=private", &mut namer)?;
    assert!(options.in_memory);
    assert!(!options.shared_cache);

    Ok(())
}

#[test]
fn test_parse_read_only() -> Result<(), ConfigError> {
    let options = parse("sqlite://a.db?mode=ro")?;
    assert!(options.read_only);
    assert_eq!(&*options.filename, "a.db");

    Ok(())
}

#[test]
fn test_parse_shared_in_memory() -> Result<(), ConfigError> {
    let options = parse("sqlite://a.db?cache=shared")?;
    assert!(options.shared_cache);
    assert_eq!(&*options.filename, "a.db");

    Ok(())
}

#[test]
fn cache_shared_leaves_the_rest_at_default() {
    let options = parse("sqlite://a.db?cache=shared").unwrap();
    assert_eq!(options, SqliteConnectOptions::new("a.db".to_string()));
}

#[test]
fn default_options() {
    let options = SqliteConnectOptions::default();
    assert_eq!(options.filename, "");
    assert!(!options.in_memory);
    assert!(options.shared_cache);
    assert!(!options.create_if_missing);
    assert!(!options.read_only);
    assert!(!options.immutable);
    assert_eq!(options.vfs, None);
    assert!(options.pragmas.is_empty());
    assert_eq!(parse("a.db").unwrap(), SqliteConnectOptions::new("a.db".to_string()));
}

#[test]
fn scheme_is_optional_and_taken_off_once() {
    assert_eq!(without_scheme("sqlite://a.db"), "a.db");
    assert_eq!(without_scheme("sqlite:a.db"), "a.db");
    assert_eq!(without_scheme("a.db"), "a.db");
    assert_eq!(without_scheme("sqlite:///abs/a.db"), "/abs/a.db");
    assert_eq!(without_scheme("sqlite://sqlite:a.db"), "sqlite:a.db");
    assert_eq!(without_scheme("sqlite:sqlite://a.db"), "sqlite://a.db");
    assert_eq!(without_scheme("SQLITE://a.db"), "SQLITE://a.db");
    assert_eq!(without_scheme(""), "");
    assert_eq!(parse("sqlite:a.db").unwrap().filename, "a.db");
    assert_eq!(parse("a.db").unwrap().filename, "a.db");
}

#[test]
fn body_is_cut_at_the_first_question_mark() {
    assert_eq!(split_body("a.db"), ("a.db", None));
    assert_eq!(split_body("a.db?"), ("a.db", Some("")));
    assert_eq!(split_body("a.db?mode=ro"), ("a.db", Some("mode=ro")));
    assert_eq!(split_body("a.db?vfs=x?y"), ("a.db", Some("vfs=x?y")));
    assert_eq!(split_body("?mode=memory"), ("", Some("mode=memory")));
    assert_eq!(split_body("d\u{e9}j\u{e0}?vfs=\u{e9}"), ("d\u{e9}j\u{e0}", Some("vfs=\u{e9}")));
    assert_eq!(split_body(""), ("", None));
}

#[test]
fn later_question_mark_belongs_to_the_value() {
    let options = parse("sqlite://a.db?vfs=x?y").unwrap();
    assert_eq!(options.filename, "a.db");
    assert_eq!(options.vfs, Some("x?y".to_string()));
}

#[test]
fn empty_query_changes_nothing() {
    let options = parse("sqlite://a.db?").unwrap();
    assert_eq!(options, SqliteConnectOptions::new("a.db".to_string()));
}

#[test]
fn path_is_percent_decoded() {
    assert_eq!(parse("sqlite://a%20b.db").unwrap().filename, "a b.db");
    assert_eq!(parse("sqlite://what%3F%23.db?mode=rwc").unwrap().filename, "what?#.db");
    assert_eq!(parse("sqlite://caf%C3%A9.db").unwrap().filename, "caf\u{e9}.db");
    assert_eq!(parse("sqlite://a%2fb").unwrap().filename, "a/b");
    // an incomplete escape stands for itself
    assert_eq!(parse("sqlite://100%.db").unwrap().filename, "100%.db");
    assert_eq!(parse("sqlite://a%4").unwrap().filename, "a%4");
    assert_eq!(parse("sqlite://a%zz").unwrap().filename, "a%zz");
    assert_eq!(parse("sqlite://%%41").unwrap().filename, "%A");
}

#[test]
fn path_that_is_not_utf8_is_refused() {
    let mut namer = InMemoryNamer::new();
    let err = SqliteConnectOptions::from_db_and_params("a%FF.db", None, &mut namer).unwrap_err();
    let expected = std::str::from_utf8(b"a\xff.db").unwrap_err().to_string();
    assert_eq!(err, ConfigError::InvalidPath { reason: expected.clone() });
    assert_eq!(err.message(), expected);
    // the parameters are not looked at
    let err = parse("sqlite://%C3?mode=bogus").unwrap_err();
    assert!(matches!(err, ConfigError::InvalidPath { .. }));
}

#[test]
fn sentinel_draws_a_fresh_name() {
    let mut namer = InMemoryNamer::new();
    let first = SqliteConnectOptions::from_str("sqlite::memory:", &mut namer).unwrap();
    let second = SqliteConnectOptions::from_str(":memory:", &mut namer).unwrap();
    let on_disk = SqliteConnectOptions::from_str("sqlite://a.db?mode=memory", &mut namer).unwrap();
    let third = SqliteConnectOptions::from_db_and_params(":memory:", Some("cache=private"), &mut namer)
        .unwrap();
    assert_eq!(first.filename, "file:sqlx-in-memory-0");
    assert_eq!(second.filename, "file:sqlx-in-memory-1");
    assert_eq!(on_disk.filename, "a.db");
    assert!(on_disk.in_memory);
    assert_eq!(third.filename, "file:sqlx-in-memory-2");
    assert!(third.in_memory);
    assert!(!third.shared_cache);
    assert_ne!(first.filename, second.filename);
}

#[test]
fn sentinel_uses_up_a_name_even_when_the_query_is_refused() {
    let mut namer = InMemoryNamer::new();
    assert!(SqliteConnectOptions::from_str(":memory:?mode=bogus", &mut namer).is_err());
    assert_eq!(namer.next(), "file:sqlx-in-memory-1");
    assert!(SqliteConnectOptions::from_str("a.db?mode=bogus", &mut namer).is_err());
    assert!(SqliteConnectOptions::from_str("a.db", &mut namer).is_ok());
    assert_eq!(namer.next(), "file:sqlx-in-memory-2");
}

#[test]
fn sentinel_must_be_the_whole_path() {
    let options = parse("sqlite://:memory:x").unwrap();
    assert!(!options.in_memory);
    assert_eq!(options.filename, ":memory:x");
    let options = parse("sqlite://%3Amemory%3A").unwrap();
    assert!(!options.in_memory);
    assert_eq!(options.filename, ":memory:");
}

#[test]
fn from_database_ignores_nothing_and_applies_nothing() {
    let mut namer = InMemoryNamer::new();
    let options = SqliteConnectOptions::from_database("a%20b", &mut namer).unwrap();
    assert_eq!(options, SqliteConnectOptions::new("a b".to_string()));
    let options = SqliteConnectOptions::from_database(":memory:", &mut namer).unwrap();
    let mut expected = SqliteConnectOptions::new("file:sqlx-in-memory-0".to_string());
    expected.in_memory = true;
    assert_eq!(options, expected);
}

#[test]
fn query_is_form_decoded() {
    let mut namer = InMemoryNamer::new();
    let options = SqliteConnectOptions::from_db_and_params(
        "a.db",
        Some("vfs=unix+none&&pragma_journal_mode=%57AL&immutable=1"),
        &mut namer,
    )
    .unwrap();
    assert_eq!(options.vfs, Some("unix none".to_string()));
    assert_eq!(options.pragmas, vec![("journal_mode".to_string(), "WAL".to_string())]);
    assert!(options.immutable);
    // a key without `=` has the empty value
    let err = SqliteConnectOptions::from_db_and_params("a.db", Some("mode"), &mut namer).unwrap_err();
    assert_eq!(err, ConfigError::UnknownMode { value: String::new() });
}
