use sqlite_options::percent::{must_escape, percent_encode_path};
use sqlite_options::{ConfigError, InMemoryNamer, SqliteConnectOptions};
use url::Url;

fn parse(url: &str) -> Result<SqliteConnectOptions, ConfigError> {
    let mut namer = InMemoryNamer::new();
    SqliteConnectOptions::from_str(url, &mut namer)
}

fn pairs(list: &[(&str, &str)]) -> Vec<(String, String)> {
    list.iter().map(|(k, v)| (k.to_string(), v.to_string())).collect()
}

#[test]
fn it_returns_the_parsed_url() -> Result<(), ConfigError> {
    let url = "sqlite://test.db?mode=rw&cache=shared";
    let options = parse(url)?;

    let expected_url = Url::parse(url).unwrap();
    assert_eq!(options.try_build_url(), Some(expected_url.clone()));
    assert_eq!(options.try_build_url().map(|_| options.build_url()), Some(expected_url));

    Ok(())
}

#[test]
fn mode_by_priority() {
    let mut options = SqliteConnectOptions::new("a.db".to_string());
    assert_eq!(options.mode_name(), "rw");
    options.read_only = true;
    assert_eq!(options.mode_name(), "ro");
    options.create_if_missing = true;
    assert_eq!(options.mode_name(), "rwc");
    options.in_memory = true;
    assert_eq!(options.mode_name(), "memory");
    options.create_if_missing = false;
    assert_eq!(options.mode_name(), "memory");
}

#[test]
fn canonical_pairs_in_order() {
    let mut options = SqliteConnectOptions::new("a.db".to_string());
    assert_eq!(options.canonical_pairs(), pairs(&[("mode", "rw"), ("cache", "shared")]));
    options.shared_cache = false;
    options.read_only = true;
    assert_eq!(options.canonical_pairs(), pairs(&[("mode", "ro"), ("cache", "private")]));
    options.immutable = true;
    assert_eq!(
        options.canonical_pairs(),
        pairs(&[("mode", "ro"), ("cache", "private"), ("immutable", "true")])
    );
    options.vfs = Some("unix none".to_string());
    assert_eq!(
        options.canonical_pairs(),
        pairs(&[("mode", "ro"), ("cache", "private"), ("immutable", "true"), ("vfs", "unix none")])
    );
    options.immutable = false;
    assert_eq!(
        options.canonical_pairs(),
        pairs(&[("mode", "ro"), ("cache", "private"), ("vfs", "unix none")])
    );
    // pragmas are not written
    let options = options.pragma("cache_size".to_string(), "1".to_string());
    assert_eq!(
        options.canonical_pairs(),
        pairs(&[("mode", "ro"), ("cache", "private"), ("vfs", "unix none")])
    );
}

#[test]
fn path_encoding() {
    assert_eq!(percent_encode_path("a.db"), "a.db");
    assert_eq!(percent_encode_path(""), "");
    assert_eq!(percent_encode_path("/var/lib/my db.sqlite"), "/var/lib/my%20db.sqlite");
    assert_eq!(percent_encode_path(" \"#<>?`{}"), "%20%22%23%3C%3E%3F%60%7B%7D");
    assert_eq!(percent_encode_path("\u{0}\u{1f}\u{7f}\n"), "%00%1F%7F%0A");
    assert_eq!(percent_encode_path("caf\u{e9}"), "caf%C3%A9");
    assert_eq!(percent_encode_path("\u{1f496}"), "%F0%9F%92%96");
    assert_eq!(percent_encode_path("100%&a=b;c:d|e~!"), "100%&a=b;c:d|e~!");
    for b in 0..=255u8 {
        let expected = b >= 0x80 || b < 0x20 || b == 0x7f || b" \"#<>?`{}".contains(&b);
        assert_eq!(must_escape(b), expected);
    }
}

#[test]
fn url_base() {
    let options = SqliteConnectOptions::new("my db?.sqlite".to_string());
    assert_eq!(options.url_base(), "sqlite://my%20db%3F.sqlite");
}

#[test]
fn build_url_writes_every_parameter() {
    let mut options = SqliteConnectOptions::new("/data/my db.sqlite".to_string());
    options.create_if_missing = true;
    options.shared_cache = false;
    options.immutable = true;
    options.vfs = Some("unix none&x".to_string());
    let url = options.try_build_url().unwrap();
    assert_eq!(
        url.as_str(),
        "sqlite:///data/my%20db.sqlite?mode=rwc&cache=private&immutable=true&vfs=unix+none%26x"
    );
    assert_eq!(options.build_url(), url);
}

#[test]
fn append_query_to_a_given_url() {
    let mut options = SqliteConnectOptions::new("ignored".to_string());
    options.read_only = true;
    let url = options.append_query(Url::parse("sqlite://other.db?x=1#frag").unwrap());
    assert_eq!(url.as_str(), "sqlite://other.db?x=1&mode=ro&cache=shared#frag");
}

#[test]
fn paths_without_a_canonical_url() {
    // `url` reads `host:port` here, and the port is not a number
    assert_eq!(SqliteConnectOptions::new("a:b".to_string()).try_build_url(), None);
    let in_memory = parse("sqlite::memory:").unwrap();
    assert_eq!(in_memory.filename, "file:sqlx-in-memory-0");
    assert_eq!(in_memory.try_build_url(), None);
    assert_eq!(SqliteConnectOptions::new("a^b".to_string()).try_build_url(), None);
}

fn round_trip(options: &SqliteConnectOptions) {
    let url = options.try_build_url().unwrap();
    assert_eq!(&parse(url.as_str()).unwrap(), options);
}

#[test]
fn serialized_options_parse_back() {
    for path in ["a.db", "/abs/path/to.db", "dir/sub/x.sqlite", "with space.db", "q?h#.db", "caf\u{e9}.db"] {
        for in_memory in [false, true] {
            for (create_if_missing, read_only) in [(false, false), (true, false), (false, true)] {
                if in_memory && (create_if_missing || read_only) {
                    continue;
                }
                for shared_cache in [false, true] {
                    for immutable in [false, true] {
                        for vfs in [None, Some("unix-none".to_string()), Some("a b&c=d".to_string())] {
                            let mut options = SqliteConnectOptions::new(path.to_string());
                            options.in_memory = in_memory;
                            options.create_if_missing = create_if_missing;
                            options.read_only = read_only;
                            options.shared_cache = shared_cache;
                            options.immutable = immutable;
                            options.vfs = vfs;
                            round_trip(&options);
                        }
                    }
                }
            }
        }
    }
}

#[test]
fn canonical_pairs_parse_back() {
    let mut options = SqliteConnectOptions::new("a.db".to_string());
    options.read_only = true;
    options.shared_cache = false;
    options.immutable = true;
    options.vfs = Some("x".to_string());
    let again = SqliteConnectOptions::new("a.db".to_string()).apply_params(&options.canonical_pairs());
    assert_eq!(again, Ok(options));
}

#[test]
fn percent_sign_in_a_path_does_not_survive() {
    let options = SqliteConnectOptions::new("a%41.db".to_string());
    let url = options.try_build_url().unwrap();
    assert_eq!(url.as_str(), "sqlite://a%41.db?mode=rw&cache=shared");
    assert_eq!(parse(url.as_str()).unwrap().filename, "aA.db");
}

#[test]
fn two_modes_do_not_survive() {
    let options = parse("a.db?mode=ro&mode=rwc").unwrap();
    let url = options.try_build_url().unwrap();
    assert_eq!(url.as_str(), "sqlite://a.db?mode=rwc&cache=shared");
    assert!(!parse(url.as_str()).unwrap().read_only);
}
