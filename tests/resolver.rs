use storage_resolver::error::StorageError;
use storage_resolver::files::{io_outcome, read_outcome};
use storage_resolver::locations::{get_storage_dir_path, list_candidate_directories, BaseLocations};
use storage_resolver::message::{
    decode_message, encode_message, load_message, message_file_path, save_message, StoredMessage,
};
use storage_resolver::paths::join;
use storage_resolver::probe::{after_create, after_existence_check, after_marker_write, ProbeNext};

fn s(x: &str) -> String {
    x.to_string()
}

fn msg(x: &str) -> StoredMessage {
    StoredMessage { message: s(x) }
}

#[test]
fn join_inserts_one_separator() {
    assert_eq!(join("/data", "localdb"), "/data/localdb");
    assert_eq!(join("/data/", "localdb"), "/data/localdb");
    assert_eq!(join("", "localdb"), "localdb");
    assert_eq!(join("C:\\", "data"), "C:\\data");
}

#[test]
fn candidates_with_every_base_resolved() {
    let bases = BaseLocations {
        app_data: Some(s("/app")),
        documents: Some(s("/docs")),
        home: Some(s("/home/u")),
        working_dir: Some(s("/work")),
    };
    let expected = vec![
        "/app", "/app/localdb", "/docs", "/docs/localdb", "/home/u", "/home/u/localdb", "/work",
        "/work/data",
    ];
    assert_eq!(list_candidate_directories(&bases), expected);
}

#[test]
fn candidates_skip_unresolved_bases() {
    let bases = BaseLocations {
        app_data: None,
        documents: Some(s("/docs")),
        home: None,
        working_dir: Some(s("/work/")),
    };
    assert_eq!(
        list_candidate_directories(&bases),
        vec!["/docs", "/docs/localdb", "/work/", "/work/data"]
    );
}

#[test]
fn candidates_empty_when_nothing_resolves() {
    let bases = BaseLocations { app_data: None, documents: None, home: None, working_dir: None };
    assert!(list_candidate_directories(&bases).is_empty());
}

#[test]
fn storage_dir_path_joins_or_fails() {
    assert_eq!(get_storage_dir_path(&Some(s("/app"))).unwrap(), "/app/localdb");
    assert!(matches!(get_storage_dir_path(&None), Err(StorageError::Unresolved)));
}

#[test]
fn encode_plain_message() {
    assert_eq!(encode_message(&msg("hello")), "{\n  \"message\": \"hello\"\n}");
}

#[test]
fn encode_escapes_special_characters() {
    let encoded = encode_message(&msg("a\"b\\c\nd\te\r\u{8}\u{c}\u{1}\u{1f}é"));
    assert_eq!(
        encoded,
        "{\n  \"message\": \"a\\\"b\\\\c\\nd\\te\\r\\b\\f\\u0001\\u001fé\"\n}"
    );
}

#[test]
fn decode_after_encode_gives_message_back() {
    for m in ["", "hello", "quote \" and \\ slash", "line\nbreak\ttab", "\u{0}\u{7f}\u{1b}", "日本語 🦀"] {
        let decoded = decode_message(&encode_message(&msg(m))).unwrap();
        assert_eq!(decoded.message, m);
    }
}

#[test]
fn decode_accepts_unicode_and_slash_escapes() {
    let text = "{\n  \"message\": \"\\u0041\\u00e9\\/x\"\n}";
    assert_eq!(decode_message(text).unwrap().message, "Aé/x");
}

#[test]
fn decode_accepts_any_json_layout() {
    let texts = [
        "{\"message\": \"x\"}",
        "{\"message\":\"x\"}",
        "{\n  \"message\": \"x\"\n}\n",
        " \t\r\n{ \"message\" \n:\t\"x\" \r\n} \n",
        "{\"mess\\u0061ge\": \"x\"}",
    ];
    for text in texts {
        assert_eq!(decode_message(text).unwrap().message, "x", "{}", text);
    }
}

#[test]
fn decode_joins_surrogate_pairs() {
    assert_eq!(decode_message("{\"message\": \"\\ud83e\\udd80!\"}").unwrap().message, "🦀!");
    assert_eq!(decode_message("{\"message\": \"\\uD83E\\uDD80\"}").unwrap().message, "🦀");
}

#[test]
fn decode_rejects_malformed_records() {
    let bad = [
        "",
        "   ",
        "{}",
        "[\"x\"]",
        "{\"msg\": \"x\"}",
        "{\"message\": 1}",
        "{\"message\": \"x\"",
        "{\"message\": \"x\"} x",
        "{\"message\": \"x\", \"other\": \"y\"}",
        "{\"message\" \"x\"}",
        "{\n  \"message\": \"a\"b\"\n}",
        "{\n  \"message\": \"a\\qb\"\n}",
        "{\n  \"message\": \"a\\\"\n}",
        "{\n  \"message\": \"\\ud800\"\n}",
        "{\n  \"message\": \"\\ud800\\u0041\"\n}",
        "{\n  \"message\": \"\\udc00\"\n}",
        "{\n  \"message\": \"\\u00g1\"\n}",
        "{\n  \"message\": \"\\u00\"\n}",
        "{\n  \"message\": \"raw\nbreak\"\n}",
        "{\u{a0}\"message\": \"x\"}",
    ];
    for text in bad {
        assert!(matches!(decode_message(text), Err(StorageError::Decode)), "{}", text);
    }
}

#[test]
fn save_writes_record_in_directory() {
    let w = save_message("/app/data", &msg("hi"));
    assert_eq!(w.path, "/app/data/message.json");
    assert_eq!(w.contents, "{\n  \"message\": \"hi\"\n}");
    assert_eq!(message_file_path("/app/data/"), "/app/data/message.json");
}

#[test]
fn load_after_save_round_trips() {
    let w = save_message("/app", &msg("round \"trip\"\n"));
    let loaded = load_message(&w.path, Some(Ok(w.contents))).unwrap();
    assert_eq!(loaded.message, "round \"trip\"\n");
}

#[test]
fn load_without_prior_save_is_not_found() {
    match load_message("/app/message.json", None) {
        Err(StorageError::NotFound { path }) => assert_eq!(path, "/app/message.json"),
        other => panic!("unexpected {:?}", other),
    }
}

#[test]
fn load_reports_read_and_decode_errors() {
    match load_message("/p", Some(Err(s("denied")))) {
        Err(StorageError::Io { detail }) => assert_eq!(detail, "denied"),
        other => panic!("unexpected {:?}", other),
    }
    assert!(matches!(load_message("/p", Some(Ok(s("not json")))), Err(StorageError::Decode)));
}

#[test]
fn probe_existing_directory_writes_marker_without_creating() {
    match after_existence_check("/srv/db", true) {
        ProbeNext::WriteMarker { file, contents, created } => {
            assert_eq!(file, "/srv/db/.write_probe_7f3a.tmp");
            assert_eq!(contents, "probe");
            assert!(!created);
            let res = after_marker_write("/srv/db", created, Ok(())).unwrap();
            assert_eq!(res.path, "/srv/db");
            assert!(res.exists && res.is_writable && !res.created);
            assert_eq!(res.test_file_path, Some(s("/srv/db/.write_probe_7f3a.tmp")));
        },
        other => panic!("unexpected {:?}", other),
    }
}

#[test]
fn probe_missing_directory_creates_it() {
    assert!(matches!(after_existence_check("/new/dir", false), ProbeNext::CreateDir));
    match after_create("/new/dir", Ok(())).unwrap() {
        ProbeNext::WriteMarker { file, created, .. } => {
            assert!(created);
            assert_eq!(file, "/new/dir/.write_probe_7f3a.tmp");
            let res = after_marker_write("/new/dir", created, Ok(())).unwrap();
            assert!(res.created && res.exists && res.is_writable);
        },
        other => panic!("unexpected {:?}", other),
    }
}

#[test]
fn probe_failed_create_is_io_error() {
    match after_create("/ro/dir", Err(s("read-only file system"))) {
        Err(StorageError::Io { detail }) => assert_eq!(detail, "read-only file system"),
        other => panic!("unexpected {:?}", other),
    }
}

#[test]
fn probe_unwritable_directory_is_io_error() {
    match after_marker_write("/ro", false, Err(s("permission denied"))) {
        Err(StorageError::Io { detail }) => assert_eq!(detail, "permission denied"),
        other => panic!("unexpected {:?}", other),
    }
}

#[test]
fn read_and_io_outcomes() {
    assert_eq!(read_outcome("/f", Some(Ok(s("text")))).unwrap(), "text");
    assert!(matches!(read_outcome("/f", None), Err(StorageError::NotFound { .. })));
    assert!(matches!(read_outcome("/f", Some(Err(s("e")))), Err(StorageError::Io { .. })));
    assert!(io_outcome(Ok(())).is_ok());
    assert!(matches!(io_outcome(Err(s("e"))), Err(StorageError::Io { .. })));
}

#[test]
fn errors_describe_themselves() {
    assert_eq!(StorageError::Unresolved.describe(), "base directory could not be resolved");
    assert_eq!(StorageError::NotFound { path: s("/x") }.describe(), "file not found: /x");
    assert_eq!(StorageError::Io { detail: s("boom") }.describe(), "i/o error: boom");
    assert_eq!(StorageError::Decode.describe(), "malformed record");
}
