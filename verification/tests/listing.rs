use myssh::auth::{auth_step, key_outcome, password_outcome, AuthStep};
use myssh::errors::{AuthError, CoreError};
use myssh::models::{AuthMethod, ServerConfig};
use myssh::registry::Registry;
use myssh::sftp::{
    build_entry, build_listing, join_path, permissions_string, require_session, sort_entries,
    FileTransferSession, RawDirEntry,
};

fn raw(name: &str, is_dir: bool) -> RawDirEntry {
    RawDirEntry {
        name: name.to_string(),
        is_dir,
        size: Some(10),
        mtime: Some(1_700_000_000),
        permissions: Some(0o644),
    }
}

#[test]
fn directories_sort_first_then_case_insensitive_names() {
    let entries = vec![
        build_entry("/srv", &raw("b.txt", false)),
        build_entry("/srv", &raw("A", true)),
        build_entry("/srv", &raw("a.txt", false)),
    ];
    let sorted = sort_entries(entries);
    let names: Vec<&str> = sorted.iter().map(|e| e.name.as_str()).collect();
    assert_eq!(names, vec!["A", "a.txt", "b.txt"]);
}

#[test]
fn case_is_ignored_within_a_group() {
    let entries = vec![
        build_entry("/", &raw("Zebra", false)),
        build_entry("/", &raw("apple", false)),
        build_entry("/", &raw("Banana", false)),
    ];
    let sorted = sort_entries(entries);
    let names: Vec<&str> = sorted.iter().map(|e| e.name.as_str()).collect();
    assert_eq!(names, vec!["apple", "Banana", "Zebra"]);
}

#[test]
fn build_listing_shapes_and_orders() {
    let listing = build_listing(
        "/home/u/",
        &vec![raw("notes.txt", false), raw("Docs", true)],
    );
    assert_eq!(listing.len(), 2);
    assert_eq!(listing[0].name, "Docs");
    assert!(listing[0].is_dir);
    assert_eq!(listing[0].path, "/home/u/Docs");
    assert_eq!(listing[1].name, "notes.txt");
    assert_eq!(listing[1].path, "/home/u/notes.txt");
}

#[test]
fn entry_carries_size_time_and_permissions() {
    let e = build_entry("/d", &raw("f", false));
    assert_eq!(e.size, 10);
    assert_eq!(e.modified, 1_700_000_000);
    assert_eq!(e.permissions, "-rw-r--r-");
}

#[test]
fn absent_metadata_reads_as_zero_and_dashes() {
    let e = build_entry(
        "/d",
        &RawDirEntry {
            name: "f".to_string(),
            is_dir: false,
            size: None,
            mtime: None,
            permissions: None,
        },
    );
    assert_eq!(e.size, 0);
    assert_eq!(e.modified, 0);
    assert_eq!(e.permissions, "---------");
}

#[test]
fn permission_strings_are_nine_characters() {
    assert_eq!(permissions_string(true, Some(0o755)), "drwxr-xr-");
    assert_eq!(permissions_string(false, Some(0o600)), "-rw------");
    assert_eq!(permissions_string(true, None), "d--------");
    assert_eq!(permissions_string(false, Some(0o777)).chars().count(), 9);
}

#[test]
fn paths_join_with_trailing_separators_trimmed() {
    assert_eq!(join_path("/home/u", "f"), "/home/u/f");
    assert_eq!(join_path("/home/u/", "f"), "/home/u/f");
    assert_eq!(join_path("/home/u///", "f"), "/home/u/f");
    assert_eq!(join_path("/", "f"), "/f");
    assert_eq!(join_path("", "f"), "/f");
}

#[test]
fn operations_require_a_registered_session() {
    let mut reg: Registry<FileTransferSession> = Registry::new();
    assert!(matches!(
        require_session(&reg, "sftp-1"),
        Err(CoreError::NotFound)
    ));
    reg.register(
        "sftp-1".to_string(),
        FileTransferSession { session_id: "sftp-1".to_string() },
    );
    assert!(require_session(&reg, "sftp-1").is_ok());
    reg.remove("sftp-1");
    assert!(matches!(
        require_session(&reg, "sftp-1"),
        Err(CoreError::NotFound)
    ));
}

#[test]
fn auth_decisions_follow_the_method() {
    let p = ServerConfig::new(
        "a".to_string(),
        "h".to_string(),
        22,
        "user".to_string(),
        AuthMethod::Password("pw".to_string()),
    );
    match auth_step(&p) {
        AuthStep::UsePassword { username, password } => {
            assert_eq!(username, "user");
            assert_eq!(password, "pw");
        }
        _ => panic!("expected the password step"),
    }
    let k = ServerConfig::new(
        "b".to_string(),
        "h".to_string(),
        22,
        "user".to_string(),
        AuthMethod::PrivateKey { key: "K".to_string(), passphrase: Some("".to_string()) },
    );
    match auth_step(&k) {
        AuthStep::UseKey { passphrase, .. } => assert!(passphrase.is_none()),
        _ => panic!("expected the key step"),
    }
    assert!(password_outcome(true).is_ok());
    assert!(matches!(password_outcome(false), Err(AuthError::Rejected)));
    assert!(matches!(key_outcome(false, false), Err(AuthError::BadKey)));
    assert!(matches!(key_outcome(true, false), Err(AuthError::Rejected)));
    assert!(key_outcome(true, true).is_ok());
}

#[test]
fn core_error_messages_surface_the_text() {
    let e = CoreError::Proxy("HTTP/1.1 407".to_string());
    assert_eq!(e.message(), "HTTP/1.1 407");
    let io = CoreError::Io("remote says no".to_string());
    assert_eq!(io.message(), "remote says no");
    assert_eq!(CoreError::Crypto.message(), "wrong password or corrupted data");
}
