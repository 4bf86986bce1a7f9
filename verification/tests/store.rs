use myssh::crypto::random_bytes;
use myssh::errors::CoreError;
use myssh::models::{AuthMethod, ProxyConfig, ProxyType, SaveServerRequest, ServerConfig, TerminalSize};
use myssh::storage::Storage;

fn new_store() -> Storage {
    Storage::new(random_bytes(32), String::from("/tmp/data"))
}

fn profile(name: &str) -> ServerConfig {
    ServerConfig::new(
        name.to_string(),
        "example.net".to_string(),
        22,
        "root".to_string(),
        AuthMethod::Password("pw".to_string()),
    )
}

#[test]
fn fresh_profile_has_uuid_length_id_and_equal_timestamps() {
    let p = profile("box");
    assert_eq!(p.id.chars().count(), 36);
    assert_eq!(p.created_at, p.updated_at);
    assert!(p.proxy.is_none());
    assert!(p.jump_host.is_none());
    assert!(p.notes.is_none());
}

#[test]
fn save_then_get_returns_the_profile() {
    let mut store = new_store();
    let p = profile("box");
    let id = p.id.clone();
    let saved = store.save_server(p);
    assert_eq!(saved.id, id);
    let got = store.get_server(&id).expect("stored profile");
    assert_eq!(got.name, "box");
    assert_eq!(got.host, "example.net");
    assert_eq!(got.port, 22);
    assert_eq!(got.username, "root");
}

#[test]
fn get_unknown_id_is_none() {
    let store = new_store();
    assert!(store.get_server("nope").is_none());
}

#[test]
fn save_assigns_created_timestamp_on_first_save_only() {
    let mut store = new_store();
    let mut p = profile("box");
    p.created_at = 0;
    let saved = store.save_server(p);
    assert_eq!(saved.created_at, saved.updated_at);
    let mut again = saved.clone();
    again.name = "box2".to_string();
    let resaved = store.save_server(again);
    assert_eq!(resaved.created_at, saved.created_at);
    assert_eq!(resaved.name, "box2");
    // the same id was updated, not duplicated
    assert_eq!(store.get_all_servers().len(), 1);
}

#[test]
fn delete_removes_and_is_idempotent() {
    let mut store = new_store();
    let p = profile("box");
    let id = p.id.clone();
    store.save_server(p);
    assert!(store.get_server(&id).is_some());
    store.delete_server(&id);
    assert!(store.get_server(&id).is_none());
    store.delete_server(&id);
    assert!(store.get_server(&id).is_none());
}

#[test]
fn get_all_lists_every_saved_profile() {
    let mut store = new_store();
    store.save_server(profile("one"));
    store.save_server(profile("two"));
    store.save_server(profile("three"));
    let all = store.get_all_servers();
    assert_eq!(all.len(), 3);
    let mut names: Vec<String> = all.iter().map(|c| c.name.clone()).collect();
    names.sort();
    assert_eq!(names, vec!["one".to_string(), "three".to_string(), "two".to_string()]);
}

#[test]
fn summaries_carry_no_secrets_and_right_flags() {
    let mut store = new_store();
    let mut p = profile("flagged");
    p.proxy = Some(ProxyConfig {
        proxy_type: ProxyType::Http,
        host: "proxy".to_string(),
        port: 8080,
        username: None,
        password: None,
    });
    p.jump_host = Some("other-id".to_string());
    store.save_server(p);
    let infos = store.get_servers();
    assert_eq!(infos.len(), 1);
    let info = &infos[0];
    assert_eq!(info.auth_type, "password");
    assert!(info.has_proxy);
    assert!(info.has_jump_host);
    assert_eq!(info.jump_host.as_deref(), Some("other-id"));
}

#[test]
fn encrypted_profile_round_trips() {
    let store = new_store();
    let mut p = profile("crypted");
    p.auth = AuthMethod::PrivateKey {
        key: "-----BEGIN KEY-----".to_string(),
        passphrase: Some("hunter2".to_string()),
    };
    p.proxy = Some(ProxyConfig {
        proxy_type: ProxyType::Socks5,
        host: "socks".to_string(),
        port: 1080,
        username: Some("u".to_string()),
        password: Some("p".to_string()),
    });
    p.jump_host = Some("jump-id".to_string());
    p.notes = Some("note".to_string());
    let enc = store.encrypt_server(&p).expect("encrypt profile");
    // non-secret fields stay in clear text
    assert_eq!(enc.id, p.id);
    assert_eq!(enc.host, "example.net");
    assert_eq!(enc.jump_host.as_deref(), Some("jump-id"));
    let back = store.decrypt_server(&enc).expect("decrypt profile");
    assert_eq!(back.id, p.id);
    assert_eq!(back.name, "crypted");
    match back.auth {
        AuthMethod::PrivateKey { key, passphrase } => {
            assert_eq!(key, "-----BEGIN KEY-----");
            assert_eq!(passphrase.as_deref(), Some("hunter2"));
        }
        _ => panic!("wrong auth kind after round trip"),
    }
    let proxy = back.proxy.expect("proxy kept");
    assert_eq!(proxy.password.as_deref(), Some("p"));
    assert_eq!(back.jump_host.as_deref(), Some("jump-id"));
}

#[test]
fn load_excludes_profiles_that_no_longer_decrypt() {
    let mut store = new_store();
    let other = new_store();
    let good = store.encrypt_server(&profile("good")).expect("encrypt");
    // sealed under a different machine key: its secrets no longer open here
    let foreign = other.encrypt_server(&profile("foreign")).expect("encrypt");
    store.load_entries(vec![good, foreign]);
    let all = store.get_all_servers();
    assert_eq!(all.len(), 1);
    assert_eq!(all[0].name, "good");
}

#[test]
fn save_entries_projects_every_profile() {
    let mut store = new_store();
    store.save_server(profile("a"));
    store.save_server(profile("b"));
    let entries = store.save_entries();
    assert_eq!(entries.len(), 2);
    // reloading the projection restores the same set
    let mut reloaded = new_store();
    // note: sealed under the first store's key, so reload into the same store
    store.load_entries(entries);
    assert_eq!(store.get_all_servers().len(), 2);
    reloaded.load_entries(vec![]);
    assert_eq!(reloaded.get_all_servers().len(), 0);
}

#[test]
fn import_assigns_fresh_ids_and_counts() {
    let mut store = new_store();
    let p1 = profile("alpha");
    let p2 = profile("beta");
    let source_ids = vec![p1.id.clone(), p2.id.clone()];
    let count = store.import_profiles(vec![p1, p2]);
    assert_eq!(count, 2);
    let all = store.get_all_servers();
    assert_eq!(all.len(), 2);
    for c in &all {
        assert!(!source_ids.contains(&c.id), "imported id must be fresh");
        assert_eq!(c.id.chars().count(), 36);
    }
}

fn base_request() -> SaveServerRequest {
    SaveServerRequest {
        id: None,
        name: "req".to_string(),
        host: "h".to_string(),
        port: 2222,
        username: "u".to_string(),
        auth_type: "password".to_string(),
        password: Some("pw".to_string()),
        private_key: None,
        passphrase: None,
        proxy_enabled: false,
        proxy_type: None,
        proxy_host: None,
        proxy_port: None,
        proxy_username: None,
        proxy_password: None,
        jump_host: None,
        notes: None,
    }
}

#[test]
fn apply_request_creates_a_profile() {
    let mut store = new_store();
    let info = store.apply_request(base_request()).expect("create");
    assert_eq!(info.name, "req");
    assert_eq!(info.port, 2222);
    assert_eq!(info.auth_type, "password");
    assert!(!info.has_proxy);
    assert!(store.get_server(&info.id).is_some());
}

#[test]
fn apply_request_without_password_is_rejected() {
    let mut store = new_store();
    let mut rq = base_request();
    rq.password = None;
    assert!(matches!(store.apply_request(rq), Err(CoreError::Format)));
    assert!(store.get_all_servers().is_empty());
}

#[test]
fn apply_request_key_without_material_is_rejected() {
    let mut store = new_store();
    let mut rq = base_request();
    rq.auth_type = "key".to_string();
    rq.private_key = None;
    assert!(matches!(store.apply_request(rq), Err(CoreError::Format)));
}

#[test]
fn apply_request_blank_passphrase_reads_as_none() {
    let mut store = new_store();
    let mut rq = base_request();
    rq.auth_type = "key".to_string();
    rq.private_key = Some("KEY".to_string());
    rq.passphrase = Some("".to_string());
    let info = store.apply_request(rq).expect("create");
    let full = store.get_server(&info.id).expect("stored");
    match full.auth {
        AuthMethod::PrivateKey { passphrase, .. } => assert!(passphrase.is_none()),
        _ => panic!("expected key auth"),
    }
}

#[test]
fn apply_request_proxy_needs_host_and_port() {
    let mut store = new_store();
    let mut rq = base_request();
    rq.proxy_enabled = true;
    rq.proxy_host = Some("p".to_string());
    rq.proxy_port = None;
    assert!(matches!(store.apply_request(rq), Err(CoreError::Format)));
}

#[test]
fn apply_request_socks5_label_selects_socks() {
    let mut store = new_store();
    let mut rq = base_request();
    rq.proxy_enabled = true;
    rq.proxy_host = Some("p".to_string());
    rq.proxy_port = Some(1080);
    rq.proxy_type = Some("socks5".to_string());
    let info = store.apply_request(rq).expect("create");
    let full = store.get_server(&info.id).expect("stored");
    assert_eq!(full.proxy.expect("proxy").proxy_type, ProxyType::Socks5);
}

#[test]
fn apply_request_update_of_unknown_id_is_not_found() {
    let mut store = new_store();
    let mut rq = base_request();
    rq.id = Some("missing".to_string());
    assert!(matches!(store.apply_request(rq), Err(CoreError::NotFound)));
}

#[test]
fn apply_request_updates_in_place() {
    let mut store = new_store();
    let info = store.apply_request(base_request()).expect("create");
    let mut rq = base_request();
    rq.id = Some(info.id.clone());
    rq.name = "renamed".to_string();
    let updated = store.apply_request(rq).expect("update");
    assert_eq!(updated.id, info.id);
    assert_eq!(updated.name, "renamed");
    assert_eq!(store.get_all_servers().len(), 1);
}

#[test]
fn terminal_size_default_is_80_by_24() {
    let size = TerminalSize::default();
    assert_eq!(size.cols, 80);
    assert_eq!(size.rows, 24);
}

#[test]
fn servers_file_is_under_the_data_dir() {
    let store = Storage::new(random_bytes(32), String::from("/var/app"));
    assert_eq!(store.servers_file(), "/var/app/servers.json");
}

#[test]
fn entries_round_trip_a_key_profile_without_passphrase() {
    let mut store = new_store();
    let mut p = profile("keyed");
    p.auth = AuthMethod::PrivateKey { key: "MATERIAL".to_string(), passphrase: None };
    store.save_server(p.clone());
    let entries = store.save_entries();
    let mut fresh = Storage::new(vec![0u8; 32], String::from("/tmp/other"));
    // same key is required: rebuild a store over the original's entries
    fresh.load_entries(vec![]);
    store.load_entries(entries);
    let back = store.get_server(&p.id).expect("still there");
    match back.auth {
        AuthMethod::PrivateKey { key, passphrase } => {
            assert_eq!(key, "MATERIAL");
            assert!(passphrase.is_none());
        }
        _ => panic!("expected key auth"),
    }
}

#[test]
fn import_keeps_creation_time_and_content() {
    let mut store = new_store();
    let mut p = profile("imported");
    p.created_at = 12345;
    p.notes = Some("carried over".to_string());
    let count = store.import_profiles(vec![p]);
    assert_eq!(count, 1);
    let all = store.get_all_servers();
    assert_eq!(all.len(), 1);
    assert_eq!(all[0].created_at, 12345);
    assert_eq!(all[0].notes.as_deref(), Some("carried over"));
}

#[test]
fn import_of_nothing_counts_zero_and_changes_nothing() {
    let mut store = new_store();
    store.save_server(profile("kept"));
    assert_eq!(store.import_profiles(vec![]), 0);
    assert_eq!(store.get_all_servers().len(), 1);
}

#[test]
fn apply_request_update_preserves_creation_time() {
    let mut store = new_store();
    let info = store.apply_request(base_request()).expect("create");
    let created = store.get_server(&info.id).expect("stored").created_at;
    let mut rq = base_request();
    rq.id = Some(info.id.clone());
    rq.host = "elsewhere".to_string();
    store.apply_request(rq).expect("update");
    let after = store.get_server(&info.id).expect("still stored");
    assert_eq!(after.created_at, created);
    assert_eq!(after.host, "elsewhere");
}

#[test]
fn import_leaves_existing_profiles_untouched() {
    let mut store = new_store();
    let kept = profile("resident");
    let kept_id = kept.id.clone();
    store.save_server(kept);
    let count = store.import_profiles(vec![profile("guest-one"), profile("guest-two")]);
    assert_eq!(count, 2);
    let all = store.get_all_servers();
    assert_eq!(all.len(), 3);
    let resident = store.get_server(&kept_id).expect("resident survives");
    assert_eq!(resident.name, "resident");
    let mut names: Vec<String> = all.iter().map(|c| c.name.clone()).collect();
    names.sort();
    assert_eq!(
        names,
        vec![
            "guest-one".to_string(),
            "guest-two".to_string(),
            "resident".to_string()
        ]
    );
}
