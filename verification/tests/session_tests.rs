use bashlet::error::BashletError;
use bashlet::session::{
    format_duration, generate_session_id, parse_ttl, Session, SessionManager,
};
use bashlet::strconv::format_base36;

fn sample_session(name: Option<&str>, ttl: Option<u64>, now_ms: u64, counter: u32) -> Session {
    Session::new(
        name.map(|n| n.to_string()),
        vec![],
        vec![("PATH".to_string(), "/usr/bin".to_string())],
        "/workspace".to_string(),
        None,
        ttl,
        now_ms,
        counter,
    )
}

#[test]
fn test_parse_ttl() {
    assert_eq!(parse_ttl("30s").unwrap(), 30);
    assert_eq!(parse_ttl("5m").unwrap(), 300);
    assert_eq!(parse_ttl("1h").unwrap(), 3600);
    assert_eq!(parse_ttl("2d").unwrap(), 172800);
    assert_eq!(parse_ttl("60").unwrap(), 60);
}

#[test]
fn test_format_base36() {
    assert_eq!(format_base36(0), "0");
    assert_eq!(format_base36(10), "a");
    assert_eq!(format_base36(35), "z");
    assert_eq!(format_base36(36), "10");
}

#[test]
fn ttl_rejects_empty_and_garbage() {
    assert!(matches!(parse_ttl(""), Err(BashletError::Config(_))));
    assert!(matches!(parse_ttl("abc"), Err(BashletError::Config(_))));
    assert!(matches!(parse_ttl("   "), Err(BashletError::Config(_))));
    assert!(matches!(parse_ttl("12x"), Err(BashletError::Config(_))));
}

#[test]
fn ttl_accepts_case_and_whitespace() {
    assert_eq!(parse_ttl(" 30S ").unwrap(), 30);
    assert_eq!(parse_ttl("\t5M\n").unwrap(), 300);
}

#[test]
fn duration_formats_compactly() {
    assert_eq!(format_duration(45), "45s");
    assert_eq!(format_duration(300), "5m");
    assert_eq!(format_duration(7200), "2h");
    assert_eq!(format_duration(172800), "2d");
}

#[test]
fn session_id_is_base36_of_timestamp_and_counter() {
    // low 24 bits of the milliseconds, joined with the low 8 bits of
    // the counter
    let id = generate_session_id(0, 0);
    assert_eq!(id, "0");
    let id = generate_session_id(1, 1);
    // (1 << 8) | 1 == 257 == 7 * 36 + 5 -> "75"
    assert_eq!(id, "75");
}

#[test]
fn expiry_follows_ttl_exactly() {
    let s = sample_session(Some("x"), Some(10), 1_000_000, 0);
    // created at second 1000
    assert!(!s.is_expired(1000));
    assert!(!s.is_expired(1010));
    assert!(s.is_expired(1011));
    let unbounded = sample_session(Some("y"), None, 1_000_000, 1);
    assert!(!unbounded.is_expired(u64::MAX));
}

#[test]
fn touch_moves_last_activity_only() {
    let mut s = sample_session(Some("t"), Some(5), 1_000_000, 0);
    let id = s.id.clone();
    s.touch(2000);
    assert_eq!(s.last_activity, 2000);
    assert_eq!(s.created_at, 1000);
    assert_eq!(s.id, id);
    assert!(!s.is_expired(2005));
    assert!(s.is_expired(2006));
}

#[test]
fn record_json_round_trips() {
    let mut s = sample_session(Some("env\"with'specials\\and\nnewline"), Some(30), 123_456, 7);
    s.mounts.push(bashlet::session::SerializableMount {
        host_path: "/tmp/data".to_string(),
        guest_path: "/workspace".to_string(),
        readonly: true,
    });
    s.env_vars.push(("K".to_string(), "v=1".to_string()));
    let text = s.to_json();
    let back = Session::from_json(&text).expect("round trip");
    assert_eq!(back.id, s.id);
    assert_eq!(back.name, s.name);
    assert_eq!(back.workdir, s.workdir);
    assert_eq!(back.wasm_binary, s.wasm_binary);
    assert_eq!(back.created_at, s.created_at);
    assert_eq!(back.last_activity, s.last_activity);
    assert_eq!(back.ttl_seconds, s.ttl_seconds);
    assert_eq!(back.mounts.len(), s.mounts.len());
    assert_eq!(back.mounts[0].host_path, "/tmp/data");
    assert_eq!(back.mounts[0].guest_path, "/workspace");
    assert!(back.mounts[0].readonly);
    assert_eq!(back.env_vars, s.env_vars);
}

#[test]
fn record_json_matches_general_json_readers() {
    // the stored line is ordinary JSON: an independent parser reads
    // the same fields back
    let s = sample_session(Some("env1"), Some(30), 77_000, 3);
    let text = s.to_json();
    let v: serde_json::Value = serde_json::from_str(&text).expect("valid JSON");
    assert_eq!(v["id"].as_str().unwrap(), s.id);
    assert_eq!(v["name"].as_str().unwrap(), "env1");
    assert_eq!(v["ttl_seconds"].as_u64().unwrap(), 30);
    assert_eq!(v["created_at"].as_u64().unwrap(), 77);
    assert!(v["wasm_binary"].is_null());
}

#[test]
fn unparseable_record_is_json_error() {
    let mut m = SessionManager::new();
    m.files.push(("bad".to_string(), "not json".to_string()));
    assert!(matches!(m.get("bad", 0), Err(BashletError::Json(_))));
}

#[test]
fn create_and_list_shows_one_record() {
    let mut m = SessionManager::new();
    let s = sample_session(Some("env1"), Some(30), 50_000, 0);
    m.save(&s);
    let listed = m.list();
    assert_eq!(listed.len(), 1);
    assert_eq!(listed[0].name.as_deref(), Some("env1"));
    assert_eq!(listed[0].ttl_seconds, Some(30));
    assert!(!listed[0].is_expired(50));
}

#[test]
fn get_by_name_until_expiry_or_delete() {
    let mut m = SessionManager::new();
    let s = sample_session(Some("tmp"), Some(1), 10_000, 0);
    // created at second 10, ttl one second
    m.save(&s);
    let got = m.get("tmp", 11).expect("still alive");
    assert_eq!(got.id, s.id);
    // two seconds later the record is expired: the lookup reports it
    // and the file is gone afterward
    match m.get("tmp", 12) {
        Err(BashletError::SessionExpired { id }) => assert_eq!(id, "tmp"),
        other => panic!("expected SessionExpired, got {:?}", other.map(|s| s.id)),
    }
    assert!(m.files.is_empty());
    assert!(matches!(
        m.get("tmp", 12),
        Err(BashletError::SessionNotFound { .. })
    ));
}

#[test]
fn delete_by_id_and_by_name() {
    let mut m = SessionManager::new();
    let a = sample_session(Some("one"), None, 1_000, 0);
    let b = sample_session(Some("two"), None, 2_000, 1);
    m.save(&a);
    m.save(&b);
    assert!(m.delete(&a.id).is_ok());
    assert_eq!(m.files.len(), 1);
    assert!(m.delete("two").is_ok());
    assert!(m.files.is_empty());
    assert!(matches!(
        m.delete("two"),
        Err(BashletError::SessionNotFound { .. })
    ));
}

#[test]
fn cleanup_removes_only_expired() {
    let mut m = SessionManager::new();
    let dead = sample_session(Some("dead"), Some(1), 10_000, 0);
    let alive = sample_session(Some("alive"), Some(1000), 10_000, 1);
    m.save(&dead);
    m.save(&alive);
    let removed = m.cleanup_expired(20);
    assert_eq!(removed, 1);
    assert_eq!(m.files.len(), 1);
    assert!(m.get("alive", 20).is_ok());
}

#[test]
fn list_sorts_newest_first() {
    let mut m = SessionManager::new();
    let older = sample_session(Some("older"), None, 1_000_000, 0);
    let newer = sample_session(Some("newer"), None, 9_000_000, 1);
    m.save(&older);
    m.save(&newer);
    let listed = m.list();
    assert_eq!(listed.len(), 2);
    assert_eq!(listed[0].name.as_deref(), Some("newer"));
    assert_eq!(listed[1].name.as_deref(), Some("older"));
}

#[test]
fn touch_persists_new_activity_time() {
    let mut m = SessionManager::new();
    let s = sample_session(Some("busy"), Some(100), 30_000, 0);
    m.save(&s);
    m.touch("busy", 90).expect("touch");
    let got = m.get("busy", 90).expect("still there");
    assert_eq!(got.last_activity, 90);
}

#[test]
fn save_overwrites_same_id() {
    let mut m = SessionManager::new();
    let mut s = sample_session(Some("same"), None, 1_000, 0);
    m.save(&s);
    s.touch(99);
    m.save(&s);
    assert_eq!(m.files.len(), 1);
    assert_eq!(m.get("same", 0).unwrap().last_activity, 99);
}
