use audio_control::{aggregate_sessions, GroupId, RawSession, SessionGroup, SessionState};

fn raw(
    id: &str,
    pid: Option<u32>,
    path: Option<&str>,
    volume: Option<u32>,
    muted: bool,
    state: SessionState,
) -> RawSession {
    RawSession {
        process_id: pid,
        process_path: path.map(|p| p.to_string()),
        grouping_id: GroupId::new(id.to_string()),
        volume,
        muted,
        state,
        readable: true,
    }
}

fn find<'a>(groups: &'a [SessionGroup], id: &str) -> &'a SessionGroup {
    groups.iter().find(|g| g.id.as_str() == id).expect("group present")
}

#[test]
fn two_sessions_of_one_application_form_one_group() {
    let sessions = vec![
        raw("G1", Some(10), Some("C:\\Program Files\\Edge\\msedge.exe"), Some(4000), false, SessionState::Active),
        raw("G1", Some(11), Some("C:\\Program Files\\Edge\\msedge.exe"), Some(6000), true, SessionState::Inactive),
    ];
    let groups = aggregate_sessions(&sessions);
    assert_eq!(groups.len(), 1);
    let g = &groups[0];
    assert_eq!(g.id.as_str(), "G1");
    assert_eq!(g.volume_level, 5000);
    assert!(g.muted);
    assert_eq!(g.state, SessionState::Active);
    assert_eq!(g.display_name, "msedge");
}

#[test]
fn one_group_per_distinct_identity() {
    let sessions = vec![
        raw("A", Some(1), None, Some(1000), false, SessionState::Inactive),
        raw("B", Some(2), None, Some(2000), false, SessionState::Inactive),
        raw("A", Some(3), None, Some(3000), false, SessionState::Inactive),
        raw("C", Some(4), None, None, false, SessionState::Expired),
    ];
    let groups = aggregate_sessions(&sessions);
    assert_eq!(groups.len(), 3);
    assert!(groups.len() <= sessions.len());
    let mut ids: Vec<&str> = groups.iter().map(|g| g.id.as_str()).collect();
    ids.sort();
    assert_eq!(ids, vec!["A", "B", "C"]);
    assert_eq!(find(&groups, "A").volume_level, 2000);
    assert_eq!(find(&groups, "B").volume_level, 2000);
}

#[test]
fn muted_only_when_a_member_is_muted() {
    let sessions = vec![
        raw("A", Some(1), None, Some(1000), false, SessionState::Active),
        raw("A", Some(2), None, Some(1000), false, SessionState::Active),
        raw("B", Some(3), None, Some(1000), false, SessionState::Active),
        raw("B", Some(4), None, Some(1000), true, SessionState::Active),
    ];
    let groups = aggregate_sessions(&sessions);
    assert!(!find(&groups, "A").muted);
    assert!(find(&groups, "B").muted);
}

#[test]
fn level_is_the_mean_of_numeric_volumes() {
    let sessions = vec![
        raw("A", Some(1), None, Some(2500), false, SessionState::Active),
        raw("A", Some(2), None, None, false, SessionState::Active),
        raw("A", Some(3), None, Some(7500), false, SessionState::Active),
        raw("B", Some(4), None, Some(1), false, SessionState::Active),
        raw("B", Some(5), None, Some(2), false, SessionState::Active),
    ];
    let groups = aggregate_sessions(&sessions);
    assert_eq!(find(&groups, "A").volume_level, 5000);
    assert_eq!(find(&groups, "B").volume_level, 1);
}

#[test]
fn level_is_zero_without_numeric_volumes() {
    let sessions = vec![
        raw("A", Some(1), None, None, false, SessionState::Active),
        raw("A", Some(2), None, None, false, SessionState::Inactive),
    ];
    let groups = aggregate_sessions(&sessions);
    assert_eq!(groups.len(), 1);
    assert_eq!(groups[0].volume_level, 0);
}

#[test]
fn state_is_inactive_unless_a_member_is_active() {
    let sessions = vec![
        raw("A", Some(1), None, Some(100), false, SessionState::Expired),
        raw("A", Some(2), None, Some(100), false, SessionState::Inactive),
    ];
    let groups = aggregate_sessions(&sessions);
    assert_eq!(groups[0].state, SessionState::Inactive);
}

#[test]
fn no_sessions_give_no_groups() {
    let groups = aggregate_sessions(&Vec::new());
    assert!(groups.is_empty());
}

#[test]
fn group_without_a_process_id_is_dropped() {
    let sessions = vec![
        raw("A", None, None, Some(100), false, SessionState::Active),
        raw("A", Some(7), None, Some(100), false, SessionState::Active),
        raw("B", Some(8), None, Some(100), false, SessionState::Active),
    ];
    let groups = aggregate_sessions(&sessions);
    assert_eq!(groups.len(), 1);
    assert_eq!(groups[0].id.as_str(), "B");
}

#[test]
fn group_with_an_unreadable_session_is_dropped() {
    let mut unreadable = raw("A", Some(2), None, None, false, SessionState::Active);
    unreadable.readable = false;
    let sessions = vec![
        raw("A", Some(1), None, Some(100), false, SessionState::Active),
        unreadable,
        raw("B", Some(3), None, Some(100), false, SessionState::Active),
    ];
    let groups = aggregate_sessions(&sessions);
    assert_eq!(groups.len(), 1);
    assert_eq!(groups[0].id.as_str(), "B");
}

#[test]
fn display_name_falls_back_to_the_process_id() {
    let sessions = vec![
        raw("A", Some(4321), None, Some(100), false, SessionState::Active),
        raw("B", Some(7), Some("/usr/bin/firefox"), Some(100), false, SessionState::Active),
    ];
    let groups = aggregate_sessions(&sessions);
    assert_eq!(find(&groups, "A").display_name, "PID 4321");
    assert_eq!(find(&groups, "B").display_name, "firefox");
}

#[test]
fn each_session_without_shared_identity_is_its_own_group() {
    let sessions = vec![
        raw("A", Some(1), None, Some(100), false, SessionState::Active),
        raw("B", Some(2), None, Some(200), true, SessionState::Inactive),
    ];
    let groups = aggregate_sessions(&sessions);
    assert_eq!(groups.len(), 2);
    assert_eq!(find(&groups, "B").volume_level, 200);
    assert!(find(&groups, "B").muted);
}

#[test]
fn session_state_from_backend_code() {
    assert_eq!(SessionState::from_code(0), SessionState::Active);
    assert_eq!(SessionState::from_code(1), SessionState::Inactive);
    assert_eq!(SessionState::from_code(2), SessionState::Expired);
    assert_eq!(SessionState::from_code(-1), SessionState::Expired);
}

#[test]
fn session_group_fields_survive_the_wire() {
    let sessions = vec![raw("G1", Some(1), None, Some(4250), true, SessionState::Active)];
    let g = &aggregate_sessions(&sessions)[0];
    let mut object = serde_json::Map::new();
    object.insert("id".to_string(), serde_json::Value::String(g.id.as_str().to_string()));
    object.insert("volume_level".to_string(), serde_json::Value::from(g.volume_level));
    object.insert("muted".to_string(), serde_json::Value::Bool(g.muted));
    let text = serde_json::to_string(&serde_json::Value::Object(object)).unwrap();
    let back: serde_json::Value = serde_json::from_str(&text).unwrap();
    assert_eq!(back["id"].as_str(), Some("G1"));
    assert_eq!(back["volume_level"].as_u64(), Some(4250));
    assert_eq!(back["muted"].as_bool(), Some(true));
}
