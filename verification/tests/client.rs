use nativechat::client::{
    collapse_computer_roster, egress_tunnel_env_flag, needs_refresh, skill_from_tape_timeout, ConnectedComputer,
    LocalExecMode, QueuedApproval, SkillSource,
};
use nativechat::json::Json;
use std::time::Duration;

#[test]
fn a_token_that_cannot_be_read_is_a_token_that_needs_replacing() {
    assert!(needs_refresh(None), "no readable token is not the same as plenty of time");
    assert!(needs_refresh(Some(0)), "expired to the second");
    assert!(needs_refresh(Some(-600)), "expired ten minutes ago");
    assert!(needs_refresh(Some(29)), "inside the slack");
    assert!(!needs_refresh(Some(31)));
    assert!(!needs_refresh(Some(900)));
}

#[test]
fn local_exec_mode_round_trips_grok_settings_words() {
    assert_eq!(LocalExecMode::from_stored("ask").as_stored(), "ask");
    assert_eq!(LocalExecMode::from_stored("bypass"), LocalExecMode::Always);
    assert_eq!(LocalExecMode::Always.as_stored(), "bypass");
    assert_eq!(LocalExecMode::from_stored("never"), LocalExecMode::Never);
    assert_eq!(LocalExecMode::from_stored(""), LocalExecMode::Never);
    assert_eq!(LocalExecMode::Always.label(), "Always allow");
    assert_eq!(LocalExecMode::Ask.label(), "Ask every time");
    assert_eq!(LocalExecMode::Never.label(), "Never allow");
}

fn computer(
    machine_id: &str,
    label: &str,
    this_machine: bool,
    online: bool,
    mode: LocalExecMode,
) -> ConnectedComputer {
    ConnectedComputer {
        machine_id: machine_id.into(),
        label: label.into(),
        mode,
        this_machine,
        online,
    }
}

#[test]
fn collapse_roster_keeps_one_row_for_duplicate_machine_id() {
    let collapsed = collapse_computer_roster(vec![
        computer("mac_1", "NativeChat on this Mac", false, false, LocalExecMode::Always),
        computer("mac_1", "NativeChat on this Mac", true, true, LocalExecMode::Never),
    ]);
    assert_eq!(collapsed.len(), 1);
    assert!(collapsed[0].this_machine);
    assert!(collapsed[0].online);
    assert_eq!(collapsed[0].mode, LocalExecMode::Never);
}

#[test]
fn collapse_roster_drops_stale_enrol_with_the_same_label() {
    let label = "NativeChat on uriahs-MacBook-Pro.local";
    let collapsed = collapse_computer_roster(vec![
        computer("mac_stale", label, false, false, LocalExecMode::Always),
        computer("mac_live", label, true, true, LocalExecMode::Never),
    ]);
    assert_eq!(collapsed.len(), 1);
    assert_eq!(collapsed[0].machine_id, "mac_live");
    assert!(collapsed[0].this_machine);
    assert_eq!(collapsed[0].mode, LocalExecMode::Never);
}

#[test]
fn collapse_roster_prefers_online_when_neither_is_this_machine() {
    let label = "NativeChat on uriahs-MacBook-Pro.local";
    let collapsed = collapse_computer_roster(vec![
        computer("mac_off", label, false, false, LocalExecMode::Always),
        computer("mac_on", label, false, true, LocalExecMode::Never),
    ]);
    assert_eq!(collapsed.len(), 1);
    assert_eq!(collapsed[0].machine_id, "mac_on");
    assert!(collapsed[0].online);
}

#[test]
fn collapse_roster_keeps_distinct_labels() {
    let collapsed = collapse_computer_roster(vec![
        computer("mac_a", "NativeChat on office.local", false, true, LocalExecMode::Ask),
        computer("mac_b", "NativeChat on home.local", false, true, LocalExecMode::Ask),
    ]);
    assert_eq!(collapsed.len(), 2);
}

#[test]
fn a_blank_or_stock_label_is_never_folded() {
    let collapsed = collapse_computer_roster(vec![
        computer("mac_a", "Computer", false, true, LocalExecMode::Ask),
        computer("mac_b", " computer ", true, true, LocalExecMode::Ask),
        computer("mac_c", "", false, false, LocalExecMode::Ask),
    ]);
    assert_eq!(collapsed.len(), 3);
}

#[test]
fn writing_a_lesson_is_given_longer_than_the_servers_own_bound() {
    assert!(
        skill_from_tape_timeout() > Duration::from_secs(60),
        "the server waits 60 seconds on the model; this must outlast it"
    );
}

#[test]
fn only_a_skill_from_somewhere_else_wears_a_chip() {
    assert_eq!(SkillSource::Authored.chip(), None);
    assert_eq!(SkillSource::Uploaded.chip(), Some("Uploaded"));
    assert_eq!(SkillSource::Taught.chip(), Some("Taught"));
    assert_eq!(SkillSource::Taught.word(), "taught");
}

fn queued(run_id: &str, thread_id: &str, call_id: &str, command: &str) -> QueuedApproval {
    QueuedApproval {
        run_id: run_id.into(),
        thread_id: thread_id.into(),
        call_id: call_id.into(),
        tool: "user_machine_shell".into(),
        arguments: Json::parse(&format!(r#"{{"command":"{command}"}}"#)).expect("test JSON"),
        reason: None,
        why: None,
    }
}

#[test]
fn latest_queued_approval_is_the_last_for_that_thread() {
    let queue = vec![
        queued("r1", "t1", "old", "ls"),
        queued("r2", "t2", "other", "pwd"),
        queued("r3", "t1", "new", "uname"),
    ];
    let conversations: Vec<String> = queue.iter().map(|item| item.thread_id.clone()).collect();
    let latest = QueuedApproval::latest_for_conversation(&queue, &conversations, "t1").unwrap();
    assert_eq!(latest.call_id, "new");
    assert!(QueuedApproval::latest_for_conversation(&queue, &conversations, "missing").is_none());
}

/// A card filed under another thread of the same conversation is still
/// that conversation's card.
#[test]
fn a_card_under_another_thread_of_the_conversation_counts() {
    let queue = vec![queued("r1", "t1", "first", "ls"), queued("r2", "mcp-cw_1", "door", "pwd")];
    let conversations = vec!["cw_1".to_string(), "cw_1".to_string()];
    let latest = QueuedApproval::latest_for_conversation(&queue, &conversations, "cw_1").unwrap();
    assert_eq!(latest.call_id, "door");
}

#[test]
fn only_a_one_turns_the_tunnel_on_from_the_environment() {
    assert!(egress_tunnel_env_flag(Some("1"), None));
    assert!(egress_tunnel_env_flag(None, Some("1")));
    assert!(!egress_tunnel_env_flag(Some("true"), Some("0")));
    assert!(!egress_tunnel_env_flag(None, None));
    assert!(!egress_tunnel_env_flag(Some(" 1"), None));
}
