use nativechat::visibility::{pin_shot_at_turn_end, pin_shot_now, ImageVisibility};

#[test]
fn parse_locked_visibility_names() {
    assert_eq!(ImageVisibility::parse("agent"), Some(ImageVisibility::Agent));
    assert_eq!(ImageVisibility::parse("transcript"), Some(ImageVisibility::Transcript));
    assert_eq!(ImageVisibility::parse("FAILURE"), Some(ImageVisibility::Failure));
    assert_eq!(ImageVisibility::parse("end"), Some(ImageVisibility::End));
    assert_eq!(ImageVisibility::parse("private"), None);
    assert_eq!(ImageVisibility::parse(""), None);
}

#[test]
fn agent_never_belongs_in_transcript() {
    assert!(!ImageVisibility::Agent.belongs_in_transcript());
    assert!(!pin_shot_now(Some(ImageVisibility::Agent), Some(true)));
    assert!(!pin_shot_now(Some(ImageVisibility::Agent), Some(false)));
    assert!(!pin_shot_at_turn_end(Some(ImageVisibility::Agent)));
}

#[test]
fn transcript_failure_end_pin_now_and_at_end() {
    for visibility in [
        ImageVisibility::Transcript,
        ImageVisibility::Failure,
        ImageVisibility::End,
    ] {
        assert!(visibility.belongs_in_transcript());
        assert!(pin_shot_now(Some(visibility), Some(true)));
        assert!(pin_shot_at_turn_end(Some(visibility)));
    }
}

#[test]
fn untagged_keeps_failure_and_turn_end_heuristic() {
    assert!(pin_shot_now(None, Some(false)));
    assert!(!pin_shot_now(None, Some(true)));
    assert!(!pin_shot_now(None, None));
    assert!(pin_shot_at_turn_end(None));
}
