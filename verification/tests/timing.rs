use nativechat::json::Json;
use nativechat::timing::{
    format_ms, is_timing_name, stamp_duration, timing_from_parts, within_longest_turn, RoundTiming,
    RoundedLeaf, ToolTiming, TurnTiming, LONGEST_TURN_MS, RUN_TIMING_CUSTOM, TURN_TIMELINE_CUSTOM,
};
use std::time::{Duration, SystemTime};

#[test]
fn duration_wording() {
    assert_eq!(format_ms(400), "400ms");
    assert_eq!(format_ms(12_000), "12s");
    assert_eq!(format_ms(6 * 60 * 1000 + 12 * 1000), "6m12s");
    assert_eq!(format_ms(6 * 60 * 1000), "6m");
    assert_eq!(format_ms(3600 * 1000 + 2 * 60 * 1000), "1h2m");
}

#[test]
fn the_peek_stamp_hides_a_subsecond_wait() {
    let start = SystemTime::UNIX_EPOCH;
    assert_eq!(stamp_duration(start, start + Duration::from_millis(400)), None);
    assert_eq!(stamp_duration(start, start + Duration::from_secs(12)), Some("12s".into()));
    assert_eq!(
        stamp_duration(start, start + Duration::from_secs(6 * 60 + 12)),
        Some("6m12s".into())
    );
}

#[test]
fn an_hour_with_no_minutes_is_just_hours() {
    assert_eq!(format_ms(2 * 3600 * 1000 + 30 * 1000), "2h");
    assert_eq!(format_ms(999), "999ms");
    assert_eq!(format_ms(1000), "1s");
    assert_eq!(format_ms(59_999), "59s");
}

#[test]
fn timing_names_are_the_two_locked_words() {
    assert!(is_timing_name("run-timing"));
    assert!(is_timing_name("turn-timeline"));
    assert!(!is_timing_name("Run-Timing"));
}

#[test]
fn debug_lines_for_the_documented_shape() {
    let timing = TurnTiming {
        v: 1,
        total_ms: Some(372123),
        model_ms: Some(12000),
        auto_review_ms: Some(8000),
        tool_wait_ms: None,
        tool_rounds: None,
        rounds: vec![RoundTiming { model_ms: 4000 }, RoundTiming { model_ms: 8000 }],
        tools: vec![ToolTiming { name: "profile.list".into(), ms: 350000 }],
    };
    assert_eq!(
        timing.debug_lines(),
        vec![
            "6m12s total".to_string(),
            "round 1  4s".to_string(),
            "round 2  8s".to_string(),
            "profile.list  5m50s".to_string(),
            "auto-review  8s".to_string(),
        ]
    );
}

#[test]
fn debug_lines_for_the_harness_shape() {
    let timing = TurnTiming {
        v: 1,
        total_ms: Some(15),
        model_ms: Some(12),
        auto_review_ms: Some(0),
        tool_wait_ms: Some(3),
        tool_rounds: Some(1),
        rounds: vec![RoundTiming { model_ms: 12 }],
        tools: vec![ToolTiming { name: "shell".into(), ms: 3 }],
    };
    assert_eq!(
        timing.debug_lines(),
        vec![
            "15ms total".to_string(),
            "model  12ms".to_string(),
            "shell  3ms".to_string(),
            "tool wait  3ms".to_string(),
        ]
    );
    let waited = TurnTiming { tool_rounds: Some(3), tools: vec![ToolTiming { name: String::new(), ms: 5 }], ..timing };
    assert_eq!(waited.debug_lines()[2], "tool  5ms");
    assert_eq!(waited.debug_lines()[3], "tool wait  3ms over 3 rounds");
}

/// A frame that times nothing, or says version 0, is no payload; with no
/// version named the current one is meant.
#[test]
fn a_frame_that_times_nothing_is_no_payload() {
    assert_eq!(timing_from_parts(None, None, None, None, None, Some(3), Vec::new(), Vec::new()), None);
    assert_eq!(timing_from_parts(Some(0), Some(10), None, None, None, None, Vec::new(), Vec::new()), None);
    let read = timing_from_parts(None, Some(372123), None, Some(0), None, None, Vec::new(), Vec::new())
        .expect("a total is a payload");
    assert_eq!(read.v, 1);
    assert_eq!(read.total_ms, Some(372123));
    assert_eq!(read.auto_review_ms, Some(0));
    let rounds = vec![RoundTiming { model_ms: 4000 }];
    assert_eq!(
        timing_from_parts(Some(2), None, None, None, None, None, rounds, Vec::new()).map(|t| t.v),
        Some(2)
    );
}

#[test]
fn a_duration_past_the_longest_turn_is_dropped() {
    assert_eq!(within_longest_turn(LONGEST_TURN_MS), Some(LONGEST_TURN_MS));
    assert_eq!(within_longest_turn(LONGEST_TURN_MS + 1), None);
    assert_eq!(within_longest_turn(0), Some(0));
}

fn json(text: &str) -> Json {
    Json::parse(text).expect("test JSON")
}

fn custom(name: &str, value: &str) -> Json {
    json(&format!(r#"{{"type":"CUSTOM","name":"{name}","value":{value}}}"#))
}

fn whole(f: f64) -> Option<u64> {
    if f.is_finite() && f >= 0.0 {
        Some(f.round() as u64)
    } else {
        None
    }
}

/// Every fraction and numeric text in a value, rounded, and in the JSON a
/// text holds.
fn collect_rounded(value: &Json, out: &mut Vec<RoundedLeaf>) {
    match value {
        Json::Number(n) if n.unsigned.is_none() => {
            if let Some(ms) = n.text.parse::<f64>().ok().and_then(whole) {
                out.push(RoundedLeaf { text: n.text.clone(), ms });
            }
        }
        Json::Str(s) => {
            if let Some(ms) = s.parse::<f64>().ok().and_then(whole) {
                out.push(RoundedLeaf { text: s.clone(), ms });
            }
            if let Some(inner) = Json::parse(s) {
                collect_rounded(&inner, out);
            }
        }
        Json::Array(items) => items.iter().for_each(|item| collect_rounded(item, out)),
        Json::Object(entries) => entries.iter().for_each(|(_, item)| collect_rounded(item, out)),
        _ => {}
    }
}

fn rounded(values: &[Json]) -> Vec<RoundedLeaf> {
    let mut out = Vec::new();
    values.iter().for_each(|value| collect_rounded(value, &mut out));
    out
}

fn event_timing(event: &Json) -> Option<TurnTiming> {
    TurnTiming::from_event(event, &rounded(std::slice::from_ref(event)))
}

fn value_timing(value: &Json) -> Option<TurnTiming> {
    TurnTiming::from_value(value, &rounded(std::slice::from_ref(value)))
}

#[test]
fn the_documented_v1_shape_reads() {
    let event = custom(
        RUN_TIMING_CUSTOM,
        r#"{"v":1,"total_ms":372123,"model_ms":12000,"auto_review_ms":8000,
            "rounds":[{"model_ms":4000},{"model_ms":8000}],
            "tools":[{"name":"profile.list","ms":350000}]}"#,
    );
    let timing = event_timing(&event).expect("v1");
    assert_eq!(timing.v, 1);
    assert_eq!(timing.total_ms, Some(372123));
    assert_eq!(timing.model_ms, Some(12000));
    assert_eq!(timing.auto_review_ms, Some(8000));
    assert_eq!(timing.tools[0].name, "profile.list");
    assert_eq!(timing.tools[0].ms, 350000);
    assert_eq!(timing.rounds.len(), 2);
    assert_eq!(
        timing.debug_lines(),
        vec![
            "6m12s total".to_string(),
            "round 1  4s".to_string(),
            "round 2  8s".to_string(),
            "profile.list  5m50s".to_string(),
            "auto-review  8s".to_string(),
        ]
    );
}

#[test]
fn the_frame_the_harness_sends_reads() {
    let event = json(
        r#"{"type":"CUSTOM","timestamp":7,"name":"run-timing","threadId":"t1","runId":"r1",
            "value":{"model_ms":[12],"tools":[{"name":"shell","ms":3}],"tool_wait_ms":3,
                     "auto_review_ms":0,"total_ms":15,"tool_rounds":1},
            "total_ms":15,"tool_rounds":1}"#,
    );
    let timing = event_timing(&event).expect("the harness frame");
    assert_eq!(timing.total_ms, Some(15));
    assert_eq!(timing.rounds, vec![RoundTiming { model_ms: 12 }]);
    assert_eq!(timing.tool_wait_ms, Some(3));
    assert_eq!(timing.tool_rounds, Some(1));
    assert_eq!(
        timing.debug_lines(),
        vec![
            "15ms total".to_string(),
            "model  12ms".to_string(),
            "shell  3ms".to_string(),
            "tool wait  3ms".to_string(),
        ]
    );
}

#[test]
fn two_model_rounds_from_the_harness_read_as_rounds() {
    let timing = value_timing(&json(
        r#"{"model_ms":[12,40],"tools":[],"tool_wait_ms":0,"auto_review_ms":0,"total_ms":60,"tool_rounds":1}"#,
    ))
    .expect("the harness value");
    assert_eq!(
        timing.debug_lines(),
        vec!["60ms total".to_string(), "round 1  12ms".to_string(), "round 2  40ms".to_string()]
    );
}

#[test]
fn an_absurd_duration_is_no_duration() {
    for total in [r#""1e400""#, "1e300", "18446744073709551615"] {
        let timing = value_timing(&json(&format!(r#"{{"total_ms":{total},"tool_wait_ms":3}}"#)))
            .expect("the tool wait still reads");
        assert_eq!(timing.total_ms, None, "{total}");
    }
}

#[test]
fn turn_timeline_and_camel_case_and_a_string_value_all_read() {
    let event = custom(
        TURN_TIMELINE_CUSTOM,
        r#""{\"v\":1,\"totalMs\":1500,\"modelMs\":900,\"tools\":[{\"tool\":\"Shell\",\"durationMs\":600}]}""#,
    );
    let timing = event_timing(&event).expect("alias");
    assert_eq!(timing.total_ms, Some(1500));
    assert_eq!(timing.model_ms, Some(900));
    assert_eq!(timing.tools[0].name, "Shell");
    assert_eq!(timing.tools[0].ms, 600);
}

#[test]
fn a_user_form_custom_is_not_timing() {
    let event = custom("user-form", r#"{"v":1,"total_ms":12,"formRequest":{"title":"Login"}}"#);
    assert!(event_timing(&event).is_none());
}

#[test]
fn absence_and_an_empty_object_are_silence() {
    assert!(event_timing(&json(r#"{"type":"CUSTOM","name":"run-timing","value":{}}"#)).is_none());
    assert!(TurnTiming::from_events(&[], &[]).is_none());
    assert!(event_timing(&json(r#"{"type":"RUN_FINISHED"}"#)).is_none());
}

#[test]
fn later_frames_win_and_unknown_keys_are_ignored() {
    let events = vec![
        custom(RUN_TIMING_CUSTOM, r#"{"v":1,"total_ms":10}"#),
        custom(RUN_TIMING_CUSTOM, r#"{"v":1,"total_ms":99,"future_field":true}"#),
    ];
    assert_eq!(TurnTiming::from_events(&events, &rounded(&events)).unwrap().total_ms, Some(99));
}

/// Fractions and numeric texts read by their rounded readings; without a
/// reading they are nothing.
#[test]
fn a_fraction_or_a_text_reads_by_its_rounding() {
    let value = json(r#"{"total_ms":1499.5,"model_ms":"12.4","tool_wait_ms":-3,"auto_review_ms":"soon"}"#);
    let timing = value_timing(&value).expect("a total");
    assert_eq!(timing.total_ms, Some(1500));
    assert_eq!(timing.model_ms, Some(12));
    assert_eq!(timing.tool_wait_ms, None);
    assert_eq!(timing.auto_review_ms, None);
    let bare = TurnTiming::from_value(&value, &[]);
    assert!(bare.is_none(), "with no readings nothing is timed");
}

/// The first alias that reads wins; tools may come as an object by name;
/// a version that does not fit is passed over for the next alias.
#[test]
fn aliases_and_shapes_of_a_frame() {
    let value = json(
        r#"{"v":4294967296,"version":3,"total_ms":"x","totalMs":20,"toolRounds":2,
            "tools":{"a":5,"b":"n/a"},"rounds":[7,{"ms":8},{"other":1}]}"#,
    );
    let timing = value_timing(&value).expect("read");
    assert_eq!(timing.v, 3);
    assert_eq!(timing.total_ms, Some(20));
    assert_eq!(timing.tool_rounds, Some(2));
    assert_eq!(timing.tools, vec![ToolTiming { name: "a".into(), ms: 5 }]);
    assert_eq!(timing.rounds, vec![RoundTiming { model_ms: 7 }, RoundTiming { model_ms: 8 }]);
    let zero = value_timing(&json(r#"{"v":0,"total_ms":5}"#));
    assert!(zero.is_none(), "version 0 is no payload");
}

/// A stored timing reads back; a text that is not JSON is none.
#[test]
fn a_stored_timing_reads_back() {
    let raw = r#"{"v":1,"total_ms":1500,"tools":[{"name":"profile.list","ms":900}]}"#;
    let back = TurnTiming::from_json(raw, &[]).expect("stored");
    assert_eq!(back.total_ms, Some(1500));
    assert_eq!(back.tools[0].name, "profile.list");
    assert!(TurnTiming::from_json("{", &[]).is_none());
}
