use nativechat::client::{
    thin_tape, RecipeBot, RecipeDetail, RecipeGrant, RecipeKind, RecipeParameter,
    RecipeParameterKind, RecipeRelation, RecipeRun, RecipeRunResult, RecipeScreen, RecipeShare,
    RecipeStep, RecipeSummary, RecipeTape, RecipeTapeEvent, RecipeValue, RecipeVersion,
    RecipeVersionBody,
};
use nativechat::json::Json;

fn recipe_json(text: &str) -> Json {
    Json::parse(text).expect("test JSON")
}

fn parameter(name: &str, kind: RecipeParameterKind, values: Option<Vec<&str>>) -> RecipeParameter {
    RecipeParameter {
        name: name.into(),
        description: String::new(),
        required: true,
        kind,
        default: None,
        values: values.map(|v| v.into_iter().map(str::to_string).collect()),
    }
}

fn version(number: u32, kind: &str, body: RecipeVersionBody) -> RecipeVersion {
    RecipeVersion {
        version: number,
        kind: kind.into(),
        note: None,
        created_by: None,
        created_at_ms: number as i64,
        parameters: Vec::new(),
        body,
    }
}

fn tape_event(kind: &str, at: i64) -> RecipeTapeEvent {
    RecipeTapeEvent { kind: kind.into(), at, ..RecipeTapeEvent::default() }
}

#[test]
fn recipe_step_round_trips_its_op_tag() {
    let steps = vec![
        RecipeStep::Click { x: 412, y: 88, button: Some(recipe_json(r#""left""#)) },
        RecipeStep::DoubleClick { x: 1, y: 2 },
        RecipeStep::Drag { x1: 1, y1: 2, x2: 3, y2: 4 },
        RecipeStep::Type { text: "example.com".into() },
        RecipeStep::Key { key: "Return".into() },
        RecipeStep::Scroll { x: 10, y: 20, dx: 0, dy: -120 },
        RecipeStep::Wait { ms: 500 },
    ];
    assert_eq!(steps[0].describe(), "click (412, 88)");
    assert_eq!(steps[1].describe(), "double-click (1, 2)");
    assert_eq!(steps[2].describe(), "drag (1, 2) to (3, 4)");
    assert_eq!(steps[3].describe(), "type \"example.com\"");
    assert_eq!(steps[4].describe(), "key Return");
    assert_eq!(steps[5].describe(), "scroll (10, 20) by (0, -120)");
    assert_eq!(steps[6].describe(), "wait 500 ms");
    let right = RecipeStep::Click { x: 1, y: 2, button: Some(recipe_json(r#""right""#)) };
    assert_eq!(right.describe(), "click (1, 2) button right");
}

/// A button sent as a number names itself unless it is the left one, 0.
#[test]
fn a_numbered_button_is_named_unless_it_is_the_left() {
    let left = RecipeStep::Click { x: 5, y: 6, button: Some(recipe_json("0")) };
    assert_eq!(left.describe(), "click (5, 6)");
    let middle = RecipeStep::Click { x: 5, y: 6, button: Some(recipe_json("1")) };
    assert_eq!(middle.describe(), "click (5, 6) button 1");
    let typed = RecipeStep::Type { text: "say \"hi\"".into() };
    assert_eq!(typed.describe(), "type \"say \\\"hi\\\"\"");
}

#[test]
fn a_version_declares_what_it_needs_told_whichever_half_of_the_row_it_is_on() {
    let mut beside = version(2, "filtered", RecipeVersionBody::default());
    beside.parameters = vec![parameter("search_term", RecipeParameterKind::Text, None)];
    assert_eq!(beside.declared().len(), 1);
    assert_eq!(beside.declared()[0].name, "search_term");
    let inside = version(
        2,
        "filtered",
        RecipeVersionBody {
            parameters: vec![parameter("search_term", RecipeParameterKind::Text, None)],
            ..RecipeVersionBody::default()
        },
    );
    assert_eq!(inside.declared(), beside.declared());
    let older = version(
        1,
        "raw",
        RecipeVersionBody { events: Some(RecipeTape::Count(3)), ..RecipeVersionBody::default() },
    );
    assert!(older.declared().is_empty());
    assert_eq!(older.event_count(), 3);
}

#[test]
fn a_value_is_checked_against_the_kind_and_sent_as_that_kind() {
    let number = parameter("count", RecipeParameterKind::Number, None);
    assert_eq!(number.reject("12"), None);
    assert_eq!(number.reject("-1.5"), None);
    assert_eq!(
        number.reject("ten").as_deref(),
        Some("count takes a number, and \"ten\" is not one.")
    );
    assert_eq!(number.encode("12"), RecipeValue::Whole(12));
    assert_eq!(number.encode("1.5"), RecipeValue::Decimal("1.5".into()));
    let flag = parameter("shorts", RecipeParameterKind::Boolean, None);
    assert_eq!(flag.reject("yes"), None);
    assert_eq!(flag.reject("maybe").as_deref(), Some("shorts is a yes or a no, so pick one."));
    assert_eq!(flag.encode("yes"), RecipeValue::Flag(true));
    assert_eq!(flag.encode("false"), RecipeValue::Flag(false));
    let lang = parameter("lang", RecipeParameterKind::Text, Some(vec!["en", "es"]));
    assert_eq!(lang.reject("es"), None);
    assert_eq!(
        lang.reject("fr").as_deref(),
        Some("lang takes one of: en, es."),
        "a refusal that does not say what is allowed leaves the person guessing"
    );
    assert_eq!(
        lang.encode("ES"),
        RecipeValue::Words("es".into()),
        "case is not what they are choosing between, so the declared spelling goes"
    );
    let free = parameter("search_term", RecipeParameterKind::Text, None);
    assert_eq!(free.reject("anything at all"), None);
    assert_eq!(free.encode("mundo"), RecipeValue::Words("mundo".into()));
}

/// Whole numbers read the way `i64::from_str` reads them, signs and
/// bounds included; what does not fit falls back to the decimal reading.
#[test]
fn a_number_is_whole_only_when_it_fits() {
    let number = parameter("count", RecipeParameterKind::Number, None);
    assert_eq!(number.encode("+7"), RecipeValue::Whole(7));
    assert_eq!(number.encode("-9223372036854775808"), RecipeValue::Whole(i64::MIN));
    assert_eq!(number.encode("9223372036854775807"), RecipeValue::Whole(i64::MAX));
    assert_eq!(
        number.encode("9223372036854775808"),
        RecipeValue::Decimal("9223372036854775808".into())
    );
    assert_eq!(number.encode("1e3"), RecipeValue::Decimal("1e3".into()));
    assert_eq!(number.encode("ten"), RecipeValue::Words("ten".into()));
    assert_eq!(number.encode("-"), RecipeValue::Words("-".into()));
    let flag = parameter("shorts", RecipeParameterKind::Boolean, None);
    assert_eq!(flag.encode("perhaps"), RecipeValue::Words("perhaps".into()));
}

#[test]
fn a_raw_version_reads_the_tape_the_server_sends() {
    let sent = version(
        1,
        "raw",
        RecipeVersionBody {
            events: Some(RecipeTape::Count(3100)),
            truncated: true,
            tape: vec![tape_event("down", 1000), tape_event("keydown", 1900)],
            ..RecipeVersionBody::default()
        },
    );
    assert_eq!(sent.event_count(), 3100, "the count is the whole tape's");
    assert_eq!(sent.tape_events().map(<[_]>::len), Some(2));
    assert!(sent.tape_truncated());
    let inline = version(
        1,
        "raw",
        RecipeVersionBody {
            events: Some(RecipeTape::Events(vec![tape_event("up", 5)])),
            ..RecipeVersionBody::default()
        },
    );
    assert_eq!(inline.event_count(), 1);
    assert_eq!(inline.tape_events().map(<[_]>::len), Some(1));
    assert!(!inline.tape_truncated());
    let counted = version(
        1,
        "raw",
        RecipeVersionBody { events: Some(RecipeTape::Count(14)), ..RecipeVersionBody::default() },
    );
    assert_eq!(counted.event_count(), 14);
    assert!(counted.tape_events().is_none());
}

#[test]
fn a_raw_version_takes_the_tape_or_its_count() {
    let mut key = tape_event("keydown", 2200);
    key.key = "e".into();
    key.code = "KeyE".into();
    let mut down = tape_event("down", 1000);
    down.button = 1;
    let with_tape = version(
        1,
        "raw",
        RecipeVersionBody {
            events: Some(RecipeTape::Events(vec![down, key])),
            ..RecipeVersionBody::default()
        },
    );
    assert_eq!(with_tape.event_count(), 2);
    let events = with_tape.tape_events().expect("the tape itself");
    assert_eq!(events[0].button, 1);
    assert_eq!(events[1].key, "e");
    assert_eq!(events[1].at, 2200);
    let odd = version(
        1,
        "raw",
        RecipeVersionBody {
            events: Some(RecipeTape::Other(recipe_json(r#"{"total": 14}"#))),
            ..RecipeVersionBody::default()
        },
    );
    assert_eq!(odd.event_count(), 0);
    assert!(odd.tape_events().is_none());
}

fn summary() -> RecipeSummary {
    RecipeSummary {
        id: "rcp_1".into(),
        owner_id: "acc_1".into(),
        org_id: None,
        name: "Mail".into(),
        description: String::new(),
        screen: RecipeScreen::default(),
        created_at_ms: 0,
        updated_at_ms: 0,
        deleted_at_ms: None,
        latest_version: 2,
        relation: RecipeRelation::Mine,
        share_state: None,
        kind: RecipeKind::Recipe,
        parameters: Vec::new(),
    }
}

#[test]
fn recipe_detail_reads_versions_shares_grants_runs_and_bots() {
    let detail = RecipeDetail {
        recipe: summary(),
        versions: vec![
            version(
                1,
                "raw",
                RecipeVersionBody { events: Some(RecipeTape::Count(312)), ..RecipeVersionBody::default() },
            ),
            version(
                2,
                "filtered",
                RecipeVersionBody {
                    steps: vec![
                        RecipeStep::Click { x: 1, y: 2, button: Some(recipe_json(r#""left""#)) },
                        RecipeStep::Wait { ms: 200 },
                    ],
                    stop_on_error: Some(true),
                    ..RecipeVersionBody::default()
                },
            ),
        ],
        shares: vec![RecipeShare {
            recipe_id: "rcp_1".into(),
            scope: "org".into(),
            scope_id: "org_1".into(),
            granted_by: Some("acc_1".into()),
            granted_at_ms: 3,
            accepted_at_ms: None,
            declined_at_ms: None,
        }],
        grants: vec![RecipeGrant {
            recipe_id: "rcp_1".into(),
            coworker_id: "cw_1".into(),
            granted_by: Some("acc_1".into()),
            granted_at_ms: 4,
        }],
        runs: vec![RecipeRun {
            id: "rrun_1".into(),
            recipe_id: "rcp_1".into(),
            version: 2,
            coworker_id: "cw_1".into(),
            ok: false,
            stopped_at: Some(1),
            receipt: recipe_json(
                r#"{"ok": false, "ran": 1, "stopped_at": 1, "steps": [{"ok": true}, {"ok": false, "error": "nothing at (5, 5)"}]}"#,
            ),
            at_ms: 5,
        }],
        my_bots: vec![RecipeBot { id: "cw_1".into(), name: "Bob".into() }],
    };
    assert_eq!(detail.versions[0].event_count(), 312);
    assert!(!detail.versions[0].is_runnable());
    assert_eq!(detail.runnable_version().map(|v| v.version), Some(2));
    assert_eq!(detail.versions[1].body.steps.len(), 2);
    assert_eq!(detail.shares[0].state_label(), "pending");
    assert!(detail.is_granted("cw_1"));
    assert!(!detail.is_granted("cw_2"));
    assert_eq!(detail.bot_name("cw_1"), "Bob");
    assert_eq!(detail.bot_name("cw_2"), "cw_2");
    assert_eq!(detail.runs[0].stopped_at, Some(1));
    assert_eq!(detail.runs[0].receipt_steps(), vec![(true, None), (false, Some("nothing at (5, 5)".to_string()))]);
    assert_eq!(
        detail.runs[0].error().as_deref(),
        Some("nothing at (5, 5)"),
        "a run's reason is the first step that gave one"
    );
    assert!(detail.versions[0].tape_events().is_none(), "a count is not a tape");
}

/// Of two runnable versions with one number the later is played, and the
/// tape is never.
#[test]
fn the_newest_runnable_version_is_played() {
    let mut detail = RecipeDetail {
        recipe: summary(),
        versions: vec![
            version(3, "edited", RecipeVersionBody::default()),
            version(9, "raw", RecipeVersionBody::default()),
            version(3, "filtered", RecipeVersionBody::default()),
        ],
        shares: Vec::new(),
        grants: Vec::new(),
        runs: Vec::new(),
        my_bots: vec![RecipeBot { id: "cw_1".into(), name: "   ".into() }],
    };
    assert_eq!(detail.runnable_version().map(|v| v.kind.as_str()), Some("filtered"));
    assert_eq!(detail.bot_name("cw_1"), "cw_1", "a blank name is no name");
    detail.versions.retain(|v| v.kind == "raw");
    assert!(detail.runnable_version().is_none());
    assert!(detail.versions[0].is_edited() == false);
    assert!(version(3, "filtered", RecipeVersionBody::default()).is_edited());
    assert!(version(1, "edited", RecipeVersionBody::default()).is_edited());
    assert!(!version(2, "filtered", RecipeVersionBody::default()).is_edited());
}

/// A run with no step error takes the receipt's own, when it says one.
#[test]
fn a_run_without_step_errors_reads_the_receipt_error() {
    let run = RecipeRun {
        id: "rrun_2".into(),
        recipe_id: "rcp_1".into(),
        version: 2,
        coworker_id: "cw_1".into(),
        ok: false,
        stopped_at: None,
        receipt: recipe_json(r#"{"steps": [{"ok": true, "error": "  "}], "error": "box asleep"}"#),
        at_ms: 0,
    };
    assert_eq!(run.receipt_steps(), vec![(true, None)]);
    assert_eq!(run.error().as_deref(), Some("box asleep"));
    let quiet = RecipeRun { receipt: recipe_json(r#"{"error": " "}"#), ..run };
    assert_eq!(quiet.error(), None);
    assert!(quiet.receipt_steps().is_empty());
}

#[test]
fn a_run_result_counts_what_ran() {
    let mut result = RecipeRunResult {
        version: 2,
        ok: true,
        ran: Some(recipe_json("4")),
        stopped_at: None,
        error: None,
        image: None,
    };
    assert_eq!(result.ran_count(), Some(4));
    result.ran = Some(recipe_json(r#"[{"ok": true}, {"ok": true}]"#));
    assert_eq!(result.ran_count(), Some(2));
    result.ran = Some(recipe_json(r#""three""#));
    assert_eq!(result.ran_count(), None);
    result.ran = None;
    assert_eq!(result.ran_count(), None);
}

#[test]
fn thin_tape_keeps_one_move_per_forty_ms_and_every_other_event() {
    let event = |kind: &str, at: i64| {
        recipe_json(&format!(r#"{{"kind": "{kind}", "x": 1, "y": 1, "at": {at}}}"#))
    };
    let tape = vec![
        event("down", 0),
        event("move", 5),
        event("move", 20),
        event("move", 44),
        event("move", 45),
        event("up", 46),
        event("move", 90),
        event("keydown", 91),
    ];
    let thin = thin_tape(&tape);
    let kept: Vec<(&str, i64)> = thin
        .iter()
        .map(|e| (e.str_at("kind").unwrap(), e.get("at").and_then(|a| a.as_i64()).unwrap()))
        .collect();
    assert_eq!(
        kept,
        vec![("down", 0), ("move", 5), ("move", 45), ("up", 46), ("move", 90), ("keydown", 91)]
    );
    assert!(thin_tape(&[]).is_empty());
}
