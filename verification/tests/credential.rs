use nativechat::credential::{
    keep_local_save_offer, save_login_from_local, SaveLoginSpec, CREDENTIAL_OFFER_SAVE,
};
use nativechat::json::Json;

fn credential_json(text: &str) -> Json {
    credential_value(serde_json::from_str(text).expect("test JSON"))
}

fn credential_value(value: serde_json::Value) -> Json {
    match value {
        serde_json::Value::Null => Json::Null,
        serde_json::Value::Bool(b) => Json::Bool(b),
        serde_json::Value::Number(n) => Json::Number(nativechat::json::JsonNumber {
            unsigned: n.as_u64(),
            signed: n.as_i64(),
            text: n.to_string(),
        }),
        serde_json::Value::String(s) => Json::Str(s),
        serde_json::Value::Array(items) => Json::Array(items.into_iter().map(credential_value).collect()),
        serde_json::Value::Object(map) => {
            Json::Object(map.into_iter().map(|(k, v)| (k, credential_value(v))).collect())
        }
    }
}

#[test]
fn offer_save_drops_password_even_if_the_frame_smuggled_one() {
    let event = credential_json(
        r#"{
            "type": "CUSTOM",
            "name": "credential.offer_save",
            "value": {
                "origin": "google.com",
                "username": "ada@example.com",
                "formEntryId": "e_form",
                "password": "s3cret-pass"
            }
        }"#,
    );
    let spec = SaveLoginSpec::from_event(&event).expect("offer");
    assert_eq!(spec.origin, "google.com");
    assert_eq!(spec.username, "ada@example.com");
    assert_eq!(spec.form_entry_id, "e_form");
    let debug = format!("{spec:?}");
    assert!(!debug.contains("s3cret-pass"));
    assert!(
        !format!("{event:?}").is_empty(),
        "the fixture itself still has the smuggled field"
    );
}

#[test]
fn locked_event_name_is_exact() {
    assert_eq!(CREDENTIAL_OFFER_SAVE, "credential.offer_save");
}

#[test]
fn save_prompt_comes_from_local_values_not_a_server_password() {
    let spec = save_login_from_local("e_form", "google.com", "ada@example.com", false, true, false)
        .expect("offer");
    assert_eq!(spec.origin, "google.com");
    assert_eq!(spec.username, "ada@example.com");
    assert_eq!(spec.form_entry_id, "e_form");
    assert!(save_login_from_local("e_form", "google.com", "ada", true, true, false).is_none());
    assert!(save_login_from_local("e_form", "google.com", "ada", false, false, false).is_none());
    assert!(save_login_from_local("e_form", "google.com", "ada", false, true, true).is_none());
    assert!(!keep_local_save_offer(false, false));
    assert!(keep_local_save_offer(true, false));
    assert!(!keep_local_save_offer(true, true));
}

#[test]
fn the_save_card_ids_name_the_form() {
    let spec = save_login_from_local("e_form", "google.com", "ada", false, true, false).unwrap();
    assert_eq!(spec.card_id(), "save-login-e_form");
    assert_eq!(nativechat::credential::save_login_save_id("e_form"), "save-login-save-e_form");
    assert_eq!(nativechat::credential::save_login_skip_id("e_form"), "save-login-skip-e_form");
}

#[test]
fn an_offer_without_a_user_name_is_no_offer() {
    let event = credential_json(
        r#"{"type": "CUSTOM", "name": "credential.offer_save",
            "value": { "origin": "google.com", "username": "   " }}"#,
    );
    assert!(SaveLoginSpec::from_event(&event).is_none());
    let other = credential_json(
        r#"{"type": "CUSTOM", "name": "credential.other",
            "value": { "origin": "google.com", "username": "ada" }}"#,
    );
    assert!(SaveLoginSpec::from_event(&other).is_none());
}
