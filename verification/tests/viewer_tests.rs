use protect_viewer::connection::{connection_report, connection_target};
use protect_viewer::json::{JsonMap, JsonValue};
use protect_viewer::secrets::{protect_secret, unprotect_secret};
use protect_viewer::store::{active_profile, selected_profile_url, startup_settings};
use protect_viewer::weburl::external_link;

fn text(s: &str) -> JsonValue {
    JsonValue::String(s.to_string())
}

fn object(members: Vec<(&str, JsonValue)>) -> JsonMap {
    let mut m = JsonMap::new();
    for (k, v) in members {
        m.insert(k.to_string(), v);
    }
    m
}

fn member_str<'a>(v: &'a JsonValue, key: &str) -> Option<&'a str> {
    v.get(key).and_then(|x| x.as_str())
}

#[test]
fn rejects_non_http_navigation() {
    assert!(external_link("not a url").is_err());
}

#[test]
fn profile_selection_prefers_active() {
    let data = object(vec![
        ("activeProfileId", text("b")),
        (
            "profiles",
            JsonValue::Array(vec![
                JsonValue::Object(object(vec![("id", text("a"))])),
                JsonValue::Object(object(vec![("id", text("b")), ("name", text("B"))])),
            ]),
        ),
    ]);
    let active = active_profile(&data).unwrap();
    assert_eq!(member_str(&active, "name"), Some("B"));
}

#[test]
fn kiosk_defaults_are_enabled() {
    let data = JsonMap::new();
    let settings = startup_settings(&data);
    assert_eq!(settings.get("fullscreen").and_then(|v| v.as_bool()), Some(true));
    assert_eq!(settings.get("startWithWindows").and_then(|v| v.as_bool()), Some(true));
    assert_eq!(settings.get("autoReconnect").and_then(|v| v.as_bool()), Some(true));
}

#[test]
fn startup_profile_wins_over_active_profile() {
    let data = object(vec![
        ("activeProfileId", text("a")),
        ("startupSettings", JsonValue::Object(object(vec![("profileId", text("b"))]))),
        (
            "profiles",
            JsonValue::Array(vec![
                JsonValue::Object(object(vec![
                    ("id", text("a")),
                    ("url", text("https://one.local/protect")),
                ])),
                JsonValue::Object(object(vec![
                    ("id", text("b")),
                    ("url", text("https://two.local/protect")),
                ])),
            ]),
        ),
    ]);
    assert_eq!(selected_profile_url(&data).as_deref(), Some("https://two.local/protect"));
}

/// A stand-in for the user-bound data protection of Windows, which this
/// platform lacks: it reverses the bytes and flips bits, and is its own inverse.
fn user_bound(bytes: &[u8]) -> Result<Vec<u8>, String> {
    Ok(bytes.iter().rev().map(|b| b ^ 0x5a).collect())
}

#[test]
fn windows_password_protection_round_trips() {
    let encrypted = protect_secret("store-camera-password", &user_bound).unwrap();
    assert!(encrypted.starts_with("dpapi:"));
    assert_ne!(encrypted, "store-camera-password");
    assert_eq!(unprotect_secret(&encrypted, &user_bound).unwrap(), "store-camera-password");
}

#[test]
fn connection_test_rejects_non_web_urls() {
    assert!(connection_target("file:///camera").is_err());
    assert!(connection_target("not a url").is_err());
}

#[test]
fn connection_test_returns_structured_failure() {
    let target = connection_target("http://127.0.0.1:9/protect/dashboard/test").unwrap();
    let result = connection_report(&target, false, 3);
    assert_eq!(result.get("ok").and_then(|v| v.as_bool()), Some(false));
    assert_eq!(member_str(&result, "host"), Some("127.0.0.1"));
    assert_eq!(result.get("port").and_then(|v| v.as_u64()), Some(9));
    assert_eq!(result.get("looksLikeLiveview").and_then(|v| v.as_bool()), Some(true));
    assert!(matches!(result.get("elapsedMs"), Some(JsonValue::Number(_))));
}
