use base64::Engine;
use protect_viewer::actions::{
    allowed_from_camera_page, authorize_action, parse_action, run_store_action, ActionOutcome,
    NativeAction,
};
use protect_viewer::connection::{connection_report, connection_target, unresolved_host_message};
use protect_viewer::displays::display_entry;
use protect_viewer::json::{JsonMap, JsonNumber, JsonValue};
use protect_viewer::secrets::{
    is_sealed_secret, needs_protection_secret, open_sealed, protect_secret, seal_secret,
    unprotect_secret,
};
use protect_viewer::store::{
    autostart_enabled, decrypt_profile_passwords, diagnostics, display_index,
    encrypt_profile_passwords, initial_page, is_configured_origin, launch_profile, pick_monitor,
    save_config, set_startup_profile, start_fullscreen, startup_settings,
    transform_profile_passwords, update_startup, StartPage,
};
use protect_viewer::text::{contains_text, decimal_string, ends_with, starts_with};
use protect_viewer::watchdog::{idle_step, renderer_stalled, system_idle_seconds, unix_timestamp};
use protect_viewer::weburl::{host_label, navigation_url, WebUrl};
use protect_viewer::watchdog::timestamp_from;

fn keep(bytes: &[u8]) -> Result<Vec<u8>, String> {
    Ok(bytes.to_vec())
}

fn mask(bytes: &[u8]) -> Result<Vec<u8>, String> {
    Ok(bytes.iter().rev().map(|b| b ^ 0x5a).collect())
}

fn refuse(_bytes: &[u8]) -> Result<Vec<u8>, String> {
    Err("protection refused".to_string())
}

fn text(s: &str) -> JsonValue {
    JsonValue::String(s.to_string())
}

fn object(members: Vec<(&str, JsonValue)>) -> JsonMap {
    let mut m = JsonMap::new();
    for (k, v) in members {
        m.insert(k.to_string(), v);
    }
    m
}

fn profile(id: &str, url: &str, password: &str) -> JsonValue {
    JsonValue::Object(object(vec![("id", text(id)), ("url", text(url)), ("password", text(password))]))
}

fn field_str<'a>(v: &'a JsonValue, key: &str) -> Option<&'a str> {
    v.get(key).and_then(|x| x.as_str())
}

fn profile_list(data: &JsonMap) -> &Vec<JsonValue> {
    data.get("profiles").and_then(|v| v.as_array()).unwrap()
}

fn page(scheme: &str, host: Option<&str>, port: Option<u16>, path: &str) -> WebUrl {
    WebUrl {
        href: String::new(),
        scheme: scheme.to_string(),
        host: host.map(|h| h.to_string()),
        port,
        path: path.to_string(),
    }
}

fn two_profile_store() -> JsonMap {
    object(vec![
        ("activeProfileId", text("b")),
        (
            "profiles",
            JsonValue::Array(vec![
                profile("a", "https://one.local/protect/dashboard", "pw-one"),
                profile("b", "https://two.local:7443/protect/liveview/1", "pw-two"),
            ]),
        ),
    ])
}

#[test]
fn member_written_is_read_back() {
    let mut m = JsonMap::new();
    m.insert("a".to_string(), JsonValue::Bool(true));
    m.insert("b".to_string(), text("x"));
    m.insert("a".to_string(), JsonValue::Bool(false));
    assert_eq!(m.get("a").and_then(|v| v.as_bool()), Some(false));
    assert_eq!(m.get("b").and_then(|v| v.as_str()), Some("x"));
    assert!(m.get("c").is_none());
    assert_eq!(m.entries.len(), 2);
}

#[test]
fn extend_overrides_member_by_member() {
    let mut m = object(vec![("a", JsonValue::Bool(true)), ("b", JsonValue::Bool(true))]);
    let other = object(vec![("b", JsonValue::Bool(false)), ("c", text("new"))]);
    m.extend_from(&other);
    assert_eq!(m.get("a").and_then(|v| v.as_bool()), Some(true));
    assert_eq!(m.get("b").and_then(|v| v.as_bool()), Some(false));
    assert_eq!(m.get("c").and_then(|v| v.as_str()), Some("new"));
}

#[test]
fn protect_encodes_utf8_bytes_in_base64() {
    assert_eq!(protect_secret("abc", &keep).unwrap(), "dpapi:YWJj");
    assert_eq!(protect_secret("abc", &mask).unwrap(), "dpapi:OTg7");
    assert_eq!(seal_secret(&[1, 2, 3]), "dpapi:AQID");
}

#[test]
fn protect_leaves_only_the_empty_secret() {
    assert_eq!(protect_secret("", &refuse).unwrap(), "");
    let once = protect_secret("camera", &mask).unwrap();
    assert!(is_sealed_secret(&once));
    assert!(!is_sealed_secret("camera"));
    assert!(needs_protection_secret("camera"));
    assert!(!needs_protection_secret(""));
    assert!(needs_protection_secret(&once));
}

#[test]
fn password_that_looks_sealed_is_protected_again() {
    let once = protect_secret("camera", &mask).unwrap();
    let twice = protect_secret(&once, &mask).unwrap();
    assert_ne!(twice, once);
    assert!(is_sealed_secret(&twice));
    assert_eq!(unprotect_secret(&twice, &mask).unwrap(), once);
    assert_eq!(protect_secret("dpapi:plain", &refuse), Err("protection refused".to_string()));
}

#[test]
fn sealed_secret_is_padded_base64() {
    for secret in ["a", "ab", "abc", "abcd", "pässwört-✓"] {
        let sealed = protect_secret(secret, &mask).unwrap();
        let payload = &sealed["dpapi:".len()..];
        assert_eq!(payload.len() % 4, 0);
        assert_eq!(payload.len(), 4 * ((secret.len() + 2) / 3));
        assert!(payload.chars().all(|c| c.is_ascii_alphanumeric() || c == '+' || c == '/' || c == '='));
    }
    assert_eq!(protect_secret("abcd", &keep).unwrap(), "dpapi:YWJjZA==");
}

#[test]
fn protector_errors_are_returned() {
    assert_eq!(protect_secret("camera", &refuse), Err("protection refused".to_string()));
    assert_eq!(unprotect_secret("dpapi:AQID", &refuse), Err("protection refused".to_string()));
    assert_eq!(unprotect_secret("plain", &refuse).unwrap(), "plain");
}

#[test]
fn unprotect_plain_text_is_unchanged() {
    assert_eq!(unprotect_secret("plain-password", &mask).unwrap(), "plain-password");
    assert_eq!(unprotect_secret("", &mask).unwrap(), "");
}

#[test]
fn unprotect_reports_invalid_base64() {
    assert!(unprotect_secret("dpapi:!!!", &keep).is_err());
    assert!(open_sealed("dpapi:!!!").is_err());
    let expected = base64::engine::general_purpose::STANDARD.decode("%%%%").unwrap_err().to_string();
    assert_eq!(unprotect_secret("dpapi:%%%%", &refuse), Err(expected.clone()));
    assert_eq!(open_sealed("dpapi:%%%%"), Err(expected));
}

#[test]
fn unprotect_reports_invalid_utf8() {
    let e = unprotect_secret("dpapi:/w==", &keep).unwrap_err();
    assert_eq!(e, String::from_utf8(vec![0xff]).unwrap_err().to_string());
    assert_eq!(open_sealed("dpapi:/w==").unwrap(), Some(vec![0xff]));
}

#[test]
fn open_sealed_returns_bytes_or_none() {
    assert_eq!(open_sealed("dpapi:AQID").unwrap(), Some(vec![1, 2, 3]));
    assert_eq!(open_sealed("plain").unwrap(), None);
}

#[test]
fn unicode_secret_round_trips() {
    let sealed = protect_secret("pässwört-✓", &mask).unwrap();
    assert_eq!(unprotect_secret(&sealed, &mask).unwrap(), "pässwört-✓");
}

#[test]
fn stored_passwords_round_trip() {
    let mut data = two_profile_store();
    encrypt_profile_passwords(&mut data, &keep, &Vec::new()).unwrap();
    let list = profile_list(&data);
    assert_eq!(field_str(&list[0], "password"), Some("dpapi:cHctb25l"));
    assert!(field_str(&list[1], "password").unwrap().starts_with("dpapi:"));
    assert!(decrypt_profile_passwords(&mut data, &keep).is_empty());
    let list = profile_list(&data);
    assert_eq!(field_str(&list[0], "password"), Some("pw-one"));
    assert_eq!(field_str(&list[1], "password"), Some("pw-two"));
    assert_eq!(field_str(&list[1], "url"), Some("https://two.local:7443/protect/liveview/1"));
}

#[test]
fn decrypt_stops_at_first_unreadable_password() {
    let mut data = object(vec![(
        "profiles",
        JsonValue::Array(vec![
            profile("a", "https://one.local", "dpapi:YWJj"),
            profile("b", "https://two.local", "dpapi:!!!"),
            profile("c", "https://three.local", "dpapi:YWJj"),
        ]),
    )]);
    let unread = decrypt_profile_passwords(&mut data, &keep);
    let list = profile_list(&data);
    assert_eq!(field_str(&list[0], "password"), Some("abc"));
    assert_eq!(field_str(&list[1], "password"), Some("dpapi:!!!"));
    assert_eq!(field_str(&list[2], "password"), Some("dpapi:YWJj"));
    assert_eq!(unread, vec!["dpapi:!!!".to_string(), "dpapi:YWJj".to_string()]);
}

#[test]
fn unread_lists_only_sealed_passwords_from_the_failure_on() {
    let mut data = object(vec![(
        "profiles",
        JsonValue::Array(vec![
            profile("a", "https://one.local", "dpapi:YWJj"),
            profile("b", "https://two.local", "dpapi:!!!"),
            profile("c", "https://three.local", "plain"),
            profile("d", "https://four.local", "dpapi:AQID"),
        ]),
    )]);
    let unread = decrypt_profile_passwords(&mut data, &keep);
    assert_eq!(unread, vec!["dpapi:!!!".to_string(), "dpapi:AQID".to_string()]);
    assert_eq!(field_str(&profile_list(&data)[2], "password"), Some("plain"));
}

#[test]
fn unread_passwords_are_written_back_and_the_rest_sealed() {
    let mut data = object(vec![(
        "profiles",
        JsonValue::Array(vec![
            profile("a", "https://one.local", "dpapi:YWJj"),
            profile("b", "https://two.local", "dpapi:!!!"),
            profile("c", "https://three.local", "plain"),
        ]),
    )]);
    let unread = decrypt_profile_passwords(&mut data, &keep);
    encrypt_profile_passwords(&mut data, &mask, &unread).unwrap();
    let list = profile_list(&data);
    assert_eq!(field_str(&list[0], "password"), Some("dpapi:OTg7"));
    assert_eq!(field_str(&list[1], "password"), Some("dpapi:!!!"));
    let third = field_str(&list[2], "password").unwrap();
    assert!(third.starts_with("dpapi:"));
    assert_eq!(unprotect_secret(third, &mask).unwrap(), "plain");
}

#[test]
fn plain_password_with_the_prefix_reaches_disk_sealed() {
    let mut data = object(vec![(
        "profiles",
        JsonValue::Array(vec![profile("a", "https://one.local", "dpapi:not-really-sealed")]),
    )]);
    encrypt_profile_passwords(&mut data, &mask, &Vec::new()).unwrap();
    let written = field_str(&profile_list(&data)[0], "password").unwrap().to_string();
    assert_ne!(written, "dpapi:not-really-sealed");
    assert!(written.starts_with("dpapi:"));
    assert!(decrypt_profile_passwords(&mut data, &mask).is_empty());
    assert_eq!(field_str(&profile_list(&data)[0], "password"), Some("dpapi:not-really-sealed"));
}

#[test]
fn transform_returns_first_failure() {
    let mut data = two_profile_store();
    let r = transform_profile_passwords(&mut data, |s: &str| {
        if s == "pw-two" { Err("refused".to_string()) } else { Ok(s.to_uppercase()) }
    });
    assert_eq!(r, Err("refused".to_string()));
    let list = profile_list(&data);
    assert_eq!(field_str(&list[0], "password"), Some("PW-ONE"));
    assert_eq!(field_str(&list[1], "password"), Some("pw-two"));
}

#[test]
fn transform_without_profiles_changes_nothing() {
    let mut data = object(vec![("profiles", text("not a list"))]);
    assert!(encrypt_profile_passwords(&mut data, &refuse, &Vec::new()).is_ok());
    assert!(decrypt_profile_passwords(&mut data, &refuse).is_empty());
    assert_eq!(data.get("profiles").and_then(|v| v.as_str()), Some("not a list"));
}

#[test]
fn save_config_merges_into_active_profile() {
    let mut data = two_profile_store();
    let config = JsonValue::Object(object(vec![("name", text("Back Room")), ("password", text("new"))]));
    save_config(&mut data, &config);
    let list = profile_list(&data);
    assert_eq!(list.len(), 2);
    assert_eq!(field_str(&list[1], "name"), Some("Back Room"));
    assert_eq!(field_str(&list[1], "password"), Some("new"));
    assert_eq!(field_str(&list[0], "password"), Some("pw-one"));
    assert!(list[0].get("name").is_none());
}

#[test]
fn save_config_writes_empty_profiles_when_missing() {
    let mut data = JsonMap::new();
    save_config(&mut data, &JsonValue::Object(JsonMap::new()));
    assert_eq!(profile_list(&data).len(), 0);
}

#[test]
fn startup_patch_is_read_back() {
    let mut data = JsonMap::new();
    let patch = JsonValue::Object(object(vec![("fullscreen", JsonValue::Bool(false))]));
    update_startup(&mut data, &patch);
    let settings = startup_settings(&data);
    assert_eq!(settings.get("fullscreen").and_then(|v| v.as_bool()), Some(false));
    assert_eq!(settings.get("autoReconnect").and_then(|v| v.as_bool()), Some(true));
    let saved = data.get("startupSettings").unwrap();
    assert_eq!(saved.get("startWithWindows").and_then(|v| v.as_bool()), Some(true));
}

#[test]
fn startup_profile_is_set_in_settings() {
    let mut data = JsonMap::new();
    set_startup_profile(&mut data, text("b"));
    let saved = data.get("startupSettings").unwrap();
    assert_eq!(field_str(saved, "profileId"), Some("b"));
    assert_eq!(saved.get("fullscreen").and_then(|v| v.as_bool()), Some(true));
}

#[test]
fn autostart_follows_saved_setting() {
    let mut data = JsonMap::new();
    assert!(autostart_enabled(&data));
    update_startup(&mut data, &JsonValue::Object(object(vec![("startWithWindows", JsonValue::Bool(false))])));
    assert!(!autostart_enabled(&data));
}

#[test]
fn window_setup_follows_settings() {
    let mut data = JsonMap::new();
    assert!(!start_fullscreen(&data));
    assert_eq!(display_index(&data), 0);
    data = two_profile_store();
    assert!(start_fullscreen(&data));
    update_startup(&mut data, &JsonValue::Object(object(vec![
        ("fullscreen", JsonValue::Bool(false)),
        ("displayIndex", JsonValue::Number(JsonNumber::PosInt(2))),
    ])));
    assert!(!start_fullscreen(&data));
    assert_eq!(display_index(&data), 2);
    assert_eq!(pick_monitor(3, 2), Some(2));
    assert_eq!(pick_monitor(2, 2), Some(0));
    assert_eq!(pick_monitor(0, 0), None);
}

#[test]
fn launch_profile_cases() {
    let mut data = two_profile_store();
    assert_eq!(launch_profile(&mut data, "a").unwrap(), "https://one.local/protect/dashboard");
    assert_eq!(data.get("activeProfileId").and_then(|v| v.as_str()), Some("a"));
    assert_eq!(launch_profile(&mut data, "zzz"), Err("profile not found".to_string()));
    assert_eq!(data.get("activeProfileId").and_then(|v| v.as_str()), Some("a"));
    let mut no_url = object(vec![(
        "profiles",
        JsonValue::Array(vec![JsonValue::Object(object(vec![("id", text("x"))]))]),
    )]);
    assert_eq!(launch_profile(&mut no_url, "x"), Err("profile URL missing".to_string()));
    assert_eq!(no_url.get("activeProfileId").and_then(|v| v.as_str()), Some("x"));
}

#[test]
fn initial_page_cases() {
    match initial_page(&JsonMap::new()) {
        StartPage::Local(p) => assert_eq!(p, "html/config.html"),
        other => panic!("unexpected {:?}", other),
    }
    match initial_page(&two_profile_store()) {
        StartPage::Local(p) => assert_eq!(p, "html/profile-select.html"),
        other => panic!("unexpected {:?}", other),
    }
    let mut data = two_profile_store();
    set_startup_profile(&mut data, text("b"));
    match initial_page(&data) {
        StartPage::External(u) => {
            assert_eq!(u.host.as_deref(), Some("two.local"));
            assert_eq!(u.port, Some(7443));
        },
        other => panic!("unexpected {:?}", other),
    }
}

#[test]
fn configured_origins() {
    let data = two_profile_store();
    assert!(is_configured_origin(&data, &page("http", Some("tauri.localhost"), Some(80), "/html/config.html")));
    assert!(is_configured_origin(&data, &page("https", Some("one.local"), Some(443), "/other")));
    assert!(is_configured_origin(&data, &page("https", Some("two.local"), Some(7443), "/")));
    assert!(!is_configured_origin(&data, &page("https", Some("two.local"), Some(443), "/")));
    assert!(!is_configured_origin(&data, &page("http", Some("one.local"), Some(80), "/")));
    assert!(!is_configured_origin(&data, &page("https", Some("evil.example"), Some(443), "/")));
    let cloud = object(vec![(
        "profiles",
        JsonValue::Array(vec![profile("c", "https://unifi.ui.com/consoles/x", "")]),
    )]);
    assert!(is_configured_origin(&cloud, &page("https", Some("account.ui.com"), Some(443), "/login")));
    assert!(is_configured_origin(&cloud, &page("https", Some("ui.com"), Some(443), "/")));
    assert!(!is_configured_origin(&cloud, &page("http", Some("account.ui.com"), Some(80), "/")));
    assert!(!is_configured_origin(&cloud, &page("https", Some("notui.com"), Some(443), "/")));
}

#[test]
fn authorization_rules() {
    let data = two_profile_store();
    let local = page("http", Some("tauri.localhost"), Some(80), "/html/config.html");
    let camera = page("https", Some("one.local"), Some(443), "/protect/dashboard");
    let stranger = page("https", Some("evil.example"), Some(443), "/");
    assert_eq!(
        authorize_action("configLoad", &stranger, &data).unwrap_err(),
        "This page is not an authorized UniFi console"
    );
    assert_eq!(
        authorize_action("profilesSave", &camera, &data).unwrap_err(),
        "Native action profilesSave is unavailable from the camera page"
    );
    assert_eq!(authorize_action("configLoad", &camera, &data).unwrap(), NativeAction::ConfigLoad);
    assert_eq!(authorize_action("profilesSave", &local, &data).unwrap(), NativeAction::ProfilesSave);
    assert_eq!(
        authorize_action("bogus", &local, &data).unwrap_err(),
        "unknown native action: bogus"
    );
    assert_eq!(parse_action("upv:heartbeat"), Some(NativeAction::Heartbeat));
    assert!(allowed_from_camera_page("restart"));
    assert!(!allowed_from_camera_page("reset"));
}

#[test]
fn camera_page_commands_keep_saved_state() {
    for name in ["configLoad", "startupSettingsGet", "upv:log", "upv:heartbeat", "toggleFullscreen", "switchNextProfile", "openConfig", "restart"] {
        let action = parse_action(name).unwrap();
        let mut data = two_profile_store();
        let _ = run_store_action(action, text("x"), &mut data);
        assert_eq!(data.get("activeProfileId").and_then(|v| v.as_str()), Some("b"));
        assert_eq!(profile_list(&data).len(), 2);
    }
}

#[test]
fn store_actions() {
    let mut data = two_profile_store();
    match run_store_action(NativeAction::ConfigLoad, JsonValue::Null, &mut data) {
        ActionOutcome::Reply(v) => assert_eq!(field_str(&v, "id"), Some("b")),
        other => panic!("unexpected {:?}", other),
    }
    match run_store_action(NativeAction::SwitchNextProfile, JsonValue::Null, &mut data) {
        ActionOutcome::Navigate(p) => assert_eq!(p, "profile-select.html"),
        other => panic!("unexpected {:?}", other),
    }
    match run_store_action(NativeAction::OpenExternal, text("file:///etc/passwd"), &mut data) {
        ActionOutcome::Failed(e) => assert_eq!(e, "only http(s) URLs are allowed"),
        other => panic!("unexpected {:?}", other),
    }
    match run_store_action(NativeAction::OpenExternal, text("https://ui.com/help"), &mut data) {
        ActionOutcome::OpenExternal(u) => assert_eq!(u, "https://ui.com/help"),
        other => panic!("unexpected {:?}", other),
    }
    match run_store_action(NativeAction::LaunchProfile, text("a"), &mut data) {
        ActionOutcome::Launch(u) => assert_eq!(u, "https://one.local/protect/dashboard"),
        other => panic!("unexpected {:?}", other),
    }
    match run_store_action(NativeAction::ViewerLog, JsonValue::Bool(true), &mut data) {
        ActionOutcome::Reply(JsonValue::Null) => {},
        other => panic!("unexpected {:?}", other),
    }
    match run_store_action(NativeAction::Reset, JsonValue::Null, &mut data) {
        ActionOutcome::Saved => {},
        other => panic!("unexpected {:?}", other),
    }
    assert!(data.entries.is_empty());
    match run_store_action(NativeAction::SwitchNextProfile, JsonValue::Null, &mut data) {
        ActionOutcome::Reply(JsonValue::Null) => {},
        other => panic!("unexpected {:?}", other),
    }
}

#[test]
fn connection_messages() {
    let err = connection_target("ftp://camera.local/protect/").unwrap_err();
    assert_eq!(err, "Only http:// and https:// addresses are supported");
    assert_eq!(connection_target("not a url").unwrap_err(), "Enter a valid http:// or https:// URL");
    let t = connection_target("https://camera.local/protect/liveview").unwrap();
    assert_eq!(t.port, 443);
    let report = connection_report(&t, true, 42);
    assert_eq!(
        report.get("message").and_then(|v| v.as_str()),
        Some("Network connection successful. Reached camera.local:443 in 42 ms. Save and launch to verify the account and live view.")
    );
    let t2 = connection_target("http://camera.local:8080/").unwrap();
    assert!(!t2.looks_like_liveview);
    let report = connection_report(&t2, false, 7);
    assert_eq!(
        report.get("message").and_then(|v| v.as_str()),
        Some("Could not reach camera.local:8080. Confirm this PC is on the camera network, the address is correct, and the UniFi console is powered on.")
    );
    assert_eq!(unresolved_host_message("nowhere"), "Could not resolve nowhere");
}

#[test]
fn idle_watchdog_restores_once_per_idle_period() {
    let mut restored = false;
    let mut restores = 0;
    for (idle, window) in [(10, true), (61, false), (62, true), (65, true), (70, true), (120, true)] {
        let d = idle_step(restored, idle, window);
        restored = d.restored;
        if d.restore {
            restores += 1;
        }
    }
    assert_eq!(restores, 1);
    let d = idle_step(true, 3, true);
    assert!(!d.restored && !d.restore);
    let d = idle_step(false, 60, true);
    assert!(d.restored && d.restore);
    let d = idle_step(false, 600, false);
    assert!(!d.restored && !d.restore);
}

#[test]
fn heartbeat_watchdog_threshold() {
    assert!(!renderer_stalled(true, true, 1120, 1000));
    assert!(renderer_stalled(true, true, 1121, 1000));
    assert!(!renderer_stalled(true, true, 5, 1000));
    assert!(!renderer_stalled(false, true, 5000, 1000));
    assert!(!renderer_stalled(true, false, 5000, 1000));
}

#[test]
fn idle_seconds_from_ticks() {
    assert_eq!(system_idle_seconds(None, 123456), 0);
    assert_eq!(system_idle_seconds(Some(1000), 62500), 61);
    assert_eq!(system_idle_seconds(Some(u32::MAX - 999), 1000), 2);
}

#[test]
fn display_entries() {
    let primary = display_entry(0, 0, 0, 1920, 1080, true);
    assert_eq!(field_str(&primary, "label"), Some("Primary (1920×1080)"));
    assert_eq!(field_str(&primary, "id"), Some("0:0"));
    let side = display_entry(1, -1280, 20, 1280, 1024, false);
    assert_eq!(field_str(&side, "label"), Some("Display 2 (1280×1024)"));
    assert_eq!(field_str(&side, "id"), Some("-1280:20"));
    assert!(matches!(side.get("x"), Some(JsonValue::Number(JsonNumber::NegInt(-1280)))));
}

#[test]
fn diagnostics_report() {
    let data = two_profile_store();
    let d = diagnostics(&data, "1.2.0", "C:/logs/viewer.log", true, false);
    assert_eq!(d.get("profiles").and_then(|v| v.as_u64()), Some(2));
    assert_eq!(field_str(&d, "version"), Some("1.2.0"));
    assert_eq!(d.get("autostartEnabled").and_then(|v| v.as_bool()), Some(false));
    assert_eq!(
        d.get("settings").and_then(|s| s.get("fullscreen")).and_then(|v| v.as_bool()),
        Some(true)
    );
}

#[test]
fn navigation_targets() {
    let local = navigation_url("config.html").unwrap();
    assert_eq!(local.href, "http://tauri.localhost/html/config.html");
    let web = navigation_url("https://two.local:7443/protect").unwrap();
    assert_eq!(web.host.as_deref(), Some("two.local"));
    assert_eq!(web.path, "/protect");
    assert!(navigation_url("https://").is_err());
}

#[test]
fn text_helpers() {
    assert_eq!(decimal_string(0), "0");
    assert_eq!(decimal_string(1234567), "1234567");
    assert!(starts_with("dpapi:abc", "dpapi:"));
    assert!(!starts_with("dp", "dpapi:"));
    assert!(contains_text("/x/protect/y", "/protect/"));
    assert!(!contains_text("/protection", "/protect/"));
    assert!(ends_with("a.ui.com", ".ui.com"));
    assert!(!ends_with("aui.com", ".ui.com"));
}

#[test]
fn clock_reads_unix_time() {
    assert!(unix_timestamp() > 1_600_000_000);
}

#[test]
fn saved_profiles_load_back() {
    let mut data = JsonMap::new();
    let list = JsonValue::Array(vec![profile("z", "https://z.local", "pw")]);
    match run_store_action(NativeAction::ProfilesSave, list, &mut data) {
        ActionOutcome::Saved => {},
        other => panic!("unexpected {:?}", other),
    }
    match run_store_action(NativeAction::ProfilesLoad, JsonValue::Null, &mut data) {
        ActionOutcome::Reply(JsonValue::Array(items)) => {
            assert_eq!(items.len(), 1);
            assert_eq!(field_str(&items[0], "id"), Some("z"));
        },
        other => panic!("unexpected {:?}", other),
    }
}

#[test]
fn launched_profile_becomes_active() {
    let mut data = two_profile_store();
    launch_profile(&mut data, "a").unwrap();
    let shown = protect_viewer::store::active_profile(&data).unwrap();
    assert_eq!(field_str(&shown, "id"), Some("a"));
}

#[test]
fn encrypt_stops_at_protector_failure() {
    let mut data = object(vec![(
        "profiles",
        JsonValue::Array(vec![
            profile("a", "https://one.local", ""),
            profile("b", "https://two.local", "secret"),
            profile("c", "https://three.local", "other"),
        ]),
    )]);
    assert_eq!(encrypt_profile_passwords(&mut data, &refuse, &Vec::new()), Err("protection refused".to_string()));
    let list = profile_list(&data);
    assert_eq!(field_str(&list[1], "password"), Some("secret"));
    assert_eq!(field_str(&list[2], "password"), Some("other"));
}

#[test]
fn masked_store_round_trips() {
    let mut data = two_profile_store();
    encrypt_profile_passwords(&mut data, &mask, &Vec::new()).unwrap();
    assert_ne!(field_str(&profile_list(&data)[0], "password"), Some("dpapi:cHctb25l"));
    assert!(decrypt_profile_passwords(&mut data, &mask).is_empty());
    assert_eq!(field_str(&profile_list(&data)[0], "password"), Some("pw-one"));
    assert_eq!(field_str(&profile_list(&data)[1], "password"), Some("pw-two"));
}

#[test]
fn timestamp_or_zero() {
    assert_eq!(timestamp_from(Some(1_700_000_000)), 1_700_000_000);
    assert_eq!(timestamp_from(None), 0);
}

#[test]
fn launch_host_labels() {
    assert_eq!(host_label("https://two.local:7443/protect"), "two.local");
    assert_eq!(host_label("not a url"), "invalid host");
}
