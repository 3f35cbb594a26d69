use antigravity_client::settings::{
    cleared_settings_text, clearing_step, get_ide_settings_path, proxy_settings_text, remember_setting,
    settings_from_text, settings_write_error, with_v1_suffix, ClearAction, SettingsDocument, SettingsMemory,
};
use antigravity_client::platform::{PathBase, Platform};

fn set_text(content: Option<&str>, url: &str) -> String {
    proxy_settings_text(content, url).unwrap().0
}

fn parse(s: &str) -> serde_json::Value {
    serde_json::from_str(s).unwrap()
}

#[test]
fn fresh_settings_get_proxy_and_telemetry_entries() {
    let text = set_text(None, "http://127.0.0.1:8047/v1");
    let expected = parse(
        r#"{"antigravity.proxyBaseUrl":"http://127.0.0.1:8047/v1","http.proxy":"http://127.0.0.1:8047","http.proxyStrictSSL":false,"telemetry.enableCrashReporter":false,"telemetry.enableTelemetry":false,"telemetry.telemetryLevel":"off"}"#,
    );
    assert_eq!(parse(&text), expected);
    assert_eq!(text, serde_json::to_string_pretty(&expected).unwrap());
}

#[test]
fn proxy_url_without_v1_gets_it_appended() {
    let text = set_text(Some("{}"), "https://gw.example");
    let v = parse(&text);
    assert_eq!(v["antigravity.proxyBaseUrl"], serde_json::Value::String("https://gw.example/v1".to_string()));
}

#[test]
fn existing_members_are_kept_and_overwritten() {
    let text = set_text(
        Some(r#"{"editor.fontSize": 14, "http.proxy": "http://other:1", "nested": {"a": [1, 2]}}"#),
        "http://h/v1",
    );
    let v = parse(&text);
    assert_eq!(v["editor.fontSize"], parse("14"));
    assert_eq!(v["nested"], parse(r#"{"a":[1,2]}"#));
    assert_eq!(v["http.proxy"], parse(r#""http://127.0.0.1:8047""#));
    assert_eq!(v.as_object().unwrap().len(), 8);
}

#[test]
fn invalid_json_is_replaced_by_an_object() {
    let text = set_text(Some("not json"), "http://h/v1");
    assert_eq!(parse(&text).as_object().unwrap().len(), 6);
}

#[test]
fn non_object_settings_are_written_back_unchanged() {
    let text = set_text(Some("[1, 2, 3]"), "http://h/v1");
    assert_eq!(text, serde_json::to_string_pretty(&parse("[1,2,3]")).unwrap());
}

#[test]
fn clearing_without_a_record_removes_only_proxy_routing() {
    let injected = set_text(Some(r#"{"keep": true}"#), "http://h/v1");
    let cleared = cleared_settings_text(&injected, None).unwrap();
    let v = parse(&cleared);
    let obj = v.as_object().unwrap();
    assert!(!obj.contains_key("antigravity.proxyBaseUrl"));
    assert!(!obj.contains_key("http.proxy"));
    assert!(!obj.contains_key("http.proxyStrictSSL"));
    assert_eq!(obj["keep"], serde_json::Value::Bool(true));
    assert_eq!(obj["telemetry.telemetryLevel"], parse(r#""off""#));
    assert_eq!(obj.len(), 4);
}

#[test]
fn clearing_with_the_record_restores_the_original() {
    let original = r#"{"http.proxy": "http://corp:3128", "keep": [1, 2], "telemetry.telemetryLevel": "all"}"#;
    let (injected, backup) = proxy_settings_text(Some(original), "http://h").unwrap();
    assert_eq!(parse(&injected)["http.proxy"], parse(r#""http://127.0.0.1:8047""#));
    let cleared = cleared_settings_text(&injected, Some(backup)).unwrap();
    assert_eq!(parse(&cleared), parse(original));
    assert_eq!(cleared, serde_json::to_string_pretty(&parse(original)).unwrap());
}

#[test]
fn restoring_a_fresh_file_removes_every_proxy_member() {
    let (injected, backup) = proxy_settings_text(None, "http://h").unwrap();
    let cleared = cleared_settings_text(&injected, Some(backup)).unwrap();
    assert_eq!(parse(&cleared), parse("{}"));
}

#[test]
fn clearing_twice_is_clearing_once() {
    let injected = set_text(None, "http://h");
    let once = cleared_settings_text(&injected, None).unwrap();
    let twice = cleared_settings_text(&once, None).unwrap();
    assert_eq!(once, twice);
}

#[test]
fn session_memory_keeps_the_first_backup_and_restores_once() {
    let original = r#"{"http.proxy": "http://corp:3128"}"#;
    let (first, b1) = proxy_settings_text(Some(original), "http://h").unwrap();
    let memory = remember_setting(SettingsMemory::Nothing, b1);
    let (second, b2) = proxy_settings_text(Some(&first), "http://other").unwrap();
    let memory = remember_setting(memory, b2);
    let (action, memory) = clearing_step(memory);
    let restored = match action {
        ClearAction::Restore(b) => cleared_settings_text(&second, Some(b)).unwrap(),
        _ => panic!("expected a restore"),
    };
    assert_eq!(parse(&restored), parse(original));
    let (action, memory) = clearing_step(memory);
    assert!(matches!(action, ClearAction::Leave));
    assert!(matches!(memory, SettingsMemory::Restored));
    let (action, _) = clearing_step(SettingsMemory::Nothing);
    assert!(matches!(action, ClearAction::RemoveRouting));
}

#[test]
fn write_failures_name_the_path() {
    assert_eq!(
        settings_write_error("/h/a \"b\"/settings.json", "denied"),
        "Failed to write to \"/h/a \\\"b\\\"/settings.json\": denied"
    );
}

#[test]
fn setting_twice_is_setting_once() {
    let once = set_text(Some(r#"{"x": 1}"#), "http://h");
    let twice = set_text(Some(&once), "http://h");
    assert_eq!(once, twice);
}

#[test]
fn url_with_and_without_v1_write_the_same_file() {
    let plain = set_text(Some(r#"{"x": 1}"#), "http://h");
    let suffixed = set_text(Some(r#"{"x": 1}"#), "http://h/v1");
    assert_eq!(plain, suffixed);
}

#[test]
fn setting_twice_on_a_non_object_is_setting_once() {
    let once = set_text(Some("[1, 2]"), "http://h");
    let twice = set_text(Some(&once), "http://h");
    assert_eq!(once, twice);
}

#[test]
fn clearing_unparsable_text_writes_nothing() {
    assert!(cleared_settings_text("{oops", None).is_none());
}

#[test]
fn clearing_a_non_object_writes_it_back() {
    assert_eq!(cleared_settings_text("5", None).unwrap(), "5");
    let (text, backup) = proxy_settings_text(Some("5"), "http://h").unwrap();
    assert_eq!(cleared_settings_text(&text, Some(backup)).unwrap(), "5");
}

#[test]
fn reading_text_classifies_documents() {
    assert!(matches!(settings_from_text(Some("{\"a\":1}")), SettingsDocument::Object(m) if m.len() == 1));
    assert!(matches!(settings_from_text(Some("true")), SettingsDocument::Other(_)));
    assert!(matches!(settings_from_text(None), SettingsDocument::Object(m) if m.is_empty()));
}

#[test]
fn v1_suffix() {
    assert_eq!(with_v1_suffix("http://a/v1"), "http://a/v1");
    assert_eq!(with_v1_suffix("http://a"), "http://a/v1");
    assert_eq!(with_v1_suffix(""), "/v1");
}

#[test]
fn settings_locations() {
    let (p, e) = get_ide_settings_path("Antigravity 2.0", Platform::MacOs);
    assert!(matches!(p.base, PathBase::Home));
    assert_eq!(p.parts, vec!["Library/Application Support/Antigravity/User/settings.json".to_string()]);
    assert_eq!(e, "Failed to get home directory");
    let (p, e) = get_ide_settings_path("Antigravity IDE", Platform::Windows);
    assert!(matches!(p.base, PathBase::Env(ref v) if v == "APPDATA"));
    assert_eq!(p.parts, vec!["Antigravity IDE\\User\\settings.json".to_string()]);
    assert_eq!(e, "Failed to get APPDATA environment variable");
    let (p, _) = get_ide_settings_path("Antigravity 2.0", Platform::Windows);
    assert_eq!(p.parts, vec!["antigravity\\User\\settings.json".to_string()]);
    let (p, _) = get_ide_settings_path("Antigravity CLI", Platform::Linux);
    assert_eq!(p.parts, vec![".config/Antigravity IDE/User/settings.json".to_string()]);
}
