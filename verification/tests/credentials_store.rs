use antigravity_client::credentials::{
    clear_keyring_credentials, dbus_session_address, keyring_payload, keyring_store_commands,
    managed_session, secret_tool_failure, session_record, SecretToolStage, MANAGED_SESSION_EXPIRY,
};
use antigravity_client::platform::{Platform, ProcessCommand};

fn args(c: &ProcessCommand) -> Vec<&str> {
    c.args.iter().map(|s| s.as_str()).collect()
}

#[test]
fn managed_session_constants() {
    let s = managed_session("tok", "Antigravity IDE");
    assert_eq!(s.token, "tok");
    assert_eq!(s.refresh_token, "proxy_managed_refresh_token");
    assert_eq!(s.expiry, 4070908800);
    assert_eq!(MANAGED_SESSION_EXPIRY, 4070908800);
    assert_eq!(s.proxy_url, "http://127.0.0.1:8047/v1");
    let r = session_record(&s, 1234);
    assert_eq!(r.id, "Antigravity IDE");
    assert_eq!(r.ide_type, "Antigravity IDE");
    assert_eq!(r.created_at, 1234);
}

#[test]
fn keyring_payload_text() {
    let p = keyring_payload("acc\"ess", "ref", 4070908800).unwrap();
    assert_eq!(
        p,
        r#"{"auth_method":"consumer","token":{"access_token":"acc\"ess","expiry":"2099-01-01T00:00:00Z","refresh_token":"ref","token_type":"Bearer"}}"#
    );
}

#[test]
fn dbus_address() {
    assert_eq!(dbus_session_address(Some("unix:abstract=x"), Some("5")), "unix:abstract=x");
    assert_eq!(dbus_session_address(None, Some("501")), "unix:path=/run/user/501/bus");
    assert_eq!(dbus_session_address(None, None), "unix:path=/run/user/1000/bus");
}

#[test]
fn linux_store_uses_secret_tool_with_input() {
    let k = keyring_store_commands(Platform::Linux, "{}", "bus");
    assert_eq!(k.best_effort.len(), 1);
    assert_eq!(args(&k.best_effort[0]), vec!["clear", "service", "gemini", "username", "antigravity"]);
    let store = k.checked.unwrap();
    assert_eq!(store.program, "secret-tool");
    assert_eq!(args(&store), vec!["store", "--label=gemini", "service", "gemini", "username", "antigravity"]);
    assert_eq!(store.env, vec![("DBUS_SESSION_BUS_ADDRESS".to_string(), "bus".to_string())]);
    assert_eq!(store.stdin.as_deref(), Some("{}"));
}

#[test]
fn windows_and_macos_store() {
    let k = keyring_store_commands(Platform::Windows, "P", "");
    assert!(k.checked.is_none());
    assert_eq!(args(&k.best_effort[0]), vec!["/delete:gemini:antigravity"]);
    assert_eq!(args(&k.best_effort[1]), vec!["/generic:gemini:antigravity", "/user:antigravity", "/pass:P"]);
    let k = keyring_store_commands(Platform::MacOs, "P", "");
    assert_eq!(k.best_effort[1].program, "security");
    assert_eq!(args(&k.best_effort[1]), vec!["add-generic-password", "-s", "gemini", "-a", "antigravity", "-w", "P", "-U"]);
}

#[test]
fn clearing_credentials() {
    let c = clear_keyring_credentials(Platform::MacOs, "");
    assert_eq!(args(&c), vec!["delete-generic-password", "-s", "gemini", "-a", "antigravity"]);
    let c = clear_keyring_credentials(Platform::Linux, "b");
    assert_eq!(c.program, "secret-tool");
    assert_eq!(c.env.len(), 1);
    let c = clear_keyring_credentials(Platform::Windows, "");
    assert_eq!(c.program, "cmdkey.exe");
}

#[test]
fn secret_tool_failures() {
    assert_eq!(secret_tool_failure(SecretToolStage::Spawn, "x"), "Failed to spawn secret-tool: x");
    assert_eq!(secret_tool_failure(SecretToolStage::WriteInput, "y"), "Failed to write to secret-tool: y");
    assert_eq!(secret_tool_failure(SecretToolStage::Wait, "z"), "Failed to wait for secret-tool: z");
    assert_eq!(secret_tool_failure(SecretToolStage::ExitStatus, "ignored"), "secret-tool execution returned non-zero status");
}
