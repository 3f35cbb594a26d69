use antigravity_client::client::{
    browse_executable_command, browse_executable_result, close_action, download_outcome, file_dialog_error,
    get_platform_info,
    get_saved_token, http_method, install_client_update, menu_action, save_token,
    saved_token_file, server_response, tray_click_shows_window, update_setup_file_name,
    CloseAction, HttpMethod, MenuAction, WINDOWS_FILE_DIALOG_SCRIPT,
};
use antigravity_client::platform::{Arch, Platform};

#[test]
fn platform_labels() {
    assert_eq!(get_platform_info(Platform::MacOs, Arch::X86_64), "mac-intel");
    assert_eq!(get_platform_info(Platform::MacOs, Arch::Aarch64), "mac-arm");
    assert_eq!(get_platform_info(Platform::Linux, Arch::Other), "linux");
    assert_eq!(get_platform_info(Platform::Windows, Arch::X86_64), "windows");
}

#[test]
fn methods() {
    assert!(http_method("POST") == HttpMethod::Post);
    assert!(http_method("post") == HttpMethod::Post);
    assert!(http_method("po\u{17F}t") == HttpMethod::Post);
    assert!(http_method("GET") == HttpMethod::Get);
    assert!(http_method("put") == HttpMethod::Get);
}

#[test]
fn responses() {
    assert_eq!(server_response(200, "ok".to_string()), Ok("ok".to_string()));
    assert_eq!(server_response(299, "x".to_string()), Ok("x".to_string()));
    assert_eq!(server_response(404, "missing".to_string()), Err("HTTP 404 : missing".to_string()));
    assert_eq!(server_response(302, "".to_string()), Err("HTTP 302 : ".to_string()));
}

#[test]
fn file_dialog() {
    let c = browse_executable_command(Platform::Windows).unwrap();
    assert_eq!(c.program, "powershell");
    assert_eq!(c.args[3], WINDOWS_FILE_DIALOG_SCRIPT);
    assert!(WINDOWS_FILE_DIALOG_SCRIPT.contains("System.Windows.Forms.OpenFileDialog"));
    let c = browse_executable_command(Platform::MacOs).unwrap();
    assert_eq!(c.args[1], "POSIX path of (choose file with prompt \"Select Antigravity Executable\")");
    assert_eq!(browse_executable_command(Platform::Linux).err().unwrap(), "File dialog is only supported on Windows and macOS");
    assert_eq!(browse_executable_result(Platform::MacOs, true, " /x/y \n", ""), Ok(Some("/x/y".to_string())));
    assert_eq!(browse_executable_result(Platform::Windows, true, "\r\n", ""), Ok(None));
    assert_eq!(browse_executable_result(Platform::Windows, false, "", " bad \n"), Err("File dialog error: bad".to_string()));
    assert_eq!(browse_executable_result(Platform::MacOs, false, "", "cancel"), Ok(None));
}

#[test]
fn saved_token() {
    assert_eq!(save_token("  abc \n"), "abc");
    assert_eq!(get_saved_token(Some("\u{3000}tok\t")), "tok");
    assert_eq!(get_saved_token(Some("   ")), "");
    assert_eq!(get_saved_token(None), "");
    assert_eq!(saved_token_file().parts, vec![".antigravity-client".to_string(), "saved_token.txt".to_string()]);
}

#[test]
fn installer() {
    assert_eq!(update_setup_file_name(Platform::Linux), "AntigravityClient_setup.AppImage");
    let p = install_client_update(Platform::Windows, "C:\\t\\s.msi", "C:\\a.exe").unwrap();
    assert_eq!(p.command.program, "powershell");
    assert_eq!(p.command.args[4], "Start-Sleep -Seconds 2; Start-Process msiexec.exe -ArgumentList '/i', 'C:\\t\\s.msi', '/passive', '/norestart' -Wait; Start-Process 'C:\\a.exe'");
    assert_eq!(p.spawn_error_prefix, "Failed to spawn PowerShell installer script: ");
    let p = install_client_update(Platform::Linux, "/tmp/s", "/opt/c").unwrap();
    assert_eq!(p.command.args, vec!["-c".to_string(), "sleep 2; chmod +x '/tmp/s'; mv '/tmp/s' '/opt/c'; '/opt/c' &".to_string()]);
    let p = install_client_update(Platform::MacOs, "/tmp/s.dmg", "/Ap/C.app/Contents/MacOS/c").unwrap();
    assert_eq!(p.command.args[1], "sleep 2; hdiutil attach -nobrowse -mountpoint /tmp/ag_mount '/tmp/s.dmg'; cp -R '/tmp/ag_mount/C.app' '/Ap/'; hdiutil detach /tmp/ag_mount; xattr -cr '/Ap/C.app'; open -n '/Ap/C.app'");
    assert_eq!(install_client_update(Platform::MacOs, "s", "/MacOS/c").err().unwrap(), "Failed to find .app bundle path");
    assert_eq!(install_client_update(Platform::MacOs, "s", "/Contents/MacOS/c").err().unwrap(), "Failed to find install directory");
    assert_eq!(install_client_update(Platform::MacOs, "s", "../Contents/MacOS/c").err().unwrap(), "Failed to get .app bundle name");
}

#[test]
fn tray() {
    assert!(menu_action("quit") == MenuAction::Quit);
    assert!(menu_action("show") == MenuAction::ShowWindow);
    assert!(menu_action("other") == MenuAction::Nothing);
    assert!(tray_click_shows_window(true, true));
    assert!(!tray_click_shows_window(true, false));
    assert!(close_action(true) == CloseAction::HideToTray);
    assert!(close_action(false) == CloseAction::Exit);
}

#[test]
fn download_outcomes() {
    assert_eq!(download_outcome(Ok(200)), Ok(()));
    assert_eq!(download_outcome(Ok(299)), Ok(()));
    assert_eq!(
        download_outcome(Ok(404)).err().unwrap(),
        "Download request failed with status: 404 Not Found"
    );
    assert_eq!(
        download_outcome(Ok(302)).err().unwrap(),
        "Download request failed with status: 302 Found"
    );
    assert_eq!(
        download_outcome(Ok(599)).err().unwrap(),
        "Download request failed with status: 599 <unknown status code>"
    );
    assert_eq!(
        download_outcome(Err("dns error".to_string())).err().unwrap(),
        "Failed to send download request: dns error"
    );
}

#[test]
fn file_dialog_failure_text() {
    assert_eq!(file_dialog_error("no such file"), "Failed to run file dialog: no such file");
}
