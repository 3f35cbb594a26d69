//! The desktop client's own chores: platform label, server requests, the
//! executable picker, the saved token, self-update and the tray menu.

use vstd::prelude::*;
use crate::platform::{
    Platform, Arch, ProcessCommand, CommandView, command_view, simple_command, PathBase, PathSpec,
    PathView, PathBaseView, path_spec,
};
use crate::text::{decimal, trimmed, trim, append_decimal, str_eq};
use crate::unix_path::{unix_parent, unix_file_name, path_parent, path_file_name};

verus! {

/// Label of the platform the client runs on, as the update server knows it.
pub open spec fn platform_label(platform: Platform, arch: Arch) -> Seq<char> {
    match platform {
        Platform::MacOs => if arch == Arch::X86_64 { "mac-intel"@ } else { "mac-arm"@ },
        Platform::Linux => "linux"@,
        Platform::Windows => "windows"@,
    }
}

/// The platform label; macOS builds exist for Intel and Apple silicon only.
pub fn get_platform_info(platform: Platform, arch: Arch) -> (res: String)
    requires
        platform == Platform::MacOs ==> arch != Arch::Other,
    ensures
        res@ == platform_label(platform, arch),
{
    match platform {
        Platform::MacOs => if arch == Arch::X86_64 {
            String::from_str("mac-intel")
        } else {
            String::from_str("mac-arm")
        },
        Platform::Linux => String::from_str("linux"),
        Platform::Windows => String::from_str("windows"),
    }
}

/// HTTP method of a server request.
#[derive(Clone, Copy, PartialEq, Eq, Structural)]
pub enum HttpMethod {
    Get,
    Post,
}

/// The upper-case form of `s`, as `str::to_uppercase` computes it (full Unicode case mapping).
pub uninterp spec fn uppercase(s: Seq<char>) -> Seq<char>;

/// Calls `str::to_uppercase`.
#[verifier::external_body]
fn to_uppercase(s: &str) -> (res: String)
    ensures
        res@ == uppercase(s@),
{
    s.to_uppercase()
}

/// A request is a POST when its method reads `POST` in upper case, a GET otherwise.
pub fn http_method(method: &str) -> (res: HttpMethod)
    ensures
        res == (if uppercase(method@) == "POST"@ { HttpMethod::Post } else { HttpMethod::Get }),
{
    let upper = to_uppercase(method);
    if str_eq(upper.as_str(), "POST") {
        HttpMethod::Post
    } else {
        HttpMethod::Get
    }
}

/// Seconds after which a server request is abandoned.
pub const REQUEST_TIMEOUT_SECS: u64 = 10;

/// The result of a server request: the body for a 2xx status, otherwise an
/// error naming the status code and the body.
pub fn server_response(status: u16, body: String) -> (res: Result<String, String>)
    ensures
        200 <= status <= 299 ==> (res matches Ok(b) && b@ == body@),
        !(200 <= status <= 299) ==> (res matches Err(e) && e@ == "HTTP "@ + decimal(status as nat)
            + " : "@ + body@),
{
    if 200 <= status && status <= 299 {
        Ok(body)
    } else {
        let mut e = String::from_str("HTTP ");
        append_decimal(&mut e, status as u64);
        e.append(" : ");
        e.append(body.as_str());
        Err(e)
    }
}

/// The reason phrase that `reqwest::StatusCode` (`http::StatusCode`) writes
/// after the code: its canonical reason, or `<unknown status code>`.
pub uninterp spec fn status_reason(code: u16) -> Seq<char>;

/// Builds `reqwest::StatusCode::from_u16(code)`, which accepts 100 to 999,
/// and writes it with `Display`: the code in decimal, a space, and the
/// reason phrase (the phrase itself is named, not spelled out).
#[verifier::external_body]
fn status_text(code: u16) -> (res: String)
    requires
        100 <= code <= 999,
    ensures
        res@ == decimal(code as nat) + " "@ + status_reason(code),
{
    match reqwest::StatusCode::from_u16(code) {
        Ok(status) => status.to_string(),
        Err(_) => String::new(),
    }
}

/// Whether downloading the update may go on: `sent` is the status of the
/// answer, or the message of the error that kept the request from being
/// sent. A status outside 200 to 299 is reported with its text.
pub fn download_outcome(sent: Result<u16, String>) -> (res: Result<(), String>)
    requires
        sent matches Ok(code) ==> 100 <= code <= 999,
    ensures
        match sent {
            Err(e) => res matches Err(m) && m@ == "Failed to send download request: "@ + e@,
            Ok(code) => if 200 <= code <= 299 {
                res is Ok
            } else {
                res matches Err(m) && m@ == "Download request failed with status: "@ + decimal(code as nat) + " "@
                    + status_reason(code)
            },
        },
{
    match sent {
        Err(e) => Err(String::from_str("Failed to send download request: ").concat(e.as_str())),
        Ok(code) => {
            if 200 <= code && code <= 299 {
                Ok(())
            } else {
                let t = status_text(code);
                Err(String::from_str("Download request failed with status: ").concat(t.as_str()))
            }
        },
    }
}

/// The error reported when the file picker cannot be run, `cause` being the
/// message of the failure.
pub fn file_dialog_error(cause: &str) -> (res: String)
    ensures
        res@ == "Failed to run file dialog: "@ + cause@,
{
    String::from_str("Failed to run file dialog: ").concat(cause)
}

/// PowerShell script that shows a file picker for executables and prints the chosen path.
pub const WINDOWS_FILE_DIALOG_SCRIPT: &'static str = "\n            Add-Type -AssemblyName System.Windows.Forms\n            $f = New-Object System.Windows.Forms.OpenFileDialog\n            $f.Filter = \"Executable Files (*.exe)|*.exe|All Files (*.*)|*.*\"\n            $f.Title = \"Select Antigravity Executable\"\n            $f.ShowHelp = $true\n            if ($f.ShowDialog() -eq [System.Windows.Forms.DialogResult]::OK) {\n                Write-Output $f.FileName\n            }\n        ";

/// The command that asks the user for the executable, on the platforms that have a picker.
pub open spec fn dialog_command_plan(platform: Platform) -> Result<CommandView, Seq<char>> {
    match platform {
        Platform::Windows => Ok(command_view(
            "powershell"@,
            seq!["-NoProfile"@, "-NonInteractive"@, "-Command"@, WINDOWS_FILE_DIALOG_SCRIPT@],
        )),
        Platform::MacOs => Ok(command_view(
            "osascript"@,
            seq!["-e"@, "POSIX path of (choose file with prompt \"Select Antigravity Executable\")"@],
        )),
        Platform::Linux => Err("File dialog is only supported on Windows and macOS"@),
    }
}

/// The file-picker command (see [`dialog_command_plan`]).
pub fn browse_executable_command(platform: Platform) -> (res: Result<ProcessCommand, String>)
    ensures
        match dialog_command_plan(platform) {
            Ok(c) => res matches Ok(k) && k@ == c,
            Err(e) => res matches Err(m) && m@ == e,
        },
{
    match platform {
        Platform::Windows => {
            let c = simple_command(
                "powershell",
                &["-NoProfile", "-NonInteractive", "-Command", WINDOWS_FILE_DIALOG_SCRIPT],
            );
            assert(c@.args =~= seq!["-NoProfile"@, "-NonInteractive"@, "-Command"@, WINDOWS_FILE_DIALOG_SCRIPT@]);
            Ok(c)
        },
        Platform::MacOs => {
            let c = simple_command(
                "osascript",
                &["-e", "POSIX path of (choose file with prompt \"Select Antigravity Executable\")"],
            );
            assert(c@.args =~= seq!["-e"@, "POSIX path of (choose file with prompt \"Select Antigravity Executable\")"@]);
            Ok(c)
        },
        Platform::Linux => Err(String::from_str("File dialog is only supported on Windows and macOS")),
    }
}

/// What the picker's outcome means: on success the trimmed output is the
/// chosen path (none when empty); a failure is an error carrying the
/// trimmed error output on Windows and no choice on macOS.
pub open spec fn dialog_outcome(platform: Platform, success: bool, stdout: Seq<char>, stderr: Seq<char>) -> Result<Option<Seq<char>>, Seq<char>> {
    if success {
        if trimmed(stdout).len() == 0 { Ok(None) } else { Ok(Some(trimmed(stdout))) }
    } else if platform == Platform::Windows {
        Err("File dialog error: "@ + trimmed(stderr))
    } else {
        Ok(None)
    }
}

/// Interprets the picker's exit status and output (see [`dialog_outcome`]).
pub fn browse_executable_result(platform: Platform, success: bool, stdout: &str, stderr: &str) -> (res: Result<Option<String>, String>)
    ensures
        match dialog_outcome(platform, success, stdout@, stderr@) {
            Ok(Some(p)) => res matches Ok(Some(s)) && s@ == p,
            Ok(None) => res matches Ok(None),
            Err(e) => res matches Err(m) && m@ == e,
        },
{
    if success {
        let p = trim(stdout);
        if p.unicode_len() == 0 {
            Ok(None)
        } else {
            Ok(Some(String::from_str(p)))
        }
    } else if platform == Platform::Windows {
        Err(String::from_str("File dialog error: ").concat(trim(stderr)))
    } else {
        Ok(None)
    }
}

/// Where the saved access token is kept.
pub fn saved_token_file() -> (res: PathSpec)
    ensures
        res@ == (PathView { base: PathBaseView::Home, parts: seq![".antigravity-client"@, "saved_token.txt"@] }),
{
    let res = path_spec(PathBase::Home, &[".antigravity-client", "saved_token.txt"]);
    assert(res@.parts =~= seq![".antigravity-client"@, "saved_token.txt"@]);
    res
}

/// The text written to the token file: the token without surrounding white space.
pub fn save_token(token: &str) -> (res: String)
    ensures
        res@ == trimmed(token@),
{
    String::from_str(trim(token))
}

/// The saved token: the token file's text without surrounding white space,
/// empty where there is no readable file.
pub fn get_saved_token(content: Option<&str>) -> (res: String)
    ensures
        res@ == match content {
            Some(c) => trimmed(c@),
            None => Seq::empty(),
        },
{
    match content {
        Some(c) => String::from_str(trim(c)),
        None => String::new(),
    }
}

/// Name of the downloaded installer of the next version.
pub open spec fn setup_file_name(platform: Platform) -> Seq<char> {
    match platform {
        Platform::Windows => "AntigravityClient_setup.msi"@,
        Platform::MacOs => "AntigravityClient_setup.dmg"@,
        Platform::Linux => "AntigravityClient_setup.AppImage"@,
    }
}

/// Executable counterpart of [`setup_file_name`].
pub fn update_setup_file_name(platform: Platform) -> (res: String)
    ensures
        res@ == setup_file_name(platform),
{
    match platform {
        Platform::Windows => String::from_str("AntigravityClient_setup.msi"),
        Platform::MacOs => String::from_str("AntigravityClient_setup.dmg"),
        Platform::Linux => String::from_str("AntigravityClient_setup.AppImage"),
    }
}


/// How the downloaded installer replaces the running client, and the prefix
/// of the error reported when the installer cannot be started.
pub struct InstallerPlan {
    pub command: ProcessCommand,
    pub spawn_error_prefix: String,
}

/// PowerShell script that installs the MSI `setup` quietly and restarts `exe`.
pub open spec fn windows_install_script(setup: Seq<char>, exe: Seq<char>) -> Seq<char> {
    "Start-Sleep -Seconds 2; Start-Process msiexec.exe -ArgumentList '/i', '"@ + setup
        + "', '/passive', '/norestart' -Wait; Start-Process '"@ + exe + "'"@
}

/// Shell script that copies the bundle `app` out of the disk image `setup`
/// into `dir` and opens it.
pub open spec fn macos_install_script(setup: Seq<char>, app: Seq<char>, dir: Seq<char>) -> Seq<char> {
    "sleep 2; hdiutil attach -nobrowse -mountpoint /tmp/ag_mount '"@ + setup + "'; cp -R '/tmp/ag_mount/"@
        + app + "' '"@ + dir + "/'; hdiutil detach /tmp/ag_mount; xattr -cr '"@ + dir + "/"@ + app
        + "'; open -n '"@ + dir + "/"@ + app + "'"@
}

/// Shell script that replaces `exe` by the AppImage `setup` and starts it.
pub open spec fn linux_install_script(setup: Seq<char>, exe: Seq<char>) -> Seq<char> {
    "sleep 2; chmod +x '"@ + setup + "'; mv '"@ + setup + "' '"@ + exe + "'; '"@ + exe + "' &"@
}

/// The third ancestor of a path: the application bundle around a macOS
/// executable at `Bundle.app/Contents/MacOS/exe`.
pub open spec fn third_ancestor(exe: Seq<char>) -> Option<Seq<char>> {
    match unix_parent(exe) {
        Some(a) => match unix_parent(a) {
            Some(b) => unix_parent(b),
            None => None,
        },
        None => None,
    }
}

/// How the installer `setup` replaces the client `exe`. On macOS the bundle
/// is the third ancestor of the executable and the install directory the
/// bundle's parent.
pub open spec fn installer_plan(
    platform: Platform,
    setup: Seq<char>,
    exe: Seq<char>,
) -> Result<(CommandView, Seq<char>), Seq<char>> {
    match platform {
        Platform::Windows => Ok((
            command_view(
                "powershell"@,
                seq!["-NoProfile"@, "-WindowStyle"@, "Hidden"@, "-Command"@, windows_install_script(setup, exe)],
            ),
            "Failed to spawn PowerShell installer script: "@,
        )),
        Platform::MacOs => match third_ancestor(exe) {
            None => Err("Failed to find .app bundle path"@),
            Some(bundle) => match unix_parent(bundle) {
                None => Err("Failed to find install directory"@),
                Some(dir) => match unix_file_name(bundle) {
                    Some(app) => Ok((
                        command_view("sh"@, seq!["-c"@, macos_install_script(setup, app, dir)]),
                        "Failed to spawn macOS shell installer: "@,
                    )),
                    None => Err("Failed to get .app bundle name"@),
                },
            },
        },
        Platform::Linux => Ok((
            command_view("sh"@, seq!["-c"@, linux_install_script(setup, exe)]),
            "Failed to spawn Linux shell installer: "@,
        )),
    }
}

/// Plans starting the installer (see [`installer_plan`]).
pub fn install_client_update(platform: Platform, setup: &str, exe: &str) -> (res: Result<InstallerPlan, String>)
    ensures
        match installer_plan(platform, setup@, exe@) {
            Ok((c, p)) => res matches Ok(plan) && plan.command@ == c && plan.spawn_error_prefix@ == p,
            Err(e) => res matches Err(m) && m@ == e,
        },
{
    match platform {
        Platform::Windows => {
            let script = String::from_str("Start-Sleep -Seconds 2; Start-Process msiexec.exe -ArgumentList '/i', '")
                .concat(setup).concat("', '/passive', '/norestart' -Wait; Start-Process '").concat(exe).concat("'");
            let s = script.as_str();
            let c = simple_command("powershell", &["-NoProfile", "-WindowStyle", "Hidden", "-Command", s]);
            assert(c@.args =~= seq!["-NoProfile"@, "-WindowStyle"@, "Hidden"@, "-Command"@, s@]);
            Ok(InstallerPlan {
                command: c,
                spawn_error_prefix: String::from_str("Failed to spawn PowerShell installer script: "),
            })
        },
        Platform::MacOs => {
            let bundle = match path_parent(exe) {
                Some(a) => match path_parent(a) {
                    Some(b) => path_parent(b),
                    None => None,
                },
                None => None,
            };
            let bundle = match bundle {
                Some(b) => b,
                None => {
                    return Err(String::from_str("Failed to find .app bundle path"));
                },
            };
            let dir = match path_parent(bundle) {
                Some(d) => d,
                None => {
                    return Err(String::from_str("Failed to find install directory"));
                },
            };
            match path_file_name(bundle) {
                Some(a) => {
                    let script = String::from_str("sleep 2; hdiutil attach -nobrowse -mountpoint /tmp/ag_mount '")
                        .concat(setup).concat("'; cp -R '/tmp/ag_mount/").concat(a).concat("' '").concat(dir)
                        .concat("/'; hdiutil detach /tmp/ag_mount; xattr -cr '").concat(dir).concat("/").concat(a)
                        .concat("'; open -n '").concat(dir).concat("/").concat(a).concat("'");
                    let s = script.as_str();
                    let c = simple_command("sh", &["-c", s]);
                    assert(c@.args =~= seq!["-c"@, s@]);
                    Ok(InstallerPlan {
                        command: c,
                        spawn_error_prefix: String::from_str("Failed to spawn macOS shell installer: "),
                    })
                },
                None => Err(String::from_str("Failed to get .app bundle name")),
            }
        },
        Platform::Linux => {
            let script = String::from_str("sleep 2; chmod +x '").concat(setup).concat("'; mv '").concat(setup)
                .concat("' '").concat(exe).concat("'; '").concat(exe).concat("' &");
            let s = script.as_str();
            let c = simple_command("sh", &["-c", s]);
            assert(c@.args =~= seq!["-c"@, s@]);
            Ok(InstallerPlan {
                command: c,
                spawn_error_prefix: String::from_str("Failed to spawn Linux shell installer: "),
            })
        },
    }
}

/// What a tray-menu entry does.
#[derive(Clone, Copy, PartialEq, Eq, Structural)]
pub enum MenuAction {
    Quit,
    ShowWindow,
    Nothing,
}

/// The tray menu: `quit` exits, `show` brings the window up, other entries do nothing.
pub fn menu_action(id: &str) -> (res: MenuAction)
    ensures
        res == (if id@ == "quit"@ {
            MenuAction::Quit
        } else if id@ == "show"@ {
            MenuAction::ShowWindow
        } else {
            MenuAction::Nothing
        }),
{
    if str_eq(id, "quit") {
        MenuAction::Quit
    } else if str_eq(id, "show") {
        MenuAction::ShowWindow
    } else {
        MenuAction::Nothing
    }
}

/// A click on the tray icon brings the window up when it is the left button's release.
pub fn tray_click_shows_window(left_button: bool, released: bool) -> (res: bool)
    ensures
        res == (left_button && released),
{
    left_button && released
}

/// What closing the window does, by the user's answer to the close dialog.
#[derive(Clone, Copy, PartialEq, Eq, Structural)]
pub enum CloseAction {
    HideToTray,
    Exit,
}

/// The close dialog's first button keeps the client in the tray, the second exits.
pub fn close_action(first_button: bool) -> (res: CloseAction)
    ensures
        res == (if first_button { CloseAction::HideToTray } else { CloseAction::Exit }),
{
    if first_button { CloseAction::HideToTray } else { CloseAction::Exit }
}

} // verus!
