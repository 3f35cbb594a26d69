use antigravity_client::launch::{
    app_bundle_locations, cli_lookup_command, cli_path_candidate, custom_path, get_app_bundle_path,
    get_default_cli_path, get_default_linux_ide_path, get_default_windows_ide_path,
    get_ide_resources_path, kill_running_antigravity, linux_ide_path_candidates,
    spawn_cli_in_terminal, start_antigravity_ide, terminal_step, LaunchAction, TerminalStep,
    executable_source, is_cli_tool, settings_injected_first, ExecutableSource,
};
use antigravity_client::platform::{PathBase, Platform, ProcessCommand};

fn args(c: &ProcessCommand) -> Vec<&str> {
    c.args.iter().map(|s| s.as_str()).collect()
}

fn env(c: &ProcessCommand) -> Vec<(&str, &str)> {
    c.env.iter().map(|(k, v)| (k.as_str(), v.as_str())).collect()
}

#[test]
fn kill_commands_per_tool_and_platform() {
    let cmds = kill_running_antigravity("Antigravity 2.0", Platform::Windows);
    assert_eq!(cmds.len(), 3);
    assert_eq!(cmds[0].program, "taskkill");
    assert_eq!(args(&cmds[0]), vec!["/F", "/IM", "antigravity"]);
    assert_eq!(args(&cmds[2]), vec!["/F", "/IM", "antigravity.exe"]);
    let cmds = kill_running_antigravity("Antigravity CLI", Platform::Linux);
    assert_eq!(cmds.len(), 2);
    assert_eq!(cmds[1].program, "pkill");
    assert_eq!(args(&cmds[1]), vec!["-f", "agy.exe"]);
    let cmds = kill_running_antigravity("anything else", Platform::MacOs);
    assert_eq!(args(&cmds[0]), vec!["-f", "Antigravity IDE"]);
    assert_eq!(args(&cmds[1]), vec!["-f", "Antigravity IDE.exe"]);
    assert_eq!(args(&cmds[2]), vec!["-f", "antigravity-ide"]);
}

#[test]
fn missing_cli_is_an_error() {
    match start_antigravity_ide("Antigravity CLI", Platform::Linux, "/opt/agy", false) {
        Err(e) => assert_eq!(e, "Antigravity CLI binary not found at: /opt/agy"),
        Ok(_) => panic!("expected an error"),
    }
}

#[test]
fn missing_windows_executable_is_an_error() {
    match start_antigravity_ide("Antigravity IDE", Platform::Windows, "C:\\x.exe", false) {
        Err(e) => assert_eq!(e, "Executable not found at path: C:\\x.exe"),
        Ok(_) => panic!("expected an error"),
    }
}

#[test]
fn missing_macos_bundle_is_reported_with_debug_quoting() {
    match start_antigravity_ide("Antigravity IDE", Platform::MacOs, "/Applications/A \"b\".app", false) {
        Err(e) => assert_eq!(e, "Application bundle not found at: \"/Applications/A \\\"b\\\".app\""),
        Ok(_) => panic!("expected an error"),
    }
}

#[test]
fn windows_ide_launch_has_proxy_flags_and_variables() {
    match start_antigravity_ide("Antigravity IDE", Platform::Windows, "C:\\ide.exe", true) {
        Ok(LaunchAction::Process { command, spawn_error_prefix, settings_first }) => {
            assert_eq!(command.program, "C:\\ide.exe");
            assert_eq!(args(&command), vec!["--proxy-server=http://127.0.0.1:8047", "--proxy-bypass-list=<-loopback>"]);
            assert_eq!(
                env(&command),
                vec![
                    ("HTTP_PROXY", "http://127.0.0.1:8047"),
                    ("HTTPS_PROXY", "http://127.0.0.1:8047"),
                    ("ALL_PROXY", "http://127.0.0.1:8047"),
                    ("NO_PROXY", "localhost,127.0.0.1"),
                ]
            );
            assert_eq!(spawn_error_prefix, "Failed to spawn executable C:\\ide.exe: ");
            assert!(!settings_first);
        },
        _ => panic!("expected a process"),
    }
}

#[test]
fn macos_launch_opens_bundle() {
    match start_antigravity_ide("Antigravity 2.0", Platform::MacOs, "/Applications/Antigravity.app", true) {
        Ok(LaunchAction::Process { command, spawn_error_prefix, .. }) => {
            assert_eq!(command.program, "open");
            assert_eq!(
                args(&command),
                vec!["-n", "/Applications/Antigravity.app", "--args", "--proxy-server=http://127.0.0.1:8047", "--proxy-bypass-list=<-loopback>"]
            );
            assert_eq!(env(&command), vec![
                    ("HTTP_PROXY", "http://127.0.0.1:8047"),
                    ("HTTPS_PROXY", "http://127.0.0.1:8047"),
                    ("ALL_PROXY", "http://127.0.0.1:8047"),
                    ("NO_PROXY", "localhost,127.0.0.1"),
                ]);
            assert_eq!(spawn_error_prefix, "Failed to launch macOS application: ");
        },
        _ => panic!("expected a process"),
    }
}

#[test]
fn linux_launch_ignores_existence_and_injects_settings_first() {
    match start_antigravity_ide("Antigravity IDE", Platform::Linux, "/usr/bin/antigravity-ide", false) {
        Ok(LaunchAction::Process { command, spawn_error_prefix, settings_first }) => {
            assert_eq!(command.program, "/usr/bin/antigravity-ide");
            assert_eq!(args(&command), vec!["--proxy-server=http://127.0.0.1:8047", "--proxy-bypass-list=<-loopback>"]);
            assert_eq!(env(&command), vec![
                    ("HTTP_PROXY", "http://127.0.0.1:8047"),
                    ("HTTPS_PROXY", "http://127.0.0.1:8047"),
                    ("ALL_PROXY", "http://127.0.0.1:8047"),
                    ("NO_PROXY", "localhost,127.0.0.1"),
                ]);
            assert_eq!(spawn_error_prefix, "Failed to spawn Linux binary: ");
            assert!(settings_first);
        },
        _ => panic!("expected a process"),
    }
}

#[test]
fn cli_opens_terminal_plan() {
    match start_antigravity_ide("Antigravity CLI", Platform::MacOs, "/u/agy", true) {
        Ok(LaunchAction::Terminal(plan)) => assert_eq!(plan.candidates[0].command.program, "osascript"),
        _ => panic!("expected a terminal"),
    }
}

#[test]
fn windows_terminal_script_quotes_single_quotes() {
    let plan = spawn_cli_in_terminal("C:\\it's\\agy.exe", Platform::Windows);
    assert_eq!(plan.probe_program, "where");
    assert_eq!(plan.candidates.len(), 2);
    assert_eq!(plan.candidates[0].probe.as_deref(), Some("wt.exe"));
    let expected = "$env:HTTP_PROXY='http://127.0.0.1:8047'; $env:HTTPS_PROXY='http://127.0.0.1:8047'; $env:ALL_PROXY='http://127.0.0.1:8047'; $env:NO_PROXY='localhost,127.0.0.1'; & 'C:\\it''s\\agy.exe'";
    assert_eq!(args(&plan.candidates[0].command), vec!["powershell.exe", "-NoExit", "-Command", expected]);
    assert_eq!(plan.candidates[1].command.program, "cmd.exe");
    assert_eq!(args(&plan.candidates[1].command), vec!["/c", "start", "powershell.exe", "-NoExit", "-Command", expected]);
    assert_eq!(plan.last_error_prefix.as_deref(), Some("Failed to spawn PowerShell: "));
}

#[test]
fn macos_terminal_script_escapes_backslashes_and_quotes() {
    let plan = spawn_cli_in_terminal("/a\\b\"c", Platform::MacOs);
    let expected = "tell application \"Terminal\"\nactivate\ndo script \"export HTTP_PROXY=http://127.0.0.1:8047 HTTPS_PROXY=http://127.0.0.1:8047 ALL_PROXY=http://127.0.0.1:8047 NO_PROXY=localhost,127.0.0.1; \\\"/a\\\\b\\\"c\\\"\"\nend tell";
    assert_eq!(args(&plan.candidates[0].command), vec!["-e", expected]);
}

#[test]
fn linux_terminals_in_order() {
    let plan = spawn_cli_in_terminal("/x/\"agy\"", Platform::Linux);
    let script = "export HTTP_PROXY=http://127.0.0.1:8047 HTTPS_PROXY=http://127.0.0.1:8047 ALL_PROXY=http://127.0.0.1:8047 NO_PROXY=localhost,127.0.0.1; \"/x/\\\"agy\\\"\"; exec $SHELL";
    let names: Vec<&str> = plan.candidates.iter().map(|c| c.command.program.as_str()).collect();
    assert_eq!(names, vec!["x-terminal-emulator", "gnome-terminal", "konsole", "xfce4-terminal", "alacritty", "kitty", "xterm"]);
    assert_eq!(args(&plan.candidates[1].command), vec!["--", "bash", "-c", script]);
    let xfce = format!("bash -c '{}'", script);
    assert_eq!(args(&plan.candidates[3].command), vec!["-e", xfce.as_str()]);
    assert_eq!(args(&plan.candidates[5].command), vec!["bash", "-c", script]);
    assert_eq!(plan.exhausted_error, "No supported Linux terminal emulator found");
}

#[test]
fn terminal_steps() {
    let linux = spawn_cli_in_terminal("/agy", Platform::Linux);
    assert!(matches!(terminal_step(&linux, 0, false, None), TerminalStep::TryNext(1)));
    assert!(matches!(terminal_step(&linux, 2, true, Some("boom")), TerminalStep::TryNext(3)));
    assert!(matches!(terminal_step(&linux, 3, true, None), TerminalStep::Launched));
    match terminal_step(&linux, 6, false, None) {
        TerminalStep::Fail(e) => assert_eq!(e, "No supported Linux terminal emulator found"),
        _ => panic!("expected failure"),
    }
    let windows = spawn_cli_in_terminal("C:\\agy.exe", Platform::Windows);
    assert!(matches!(terminal_step(&windows, 0, true, Some("no wt")), TerminalStep::TryNext(1)));
    match terminal_step(&windows, 1, false, Some("denied")) {
        TerminalStep::Fail(e) => assert_eq!(e, "Failed to spawn PowerShell: denied"),
        _ => panic!("expected failure"),
    }
}

#[test]
fn custom_paths_count_only_when_non_empty() {
    assert_eq!(custom_path(Some("/x")), Some("/x".to_string()));
    assert_eq!(custom_path(Some("")), None);
    assert_eq!(custom_path(None), None);
}

#[test]
fn default_windows_paths() {
    assert_eq!(get_default_windows_ide_path("Antigravity 2.0", "C:\\L"), "C:\\L\\Programs\\antigravity\\Antigravity.exe");
    assert_eq!(get_default_windows_ide_path("Antigravity IDE", "C:\\L"), "C:\\L\\Programs\\Antigravity IDE\\Antigravity IDE.exe");
}

#[test]
fn linux_ide_candidates_and_choice() {
    let c = linux_ide_path_candidates("Antigravity 2.0");
    assert_eq!(c.len(), 3);
    assert!(matches!(c[0].base, PathBase::HomeOrEmpty));
    assert_eq!(c[0].parts, vec![".local/bin/antigravity".to_string()]);
    assert!(matches!(c[2].base, PathBase::Fixed(ref p) if p == "/usr/local/bin/antigravity"));
    let resolved = vec!["/h/.local/bin/antigravity".to_string(), "/usr/bin/antigravity".to_string(), "/usr/local/bin/antigravity".to_string()];
    assert_eq!(get_default_linux_ide_path(&resolved, &vec![false, true, true]).unwrap(), "/usr/bin/antigravity");
    assert_eq!(get_default_linux_ide_path(&resolved, &vec![false, false, false]).unwrap(), "/h/.local/bin/antigravity");
    assert_eq!(get_default_linux_ide_path(&vec![], &vec![]).unwrap_err(), "Antigravity executable not found on Linux");
}

#[test]
fn cli_path_resolution() {
    let c = cli_path_candidate(Platform::Windows);
    assert!(matches!(c.base, PathBase::EnvOrEmpty(ref v) if v == "USERPROFILE"));
    assert_eq!(c.parts, vec![".antigravity".to_string(), "bin".to_string(), "agy.exe".to_string()]);
    let l = cli_lookup_command(Platform::Linux);
    assert_eq!(l.program, "which");
    assert_eq!(args(&l), vec!["agy"]);
    assert_eq!(get_default_cli_path(Platform::Linux, Some("/h/.antigravity/bin/agy"), true, Some("/other\n")), "/h/.antigravity/bin/agy");
    assert_eq!(get_default_cli_path(Platform::Linux, Some("/h/a"), false, Some("  /usr/bin/agy \r\n/second\n")), "/usr/bin/agy");
    assert_eq!(get_default_cli_path(Platform::Linux, None, false, Some("\n/second")), "/usr/local/bin/agy");
    assert_eq!(get_default_cli_path(Platform::Linux, None, false, None), "/usr/local/bin/agy");
    assert_eq!(get_default_cli_path(Platform::Windows, Some("U\\.antigravity\\bin\\agy.exe"), false, None), "U\\.antigravity\\bin\\agy.exe");
}

#[test]
fn resource_candidates() {
    let c = get_ide_resources_path("Antigravity IDE", Platform::MacOs, "/Applications/Antigravity IDE.app", None, None);
    assert_eq!(c.len(), 1);
    assert_eq!(c[0].parts, vec!["Contents/Resources".to_string()]);
    let c = get_ide_resources_path("Antigravity 2.0", Platform::Windows, "", Some("C:\\a\\b.exe"), Some("C:\\a"));
    assert_eq!(c.len(), 2);
    assert!(matches!(c[0].base, PathBase::Fixed(ref p) if p == "C:\\a"));
    assert_eq!(c[1].parts, vec!["Programs".to_string(), "antigravity".to_string(), "resources".to_string()]);
    let c = get_ide_resources_path("Antigravity IDE", Platform::Linux, "", Some(""), Some("/x"));
    assert_eq!(c.len(), 2);
    assert!(matches!(c[0].base, PathBase::Fixed(ref p) if p == "/usr/share/antigravity-ide/resources"));
    assert!(matches!(c[1].base, PathBase::Fixed(ref p) if p == "/opt/antigravity-ide/resources"));
}

#[test]
fn app_bundle_resolution() {
    let (global, user) = app_bundle_locations("Antigravity 2.0");
    assert_eq!(global, "/Applications/Antigravity.app");
    assert_eq!(user.parts, vec!["Applications/Antigravity.app".to_string()]);
    assert_eq!(get_app_bundle_path("Antigravity IDE", Some("/A/Foo.app/Contents/MacOS/foo"), true, None), "/A/Foo.app");
    assert_eq!(get_app_bundle_path("Antigravity IDE", Some("/bin/x"), true, None), "/bin/x");
    assert_eq!(get_app_bundle_path("Antigravity IDE", Some("/X/Direct.app"), false, None), "/X/Direct.app");
    assert_eq!(
        get_app_bundle_path("Antigravity IDE", Some("/Applications/Outer.app/Contents/Inner.app/Contents/MacOS/bin"), false, None),
        "/Applications/Outer.app/Contents/Inner.app"
    );
    assert_eq!(get_app_bundle_path("Antigravity IDE", None, true, Some(("/h/Applications/Antigravity IDE.app", true))), "/Applications/Antigravity IDE.app");
    assert_eq!(get_app_bundle_path("Antigravity IDE", Some(""), false, Some(("/h/Applications/Antigravity IDE.app", true))), "/h/Applications/Antigravity IDE.app");
    assert_eq!(get_app_bundle_path("Antigravity IDE", None, false, Some(("/h/u.app", false))), "/Applications/Antigravity IDE.app");
}

#[test]
fn executable_sources() {
    assert!(executable_source("Antigravity CLI", Platform::MacOs, Some("/x/agy")) == ExecutableSource::Given("/x/agy".to_string()));
    assert!(executable_source("Antigravity CLI", Platform::Windows, Some("")) == ExecutableSource::DefaultCli);
    assert!(executable_source("Antigravity IDE", Platform::MacOs, Some("/x")) == ExecutableSource::AppBundle);
    assert!(executable_source("Antigravity 2.0", Platform::Windows, None) == ExecutableSource::DefaultWindows);
    assert!(executable_source("Antigravity 2.0", Platform::Linux, None) == ExecutableSource::DefaultLinux);
    assert!(executable_source("Antigravity IDE", Platform::Linux, Some("/opt/ide")) == ExecutableSource::Given("/opt/ide".to_string()));
    assert!(settings_injected_first("Antigravity IDE", Platform::Linux));
    assert!(!settings_injected_first("Antigravity CLI", Platform::Linux));
    assert!(!settings_injected_first("Antigravity IDE", Platform::Windows));
    assert!(is_cli_tool("Antigravity CLI"));
    assert!(!is_cli_tool("Antigravity IDE"));
}
