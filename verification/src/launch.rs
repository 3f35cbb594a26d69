//! Starting and stopping the IDE, the desktop app and the CLI: which
//! processes to run with which proxy settings, and where to look for them.

use vstd::prelude::*;
use crate::platform::{
    Platform, ProcessCommand, CommandView, command_view, commands_view, simple_command, PathBase,
    PathSpec, PathView, PathBaseView, paths_view, path_spec, first_existing, first_existing_index,
};
use crate::text::{str_eq, replace_char, replace_char_with, trimmed, first_line, trim, first_line_of};
use crate::unix_path::{bundle_around, bundle_around_path};

verus! {

/// Address of the local proxy, as given to launched tools.
pub open spec fn proxy_address() -> Seq<char> {
    "http://127.0.0.1:8047"@
}

/// Flags that route a Chromium-based app through the local proxy.
pub open spec fn proxy_flags() -> Seq<Seq<char>> {
    seq!["--proxy-server=http://127.0.0.1:8047"@, "--proxy-bypass-list=<-loopback>"@]
}

/// The command-line tool.
pub open spec fn is_cli(ide_type: Seq<char>) -> bool {
    ide_type == "Antigravity CLI"@
}

/// The desktop app (as opposed to the IDE).
pub open spec fn is_desktop_app(ide_type: Seq<char>) -> bool {
    ide_type == "Antigravity 2.0"@
}

/// Process names of a tool.
pub open spec fn process_names(ide_type: Seq<char>) -> Seq<Seq<char>> {
    if is_desktop_app(ide_type) {
        seq!["antigravity"@, "Antigravity.exe"@, "antigravity.exe"@]
    } else if is_cli(ide_type) {
        seq!["agy"@, "agy.exe"@]
    } else {
        seq!["Antigravity IDE"@, "Antigravity IDE.exe"@, "antigravity-ide"@]
    }
}

/// The command that terminates the processes named `name`.
pub open spec fn kill_command(platform: Platform, name: Seq<char>) -> CommandView {
    if platform == Platform::Windows {
        command_view("taskkill"@, seq!["/F"@, "/IM"@, name])
    } else {
        command_view("pkill"@, seq!["-f"@, name])
    }
}

/// The commands that terminate every running instance of a tool, one per process name.
pub fn kill_running_antigravity(ide_type: &str, platform: Platform) -> (res: Vec<ProcessCommand>)
    ensures
        commands_view(res@) == process_names(ide_type@).map_values(
            |n: Seq<char>| kill_command(platform, n),
        ),
{
    let names: Vec<&str> = if str_eq(ide_type, "Antigravity 2.0") {
        vec!["antigravity", "Antigravity.exe", "antigravity.exe"]
    } else if str_eq(ide_type, "Antigravity CLI") {
        vec!["agy", "agy.exe"]
    } else {
        vec!["Antigravity IDE", "Antigravity IDE.exe", "antigravity-ide"]
    };
    assert(names@.map_values(|s: &str| s@) =~= process_names(ide_type@));
    let mut out: Vec<ProcessCommand> = Vec::new();
    let mut i: usize = 0;
    while i < names.len()
        invariant
            i <= names@.len(),
            out@.len() == i,
            forall|j: int| 0 <= j < i ==> #[trigger] out@[j]@ == kill_command(platform, names@[j]@),
        decreases names@.len() - i,
    {
        let name = names[i];
        let cmd = if platform == Platform::Windows {
            let c = simple_command("taskkill", &["/F", "/IM", name]);
            assert(["/F", "/IM", name]@.map_values(|s: &str| s@) =~= seq!["/F"@, "/IM"@, name@]);
            c
        } else {
            let c = simple_command("pkill", &["-f", name]);
            assert(["-f", name]@.map_values(|s: &str| s@) =~= seq!["-f"@, name@]);
            c
        };
        out.push(cmd);
        i = i + 1;
    }
    assert(commands_view(out@) =~= process_names(ide_type@).map_values(
        |n: Seq<char>| kill_command(platform, n),
    ));
    out
}

/// One way to open a terminal: the program to look for first (none: try
/// directly) and the command to start.
pub struct TerminalCandidate {
    pub probe: Option<String>,
    pub command: ProcessCommand,
}

/// Mathematical view of [`TerminalCandidate`].
pub struct TerminalCandidateView {
    pub probe: Option<Seq<char>>,
    pub command: CommandView,
}

impl View for TerminalCandidate {
    type V = TerminalCandidateView;

    open spec fn view(&self) -> TerminalCandidateView {
        TerminalCandidateView {
            probe: match self.probe {
                Some(p) => Some(p@),
                None => None,
            },
            command: self.command@,
        }
    }
}

/// How to open the CLI in a terminal: candidates tried in order, the
/// program that looks a probed name up, the error prefix for a failure to
/// start the last candidate (none: move on), and the error once every
/// candidate is used up.
pub struct TerminalPlan {
    pub probe_program: String,
    pub candidates: Vec<TerminalCandidate>,
    pub last_error_prefix: Option<String>,
    pub exhausted_error: String,
}

/// Mathematical view of [`TerminalPlan`].
pub struct TerminalPlanView {
    pub probe_program: Seq<char>,
    pub candidates: Seq<TerminalCandidateView>,
    pub last_error_prefix: Option<Seq<char>>,
    pub exhausted_error: Seq<char>,
}

impl View for TerminalPlan {
    type V = TerminalPlanView;

    open spec fn view(&self) -> TerminalPlanView {
        TerminalPlanView {
            probe_program: self.probe_program@,
            candidates: self.candidates@.map_values(|c: TerminalCandidate| c@),
            last_error_prefix: match self.last_error_prefix {
                Some(p) => Some(p@),
                None => None,
            },
            exhausted_error: self.exhausted_error@,
        }
    }
}

/// PowerShell command that sets the proxy variables and runs the CLI at `path`.
pub open spec fn windows_cli_script(path: Seq<char>) -> Seq<char> {
    "$env:HTTP_PROXY='http://127.0.0.1:8047'; $env:HTTPS_PROXY='http://127.0.0.1:8047'; $env:ALL_PROXY='http://127.0.0.1:8047'; $env:NO_PROXY='localhost,127.0.0.1'; & '"@
        + replace_char(path, '\'', "''"@) + "'"@
}

/// AppleScript that opens Terminal with the proxy variables and runs the CLI at `path`.
pub open spec fn macos_cli_script(path: Seq<char>) -> Seq<char> {
    "tell application \"Terminal\"\nactivate\ndo script \"export HTTP_PROXY=http://127.0.0.1:8047 HTTPS_PROXY=http://127.0.0.1:8047 ALL_PROXY=http://127.0.0.1:8047 NO_PROXY=localhost,127.0.0.1; \\\""@
        + replace_char(replace_char(path, '\\', "\\\\"@), '"', "\\\""@)
        + "\\\"\"\nend tell"@
}

/// Shell command that sets the proxy variables, runs the CLI at `path` and keeps a shell open.
pub open spec fn linux_cli_script(path: Seq<char>) -> Seq<char> {
    "export HTTP_PROXY=http://127.0.0.1:8047 HTTPS_PROXY=http://127.0.0.1:8047 ALL_PROXY=http://127.0.0.1:8047 NO_PROXY=localhost,127.0.0.1; \""@
        + replace_char(path, '"', "\\\""@) + "\"; exec $SHELL"@
}

/// A terminal candidate found by name and started with `args`.
pub open spec fn probed(term: Seq<char>, args: Seq<Seq<char>>) -> TerminalCandidateView {
    TerminalCandidateView { probe: Some(term), command: command_view(term, args) }
}

/// The terminals tried on Linux, in order.
pub open spec fn linux_terminals(script: Seq<char>) -> Seq<TerminalCandidateView> {
    seq![
        probed("x-terminal-emulator"@, seq!["-e"@, "bash"@, "-c"@, script]),
        probed("gnome-terminal"@, seq!["--"@, "bash"@, "-c"@, script]),
        probed("konsole"@, seq!["-e"@, "bash"@, "-c"@, script]),
        probed("xfce4-terminal"@, seq!["-e"@, "bash -c '"@ + script + "'"@]),
        probed("alacritty"@, seq!["-e"@, "bash"@, "-c"@, script]),
        probed("kitty"@, seq!["bash"@, "-c"@, script]),
        probed("xterm"@, seq!["-e"@, "bash"@, "-c"@, script]),
    ]
}

/// How each platform opens the CLI in a terminal with the proxy configured.
pub open spec fn terminal_plan(path: Seq<char>, platform: Platform) -> TerminalPlanView {
    match platform {
        Platform::Windows => {
            let script = windows_cli_script(path);
            TerminalPlanView {
                probe_program: "where"@,
                candidates: seq![
                    TerminalCandidateView {
                        probe: Some("wt.exe"@),
                        command: command_view(
                            "wt.exe"@,
                            seq!["powershell.exe"@, "-NoExit"@, "-Command"@, script],
                        ),
                    },
                    TerminalCandidateView {
                        probe: None,
                        command: command_view(
                            "cmd.exe"@,
                            seq!["/c"@, "start"@, "powershell.exe"@, "-NoExit"@, "-Command"@, script],
                        ),
                    },
                ],
                last_error_prefix: Some("Failed to spawn PowerShell: "@),
                exhausted_error: ""@,
            }
        },
        Platform::MacOs => TerminalPlanView {
            probe_program: "which"@,
            candidates: seq![
                TerminalCandidateView {
                    probe: None,
                    command: command_view("osascript"@, seq!["-e"@, macos_cli_script(path)]),
                },
            ],
            last_error_prefix: Some("Failed to launch Terminal via osascript: "@),
            exhausted_error: ""@,
        },
        Platform::Linux => TerminalPlanView {
            probe_program: "which"@,
            candidates: linux_terminals(linux_cli_script(path)),
            last_error_prefix: None,
            exhausted_error: "No supported Linux terminal emulator found"@,
        },
    }
}

fn candidate(probe: Option<&str>, program: &str, args: &[&str]) -> (res: TerminalCandidate)
    ensures
        res@ == (TerminalCandidateView {
            probe: match probe {
                Some(p) => Some(p@),
                None => None,
            },
            command: command_view(program@, args@.map_values(|s: &str| s@)),
        }),
{
    TerminalCandidate {
        probe: match probe {
            Some(p) => Some(String::from_str(p)),
            None => None,
        },
        command: simple_command(program, args),
    }
}

/// Plans opening the CLI at `path` in a terminal with the proxy variables set.
pub fn spawn_cli_in_terminal(path: &str, platform: Platform) -> (res: TerminalPlan)
    ensures
        res@ == terminal_plan(path@, platform),
{
    match platform {
        Platform::Windows => {
            let quoted = replace_char_with(path, '\'', "''");
            let script = String::from_str(
                "$env:HTTP_PROXY='http://127.0.0.1:8047'; $env:HTTPS_PROXY='http://127.0.0.1:8047'; $env:ALL_PROXY='http://127.0.0.1:8047'; $env:NO_PROXY='localhost,127.0.0.1'; & '",
            ).concat(quoted.as_str()).concat("'");
            let s = script.as_str();
            let c1 = candidate(Some("wt.exe"), "wt.exe", &["powershell.exe", "-NoExit", "-Command", s]);
            let c2 = candidate(
                None,
                "cmd.exe",
                &["/c", "start", "powershell.exe", "-NoExit", "-Command", s],
            );
            let res = TerminalPlan {
                probe_program: String::from_str("where"),
                candidates: vec![c1, c2],
                last_error_prefix: Some(String::from_str("Failed to spawn PowerShell: ")),
                exhausted_error: String::new(),
            };
            proof {
                assert(["powershell.exe", "-NoExit", "-Command", s]@.map_values(|x: &str| x@)
                    =~= seq!["powershell.exe"@, "-NoExit"@, "-Command"@, s@]);
                assert(["/c", "start", "powershell.exe", "-NoExit", "-Command", s]@.map_values(|x: &str| x@)
                    =~= seq!["/c"@, "start"@, "powershell.exe"@, "-NoExit"@, "-Command"@, s@]);
                assert(res@.candidates =~= terminal_plan(path@, platform).candidates);
                reveal_strlit("");
                assert(res@.exhausted_error =~= ""@);
            }
            res
        },
        Platform::MacOs => {
            let escaped = replace_char_with(path, '\\', "\\\\");
            let escaped = replace_char_with(escaped.as_str(), '"', "\\\"");
            let script = String::from_str(
                "tell application \"Terminal\"\nactivate\ndo script \"export HTTP_PROXY=http://127.0.0.1:8047 HTTPS_PROXY=http://127.0.0.1:8047 ALL_PROXY=http://127.0.0.1:8047 NO_PROXY=localhost,127.0.0.1; \\\"",
            ).concat(escaped.as_str()).concat("\\\"\"\nend tell");
            let s = script.as_str();
            let c = candidate(None, "osascript", &["-e", s]);
            let res = TerminalPlan {
                probe_program: String::from_str("which"),
                candidates: vec![c],
                last_error_prefix: Some(String::from_str("Failed to launch Terminal via osascript: ")),
                exhausted_error: String::new(),
            };
            proof {
                assert(["-e", s]@.map_values(|x: &str| x@) =~= seq!["-e"@, s@]);
                assert(res@.candidates =~= terminal_plan(path@, platform).candidates);
                reveal_strlit("");
                assert(res@.exhausted_error =~= ""@);
            }
            res
        },
        Platform::Linux => {
            let quoted = replace_char_with(path, '"', "\\\"");
            let script = String::from_str(
                "export HTTP_PROXY=http://127.0.0.1:8047 HTTPS_PROXY=http://127.0.0.1:8047 ALL_PROXY=http://127.0.0.1:8047 NO_PROXY=localhost,127.0.0.1; \"",
            ).concat(quoted.as_str()).concat("\"; exec $SHELL");
            let s = script.as_str();
            let xfce = String::from_str("bash -c '").concat(s).concat("'");
            let c1 = candidate(Some("x-terminal-emulator"), "x-terminal-emulator", &["-e", "bash", "-c", s]);
            let c2 = candidate(Some("gnome-terminal"), "gnome-terminal", &["--", "bash", "-c", s]);
            let c3 = candidate(Some("konsole"), "konsole", &["-e", "bash", "-c", s]);
            let x = xfce.as_str();
            let c4 = candidate(Some("xfce4-terminal"), "xfce4-terminal", &["-e", x]);
            let c5 = candidate(Some("alacritty"), "alacritty", &["-e", "bash", "-c", s]);
            let c6 = candidate(Some("kitty"), "kitty", &["bash", "-c", s]);
            let c7 = candidate(Some("xterm"), "xterm", &["-e", "bash", "-c", s]);
            let res = TerminalPlan {
                probe_program: String::from_str("which"),
                candidates: vec![c1, c2, c3, c4, c5, c6, c7],
                last_error_prefix: None,
                exhausted_error: String::from_str("No supported Linux terminal emulator found"),
            };
            proof {
                assert(["-e", "bash", "-c", s]@.map_values(|x: &str| x@) =~= seq!["-e"@, "bash"@, "-c"@, s@]);
                assert(["--", "bash", "-c", s]@.map_values(|x: &str| x@) =~= seq!["--"@, "bash"@, "-c"@, s@]);
                assert(["-e", x]@.map_values(|y: &str| y@) =~= seq!["-e"@, x@]);
                assert(["bash", "-c", s]@.map_values(|x: &str| x@) =~= seq!["bash"@, "-c"@, s@]);
                assert(res@.candidates =~= terminal_plan(path@, platform).candidates);
            }
            res
        },
    }
}

/// What to do after looking at terminal candidate `i`.
pub enum TerminalStep {
    /// The terminal started.
    Launched,
    /// Look at the candidate of this index next.
    TryNext(usize),
    /// Give up with this error.
    Fail(String),
}

/// The step after candidate `i`: skipped when its probe found nothing,
/// launched when it started, otherwise the next candidate, except that a
/// failure of the last candidate to start ends with the plan's last error
/// prefix and the failure's text where the plan has one.
pub open spec fn terminal_step_spec(
    plan: TerminalPlanView,
    i: int,
    available: bool,
    spawn_error: Option<Seq<char>>,
) -> Result<Option<int>, Seq<char>> {
    let skipped = plan.candidates[i].probe is Some && !available;
    let last = i == plan.candidates.len() - 1;
    if !skipped && spawn_error is None {
        Ok(None)
    } else if !skipped && last && plan.last_error_prefix is Some {
        Err(plan.last_error_prefix->0 + spawn_error->0)
    } else if last {
        Err(plan.exhausted_error)
    } else {
        Ok(Some(i + 1))
    }
}

/// Decides the step after terminal candidate `i` was looked at: `available`
/// is whether its probe found it (ignored without a probe), `spawn_error`
/// the text of the failure to start it, if it was started and failed.
pub fn terminal_step(plan: &TerminalPlan, i: usize, available: bool, spawn_error: Option<&str>) -> (res: TerminalStep)
    requires
        i < plan.candidates@.len(),
    ensures
        match terminal_step_spec(plan@, i as int, available, match spawn_error {
            Some(e) => Some(e@),
            None => None,
        }) {
            Ok(None) => res is Launched,
            Ok(Some(j)) => res matches TerminalStep::TryNext(k) && k == j,
            Err(msg) => res matches TerminalStep::Fail(m) && m@ == msg,
        },
{
    let skipped = plan.candidates[i].probe.is_some() && !available;
    let last = i == plan.candidates.len() - 1;
    if !skipped && spawn_error.is_none() {
        TerminalStep::Launched
    } else if !skipped && last && plan.last_error_prefix.is_some() {
        let prefix = plan.last_error_prefix.as_ref().unwrap();
        let e = spawn_error.unwrap();
        TerminalStep::Fail(prefix.clone().concat(e))
    } else if last {
        TerminalStep::Fail(plan.exhausted_error.clone())
    } else {
        TerminalStep::TryNext(i + 1)
    }
}


/// How a tool is started once its executable is known.
pub enum LaunchAction {
    /// Open a terminal running the CLI.
    Terminal(TerminalPlan),
    /// Start a process; a failure to start it is reported after
    /// `spawn_error_prefix`; with `settings_first` the IDE settings are
    /// pointed at the proxy before.
    Process { command: ProcessCommand, spawn_error_prefix: String, settings_first: bool },
}

/// Mathematical view of [`LaunchAction`].
pub enum LaunchView {
    Terminal(TerminalPlanView),
    Process { command: CommandView, spawn_error_prefix: Seq<char>, settings_first: bool },
}

impl View for LaunchAction {
    type V = LaunchView;

    open spec fn view(&self) -> LaunchView {
        match self {
            LaunchAction::Terminal(p) => LaunchView::Terminal(p@),
            LaunchAction::Process { command, spawn_error_prefix, settings_first } => LaunchView::Process {
                command: command@,
                spawn_error_prefix: spawn_error_prefix@,
                settings_first: *settings_first,
            },
        }
    }
}

/// The `Debug` text of a path, as `format!("{:?}", Path::new(p))` writes it.
pub uninterp spec fn path_debug_text(p: Seq<char>) -> Seq<char>;

/// Formats `std::path::Path::new(p)` with `{:?}` (a quoted, escaped string).
#[verifier::external_body]
pub(crate) fn path_debug(p: &str) -> (res: String)
    ensures
        res@ == path_debug_text(p@),
{
    format!("{:?}", std::path::Path::new(p))
}

/// The proxy variables set for a launched tool.
pub open spec fn proxy_env(names: Seq<Seq<char>>) -> Seq<(Seq<char>, Seq<char>)> {
    names.map_values(|n: Seq<char>| (n, proxy_address()))
}

/// The proxy variables a launched IDE or desktop app gets: every request
/// through the local proxy, except those to the machine itself.
pub open spec fn ide_proxy_env() -> Seq<(Seq<char>, Seq<char>)> {
    proxy_env(seq!["HTTP_PROXY"@, "HTTPS_PROXY"@, "ALL_PROXY"@]).push(("NO_PROXY"@, "localhost,127.0.0.1"@))
}

/// What starting a tool whose executable (application bundle on macOS) is
/// `path` does, given whether `path` exists.
pub open spec fn launch_plan(ide_type: Seq<char>, platform: Platform, path: Seq<char>, exists: bool) -> Result<LaunchView, Seq<char>> {
    if is_cli(ide_type) {
        if !exists {
            Err("Antigravity CLI binary not found at: "@ + path)
        } else {
            Ok(LaunchView::Terminal(terminal_plan(path, platform)))
        }
    } else {
        match platform {
            Platform::Windows => if !exists {
                Err("Executable not found at path: "@ + path)
            } else {
                Ok(LaunchView::Process {
                    command: CommandView {
                        program: path,
                        args: proxy_flags(),
                        env: ide_proxy_env(),
                        stdin: None,
                    },
                    spawn_error_prefix: "Failed to spawn executable "@ + path + ": "@,
                    settings_first: false,
                })
            },
            Platform::MacOs => if !exists {
                Err("Application bundle not found at: "@ + path_debug_text(path))
            } else {
                Ok(LaunchView::Process {
                    command: CommandView {
                        program: "open"@,
                        args: seq!["-n"@, path, "--args"@] + proxy_flags(),
                        env: ide_proxy_env(),
                        stdin: None,
                    },
                    spawn_error_prefix: "Failed to launch macOS application: "@,
                    settings_first: false,
                })
            },
            Platform::Linux => Ok(LaunchView::Process {
                command: CommandView {
                    program: path,
                    args: proxy_flags(),
                    env: ide_proxy_env(),
                    stdin: None,
                },
                spawn_error_prefix: "Failed to spawn Linux binary: "@,
                settings_first: true,
            }),
        }
    }
}

fn env_pair(name: &str, value: &str) -> (res: (String, String))
    ensures
        res.0@ == name@,
        res.1@ == value@,
{
    (String::from_str(name), String::from_str(value))
}

/// Plans starting a tool with the proxy configured. `path` is the
/// executable (the CLI, or on macOS the application bundle) and `exists`
/// whether it is there. The CLI opens in a terminal; the IDE and the desktop
/// app start with the proxy flags and variables. A missing executable is an
/// error (on Linux the IDE is started regardless).
pub fn start_antigravity_ide(ide_type: &str, platform: Platform, path: &str, exists: bool) -> (res: Result<LaunchAction, String>)
    ensures
        match launch_plan(ide_type@, platform, path@, exists) {
            Ok(v) => res matches Ok(a) && a@ == v,
            Err(e) => res matches Err(m) && m@ == e,
        },
{
    let addr = "http://127.0.0.1:8047";
    if str_eq(ide_type, "Antigravity CLI") {
        if !exists {
            return Err(String::from_str("Antigravity CLI binary not found at: ").concat(path));
        }
        return Ok(LaunchAction::Terminal(spawn_cli_in_terminal(path, platform)));
    }
    match platform {
        Platform::Windows => {
            if !exists {
                return Err(String::from_str("Executable not found at path: ").concat(path));
            }
            let command = ProcessCommand {
                program: String::from_str(path),
                args: vec![
                    String::from_str("--proxy-server=http://127.0.0.1:8047"),
                    String::from_str("--proxy-bypass-list=<-loopback>"),
                ],
                env: vec![
                    env_pair("HTTP_PROXY", addr),
                    env_pair("HTTPS_PROXY", addr),
                    env_pair("ALL_PROXY", addr),
                    env_pair("NO_PROXY", "localhost,127.0.0.1"),
                ],
                stdin: None,
            };
            let prefix = String::from_str("Failed to spawn executable ").concat(path).concat(": ");
            let res = LaunchAction::Process { command, spawn_error_prefix: prefix, settings_first: false };
            proof {
                match launch_plan(ide_type@, platform, path@, exists) {
                    Ok(LaunchView::Process { command: c, .. }) => {
                        assert(res@->Process_command.args =~= c.args);
                        assert(res@->Process_command.env =~= c.env);
                    },
                    _ => {},
                }
            }
            Ok(res)
        },
        Platform::MacOs => {
            if !exists {
                return Err(String::from_str("Application bundle not found at: ").concat(path_debug(path).as_str()));
            }
            let command = ProcessCommand {
                program: String::from_str("open"),
                args: vec![
                    String::from_str("-n"),
                    String::from_str(path),
                    String::from_str("--args"),
                    String::from_str("--proxy-server=http://127.0.0.1:8047"),
                    String::from_str("--proxy-bypass-list=<-loopback>"),
                ],
                env: vec![
                    env_pair("HTTP_PROXY", addr),
                    env_pair("HTTPS_PROXY", addr),
                    env_pair("ALL_PROXY", addr),
                    env_pair("NO_PROXY", "localhost,127.0.0.1"),
                ],
                stdin: None,
            };
            let res = LaunchAction::Process {
                command,
                spawn_error_prefix: String::from_str("Failed to launch macOS application: "),
                settings_first: false,
            };
            proof {
                match launch_plan(ide_type@, platform, path@, exists) {
                    Ok(LaunchView::Process { command: c, .. }) => {
                        assert(res@->Process_command.args =~= c.args);
                        assert(res@->Process_command.env =~= c.env);
                    },
                    _ => {},
                }
            }
            Ok(res)
        },
        Platform::Linux => {
            let command = ProcessCommand {
                program: String::from_str(path),
                args: vec![
                    String::from_str("--proxy-server=http://127.0.0.1:8047"),
                    String::from_str("--proxy-bypass-list=<-loopback>"),
                ],
                env: vec![
                    env_pair("HTTP_PROXY", addr),
                    env_pair("HTTPS_PROXY", addr),
                    env_pair("ALL_PROXY", addr),
                    env_pair("NO_PROXY", "localhost,127.0.0.1"),
                ],
                stdin: None,
            };
            let res = LaunchAction::Process {
                command,
                spawn_error_prefix: String::from_str("Failed to spawn Linux binary: "),
                settings_first: true,
            };
            proof {
                match launch_plan(ide_type@, platform, path@, exists) {
                    Ok(LaunchView::Process { command: c, .. }) => {
                        assert(res@->Process_command.args =~= c.args);
                        assert(res@->Process_command.env =~= c.env);
                    },
                    _ => {},
                }
            }
            Ok(res)
        },
    }
}

/// Where the executable of a tool comes from.
#[derive(Clone, PartialEq, Eq)]
pub enum ExecutableSource {
    /// The path the user chose.
    Given(String),
    /// The CLI's default location (see [`get_default_cli_path`]).
    DefaultCli,
    /// The application bundle (see [`get_app_bundle_path`]).
    AppBundle,
    /// The default install location on Windows (see [`get_default_windows_ide_path`]).
    DefaultWindows,
    /// The default install location on Linux (see [`get_default_linux_ide_path`]).
    DefaultLinux,
}

/// Where a tool's executable comes from: a non-empty user-chosen path wins,
/// except for the IDE and the desktop app on macOS, which start from their
/// application bundle.
pub open spec fn executable_source_spec(ide_type: Seq<char>, platform: Platform, custom: Option<Seq<char>>) -> (Option<Seq<char>>, ExecutableSourceKind) {
    if !is_cli(ide_type) && platform == Platform::MacOs {
        (None, ExecutableSourceKind::AppBundle)
    } else {
        match chosen_custom_path(custom) {
            Some(p) => (Some(p), ExecutableSourceKind::Given),
            None => (None, if is_cli(ide_type) {
                ExecutableSourceKind::DefaultCli
            } else if platform == Platform::Windows {
                ExecutableSourceKind::DefaultWindows
            } else {
                ExecutableSourceKind::DefaultLinux
            }),
        }
    }
}

/// The variants of [`ExecutableSource`] without their data.
pub enum ExecutableSourceKind {
    Given,
    DefaultCli,
    AppBundle,
    DefaultWindows,
    DefaultLinux,
}

/// The kind and the given path of an [`ExecutableSource`].
pub open spec fn source_view(s: ExecutableSource) -> (Option<Seq<char>>, ExecutableSourceKind) {
    match s {
        ExecutableSource::Given(p) => (Some(p@), ExecutableSourceKind::Given),
        ExecutableSource::DefaultCli => (None, ExecutableSourceKind::DefaultCli),
        ExecutableSource::AppBundle => (None, ExecutableSourceKind::AppBundle),
        ExecutableSource::DefaultWindows => (None, ExecutableSourceKind::DefaultWindows),
        ExecutableSource::DefaultLinux => (None, ExecutableSourceKind::DefaultLinux),
    }
}

/// Where the executable of a tool comes from (see [`executable_source_spec`]).
pub fn executable_source(ide_type: &str, platform: Platform, custom: Option<&str>) -> (res: ExecutableSource)
    ensures
        source_view(res) == executable_source_spec(ide_type@, platform, match custom {
            Some(c) => Some(c@),
            None => None,
        }),
{
    let cli = str_eq(ide_type, "Antigravity CLI");
    if !cli && platform == Platform::MacOs {
        return ExecutableSource::AppBundle;
    }
    match custom_path(custom) {
        Some(p) => ExecutableSource::Given(p),
        None => if cli {
            ExecutableSource::DefaultCli
        } else if platform == Platform::Windows {
            ExecutableSource::DefaultWindows
        } else {
            ExecutableSource::DefaultLinux
        },
    }
}

/// The IDE and the desktop app on Linux get their settings pointed at the
/// proxy before their executable is looked up.
pub fn settings_injected_first(ide_type: &str, platform: Platform) -> (res: bool)
    ensures
        res == (!is_cli(ide_type@) && platform == Platform::Linux),
        res == (launch_plan(ide_type@, platform, Seq::empty(), false) matches Ok(LaunchView::Process { settings_first, .. }) && settings_first),
{
    !str_eq(ide_type, "Antigravity CLI") && platform == Platform::Linux
}

/// Whether `ide_type` names the command-line tool.
pub fn is_cli_tool(ide_type: &str) -> (res: bool)
    ensures
        res == is_cli(ide_type@),
{
    str_eq(ide_type, "Antigravity CLI")
}

/// A user-chosen executable path counts only when it is not empty.
pub open spec fn chosen_custom_path(custom: Option<Seq<char>>) -> Option<Seq<char>> {
    match custom {
        Some(p) => if p.len() > 0 { Some(p) } else { None },
        None => None,
    }
}

/// The user-chosen executable path, where one was given and is not empty.
pub fn custom_path(custom: Option<&str>) -> (res: Option<String>)
    ensures
        match chosen_custom_path(match custom {
            Some(p) => Some(p@),
            None => None,
        }) {
            Some(p) => res matches Some(s) && s@ == p,
            None => res is None,
        },
{
    match custom {
        Some(p) => if p.unicode_len() > 0 {
            Some(String::from_str(p))
        } else {
            None
        },
        None => None,
    }
}

/// Default install location of the IDE or the desktop app on Windows, under
/// the local application data directory `local_app_data`.
pub fn get_default_windows_ide_path(ide_type: &str, local_app_data: &str) -> (res: String)
    ensures
        res@ == local_app_data@ + (if is_desktop_app(ide_type@) {
            "\\Programs\\antigravity\\Antigravity.exe"@
        } else {
            "\\Programs\\Antigravity IDE\\Antigravity IDE.exe"@
        }),
{
    if str_eq(ide_type, "Antigravity 2.0") {
        String::from_str(local_app_data).concat("\\Programs\\antigravity\\Antigravity.exe")
    } else {
        String::from_str(local_app_data).concat("\\Programs\\Antigravity IDE\\Antigravity IDE.exe")
    }
}

/// Where the IDE or the desktop app may be installed on Linux, in order of preference.
pub open spec fn linux_ide_candidates(ide_type: Seq<char>) -> Seq<PathView> {
    let name = if is_desktop_app(ide_type) { "antigravity"@ } else { "antigravity-ide"@ };
    seq![
        PathView { base: PathBaseView::HomeOrEmpty, parts: seq![".local/bin/"@ + name] },
        PathView { base: PathBaseView::Fixed("/usr/bin/"@ + name), parts: seq![] },
        PathView { base: PathBaseView::Fixed("/usr/local/bin/"@ + name), parts: seq![] },
    ]
}

/// The candidate install locations of the IDE or the desktop app on Linux.
pub fn linux_ide_path_candidates(ide_type: &str) -> (res: Vec<PathSpec>)
    ensures
        paths_view(res@) == linux_ide_candidates(ide_type@),
{
    let name = if str_eq(ide_type, "Antigravity 2.0") { "antigravity" } else { "antigravity-ide" };
    let local = String::from_str(".local/bin/").concat(name);
    let l = local.as_str();
    let res = vec![
        path_spec(PathBase::HomeOrEmpty, &[l]),
        path_spec(PathBase::Fixed(String::from_str("/usr/bin/").concat(name)), &[]),
        path_spec(PathBase::Fixed(String::from_str("/usr/local/bin/").concat(name)), &[]),
    ];
    proof {
        assert([l]@.map_values(|s: &str| s@) =~= seq![l@]);
        assert(res@[1]@.parts =~= Seq::<Seq<char>>::empty());
        assert(res@[2]@.parts =~= Seq::<Seq<char>>::empty());
        assert(paths_view(res@) =~= linux_ide_candidates(ide_type@));
    }
    res
}

/// Picks the Linux install location: the first candidate that exists, else
/// the first candidate. `resolved` are the candidates as paths.
pub fn get_default_linux_ide_path(resolved: &Vec<String>, exists: &Vec<bool>) -> (res: Result<String, String>)
    requires
        resolved@.len() == exists@.len(),
    ensures
        resolved@.len() == 0 ==> (res matches Err(e) && e@ == "Antigravity executable not found on Linux"@),
        resolved@.len() > 0 ==> (res matches Ok(p) && p@ == resolved@[match first_existing_index(exists@) {
            Some(i) => i,
            None => 0,
        }]@),
{
    match first_existing(exists) {
        Some(i) => Ok(resolved[i].clone()),
        None => if resolved.len() > 0 {
            Ok(resolved[0].clone())
        } else {
            Err(String::from_str("Antigravity executable not found on Linux"))
        },
    }
}


/// Where the CLI is installed by default.
pub open spec fn cli_home_candidate(platform: Platform) -> PathView {
    if platform == Platform::Windows {
        PathView {
            base: PathBaseView::EnvOrEmpty("USERPROFILE"@),
            parts: seq![".antigravity"@, "bin"@, "agy.exe"@],
        }
    } else {
        PathView { base: PathBaseView::Home, parts: seq![".antigravity/bin/agy"@] }
    }
}

/// The default install location of the CLI.
pub fn cli_path_candidate(platform: Platform) -> (res: PathSpec)
    ensures
        res@ == cli_home_candidate(platform),
{
    if platform == Platform::Windows {
        let res = path_spec(PathBase::EnvOrEmpty(String::from_str("USERPROFILE")), &[".antigravity", "bin", "agy.exe"]);
        assert(res@.parts =~= seq![".antigravity"@, "bin"@, "agy.exe"@]);
        res
    } else {
        let res = path_spec(PathBase::Home, &[".antigravity/bin/agy"]);
        assert(res@.parts =~= seq![".antigravity/bin/agy"@]);
        res
    }
}

/// The command that looks the CLI up on the search path.
pub fn cli_lookup_command(platform: Platform) -> (res: ProcessCommand)
    ensures
        res@ == (if platform == Platform::Windows {
            command_view("where"@, seq!["agy.exe"@])
        } else {
            command_view("which"@, seq!["agy"@])
        }),
{
    if platform == Platform::Windows {
        let res = simple_command("where", &["agy.exe"]);
        assert(res@.args =~= seq!["agy.exe"@]);
        res
    } else {
        let res = simple_command("which", &["agy"]);
        assert(res@.args =~= seq!["agy"@]);
        res
    }
}

/// The CLI's path: the default install location where it exists, else the
/// first line of a successful search-path lookup when that line is not
/// blank, else the default location (Windows) or `/usr/local/bin/agy`.
pub open spec fn cli_path_choice(
    platform: Platform,
    candidate: Option<Seq<char>>,
    candidate_exists: bool,
    lookup: Option<Seq<char>>,
) -> Seq<char> {
    let found = match lookup {
        Some(out) => trimmed(first_line(out)),
        None => Seq::empty(),
    };
    if candidate is Some && candidate_exists {
        candidate->0
    } else if found.len() > 0 {
        found
    } else if platform == Platform::Windows {
        candidate->0
    } else {
        "/usr/local/bin/agy"@
    }
}

/// Resolves the CLI's path. `candidate` is the default install location
/// (none without a home directory), `candidate_exists` whether it exists,
/// `lookup` the output of a successful [`cli_lookup_command`].
pub fn get_default_cli_path(
    platform: Platform,
    candidate: Option<&str>,
    candidate_exists: bool,
    lookup: Option<&str>,
) -> (res: String)
    requires
        platform == Platform::Windows ==> candidate is Some,
    ensures
        res@ == cli_path_choice(platform, match candidate {
            Some(c) => Some(c@),
            None => None,
        }, candidate_exists, match lookup {
            Some(o) => Some(o@),
            None => None,
        }),
{
    if candidate.is_some() && candidate_exists {
        return String::from_str(candidate.unwrap());
    }
    if let Some(out) = lookup {
        let p = trim(first_line_of(out));
        if p.unicode_len() > 0 {
            return String::from_str(p);
        }
    }
    if platform == Platform::Windows {
        String::from_str(candidate.unwrap())
    } else {
        String::from_str("/usr/local/bin/agy")
    }
}

/// Where the runtime resources of the IDE or the desktop app may be, in
/// order: on macOS inside the application bundle `bundle`; elsewhere next to
/// a user-chosen executable (whose directory is `custom_parent`), then under
/// the default install location.
pub open spec fn resource_candidates(
    ide_type: Seq<char>,
    platform: Platform,
    bundle: Seq<char>,
    custom: Option<Seq<char>>,
    custom_parent: Option<Seq<char>>,
) -> Seq<PathView> {
    let beside_custom = if chosen_custom_path(custom) is Some && custom_parent is Some {
        seq![PathView { base: PathBaseView::Fixed(custom_parent->0), parts: seq!["resources"@] }]
    } else {
        Seq::empty()
    };
    match platform {
        Platform::MacOs => seq![PathView { base: PathBaseView::Fixed(bundle), parts: seq!["Contents/Resources"@] }],
        Platform::Windows => beside_custom.push(PathView {
            base: PathBaseView::EnvOrEmpty("LOCALAPPDATA"@),
            parts: seq![
                "Programs"@,
                if is_desktop_app(ide_type) { "antigravity"@ } else { "Antigravity IDE"@ },
                "resources"@,
            ],
        }),
        Platform::Linux => {
            let folder = if is_desktop_app(ide_type) { "antigravity"@ } else { "antigravity-ide"@ };
            beside_custom + seq![
                PathView { base: PathBaseView::Fixed("/usr/share/"@ + folder + "/resources"@), parts: seq![] },
                PathView { base: PathBaseView::Fixed("/opt/"@ + folder + "/resources"@), parts: seq![] },
            ]
        },
    }
}

/// The candidate locations of the runtime resources of the IDE or the desktop
/// app; the first that exists is the one. `custom_parent` is the directory of
/// the user-chosen executable, where it has one.
pub fn get_ide_resources_path(
    ide_type: &str,
    platform: Platform,
    bundle: &str,
    custom: Option<&str>,
    custom_parent: Option<&str>,
) -> (res: Vec<PathSpec>)
    ensures
        paths_view(res@) == resource_candidates(ide_type@, platform, bundle@, match custom {
            Some(c) => Some(c@),
            None => None,
        }, match custom_parent {
            Some(c) => Some(c@),
            None => None,
        }),
{
    let empty: [&str; 0] = [];
    let ghost expected = resource_candidates(ide_type@, platform, bundle@, match custom {
        Some(c) => Some(c@),
        None => None,
    }, match custom_parent {
        Some(c) => Some(c@),
        None => None,
    });
    match platform {
        Platform::MacOs => {
            let res = vec![path_spec(PathBase::Fixed(String::from_str(bundle)), &["Contents/Resources"])];
            proof {
                assert(res@[0]@.parts =~= seq!["Contents/Resources"@]);
                assert(paths_view(res@) =~= expected);
            }
            res
        },
        _ => {
            let mut res: Vec<PathSpec> = Vec::new();
            let custom_chosen = custom_path(custom);
            if custom_chosen.is_some() && custom_parent.is_some() {
                let p = path_spec(PathBase::Fixed(String::from_str(custom_parent.unwrap())), &["resources"]);
                assert(p@.parts =~= seq!["resources"@]);
                res.push(p);
            }
            let desktop = str_eq(ide_type, "Antigravity 2.0");
            if platform == Platform::Windows {
                let folder = if desktop { "antigravity" } else { "Antigravity IDE" };
                let p = path_spec(PathBase::EnvOrEmpty(String::from_str("LOCALAPPDATA")), &["Programs", folder, "resources"]);
                assert(p@.parts =~= seq!["Programs"@, folder@, "resources"@]);
                res.push(p);
            } else {
                let folder = if desktop { "antigravity" } else { "antigravity-ide" };
                let p1 = path_spec(
                    PathBase::Fixed(String::from_str("/usr/share/").concat(folder).concat("/resources")),
                    &empty,
                );
                let p2 = path_spec(
                    PathBase::Fixed(String::from_str("/opt/").concat(folder).concat("/resources")),
                    &empty,
                );
                assert(p1@.parts =~= Seq::<Seq<char>>::empty());
                assert(p2@.parts =~= Seq::<Seq<char>>::empty());
                res.push(p1);
                res.push(p2);
            }
            assert(paths_view(res@) =~= expected);
            res
        },
    }
}

/// File name of the application bundle of the IDE or the desktop app.
pub open spec fn bundle_name(ide_type: Seq<char>) -> Seq<char> {
    if is_desktop_app(ide_type) { "Antigravity.app"@ } else { "Antigravity IDE.app"@ }
}

/// The system-wide and the per-user location of the application bundle.
pub fn app_bundle_locations(ide_type: &str) -> (res: (String, PathSpec))
    ensures
        res.0@ == "/Applications/"@ + bundle_name(ide_type@),
        res.1@ == (PathView { base: PathBaseView::Home, parts: seq!["Applications/"@ + bundle_name(ide_type@)] }),
{
    let name = if str_eq(ide_type, "Antigravity 2.0") { "Antigravity.app" } else { "Antigravity IDE.app" };
    let user = String::from_str("Applications/").concat(name);
    let u = user.as_str();
    let p = path_spec(PathBase::Home, &[u]);
    assert(p@.parts =~= seq![u@]);
    (String::from_str("/Applications/").concat(name), p)
}

/// The application bundle on macOS. With a user-chosen path: the path
/// itself where it has the `app` extension, else its nearest ancestor that
/// has it, else the path. Without: the system-wide bundle where it exists,
/// else the per-user one where it exists, else the system-wide location.
pub open spec fn app_bundle_choice(
    ide_type: Seq<char>,
    custom: Option<Seq<char>>,
    global_exists: bool,
    user_app: Option<(Seq<char>, bool)>,
) -> Seq<char> {
    match chosen_custom_path(custom) {
        Some(p) => bundle_around(p),
        None => if global_exists {
            "/Applications/"@ + bundle_name(ide_type)
        } else if user_app matches Some(u) && u.1 {
            user_app.unwrap().0
        } else {
            "/Applications/"@ + bundle_name(ide_type)
        },
    }
}

/// Resolves the application bundle on macOS. `global_exists` tells whether
/// the system-wide bundle exists; `user_app` is the per-user bundle location
/// (none without a home directory) with whether it exists.
pub fn get_app_bundle_path(
    ide_type: &str,
    custom: Option<&str>,
    global_exists: bool,
    user_app: Option<(&str, bool)>,
) -> (res: String)
    ensures
        res@ == app_bundle_choice(ide_type@, match custom {
            Some(c) => Some(c@),
            None => None,
        }, global_exists, match user_app {
            Some(u) => Some((u.0@, u.1)),
            None => None,
        }),
{
    let (global, _) = app_bundle_locations(ide_type);
    match custom_path(custom) {
        Some(p) => bundle_around_path(p.as_str()),
        None => {
            if global_exists {
                global
            } else if user_app.is_some() && user_app.unwrap().1 {
                String::from_str(user_app.unwrap().0)
            } else {
                global
            }
        },
    }
}


/// A non-empty user-chosen executable is the one started, for every tool on
/// Windows and Linux and for the CLI on macOS; the IDE and the desktop app
/// on macOS start from their application bundle whatever was chosen.
pub proof fn law_chosen_executable_is_launched(ide_type: Seq<char>, platform: Platform, path: Seq<char>)
    ensures
        path.len() > 0 && (platform != Platform::MacOs || ide_type == "Antigravity CLI"@) ==> executable_source_spec(
            ide_type,
            platform,
            Some(path),
        ) == (Some(path), ExecutableSourceKind::Given),
        platform == Platform::MacOs && ide_type != "Antigravity CLI"@ ==> executable_source_spec(
            ide_type,
            platform,
            Some(path),
        ) == (None::<Seq<char>>, ExecutableSourceKind::AppBundle),
{
}

/// The CLI's path on every platform: the default install location where it
/// exists; else the trimmed first line of a successful search-path lookup
/// where that line is not blank; else the default location on Windows and
/// `/usr/local/bin/agy` elsewhere.
pub proof fn law_cli_path(
    platform: Platform,
    candidate: Option<Seq<char>>,
    candidate_exists: bool,
    lookup: Option<Seq<char>>,
)
    ensures
        (candidate is Some && candidate_exists) ==> cli_path_choice(platform, candidate, candidate_exists, lookup)
            == candidate->0,
        (!(candidate is Some && candidate_exists) && lookup is Some && trimmed(first_line(lookup->0)).len() > 0)
            ==> cli_path_choice(platform, candidate, candidate_exists, lookup) == trimmed(first_line(lookup->0)),
        (!(candidate is Some && candidate_exists) && (lookup is None || trimmed(first_line(lookup->0)).len()
            == 0)) ==> cli_path_choice(platform, candidate, candidate_exists, lookup) == (if platform
            == Platform::Windows {
            candidate->0
        } else {
            "/usr/local/bin/agy"@
        }),
{
}

} // verus!
