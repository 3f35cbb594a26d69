//! The shared local proxy: whether it runs, stopping it, and planning a
//! launch request (start the proxy once, then start the tools).

use vstd::prelude::*;
use crate::text::{str_eq, strip_suffix_all, trim_end_matches, has_suffix};
use crate::platform::strings_view;

verus! {

/// Port the local proxy listens on.
pub const LOCAL_PROXY_PORT: u16 = 8047;

/// Lifecycle of the local proxy: whether it runs, whether a shutdown signal
/// can still be sent to it, and the session it belongs to.
pub struct ProxyState {
    running: bool,
    shutdown_armed: bool,
    session_id: u64,
}

/// Mathematical view of [`ProxyState`].
pub struct ProxyStateView {
    pub running: bool,
    pub shutdown_armed: bool,
    pub session_id: u64,
}

impl View for ProxyState {
    type V = ProxyStateView;

    closed spec fn view(&self) -> ProxyStateView {
        ProxyStateView {
            running: self.running,
            shutdown_armed: self.shutdown_armed,
            session_id: self.session_id,
        }
    }
}

impl ProxyState {
    /// A shutdown signal is only held for a running proxy.
    #[verifier::type_invariant]
    spec fn armed_only_when_running(&self) -> bool {
        self.shutdown_armed ==> self.running
    }

    /// No proxy running, in session 0.
    pub fn new() -> (res: ProxyState)
        ensures
            res@ == (ProxyStateView { running: false, shutdown_armed: false, session_id: 0 }),
    {
        ProxyState { running: false, shutdown_armed: false, session_id: 0 }
    }

    /// Records that the proxy started and its shutdown signal is held.
    pub fn proxy_started(&mut self)
        ensures
            final(self)@ == (ProxyStateView {
                running: true,
                shutdown_armed: true,
                session_id: old(self)@.session_id,
            }),
    {
        self.running = true;
        self.shutdown_armed = true;
    }
}

/// Whether the local proxy runs.
pub fn get_proxy_status(state: &ProxyState) -> (res: bool)
    ensures
        res == state@.running,
{
    state.running
}

/// The state after stopping the proxy.
pub open spec fn stopped(s: ProxyStateView) -> ProxyStateView {
    ProxyStateView { running: false, shutdown_armed: false, session_id: s.session_id }
}

/// Stops the proxy: it no longer runs and the shutdown signal is used up.
/// Returns whether the signal is to be sent (it is sent at most once).
pub fn stop_existing_proxy(state: &mut ProxyState) -> (send_shutdown: bool)
    ensures
        send_shutdown == old(state)@.shutdown_armed,
        send_shutdown ==> old(state)@.running,
        final(state)@ == stopped(old(state)@),
{
    proof { use_type_invariant(&*state); }
    let send = state.shutdown_armed;
    state.shutdown_armed = false;
    state.running = false;
    send
}

/// Stops the proxy if it belongs to session `session_id`; otherwise nothing
/// changes. Returns whether the shutdown signal is to be sent.
pub fn stop_proxy_for_session(state: &mut ProxyState, session_id: u64) -> (send_shutdown: bool)
    ensures
        old(state)@.session_id == session_id ==> send_shutdown == old(state)@.shutdown_armed
            && final(state)@ == stopped(old(state)@),
        old(state)@.session_id != session_id ==> !send_shutdown && final(state)@ == old(state)@,
{
    if state.session_id == session_id {
        stop_existing_proxy(state)
    } else {
        false
    }
}

/// Where the proxy forwards to and with which token.
pub struct ProxyConfig {
    pub listen_port: u16,
    pub target_url: String,
    pub bearer_token: String,
}

/// What a launch request does: the gateway base URL, the proxy to start
/// first (none: the running one is reused), the tools to start in order,
/// whether a failure to start a tool fails the request, and the message on
/// success.
pub struct LaunchRequestPlan {
    pub base_url: String,
    pub start_proxy: Option<ProxyConfig>,
    pub targets: Vec<String>,
    pub fail_fast: bool,
    pub success_message: String,
}

/// The gateway base URL: the proxy URL without trailing `/v1`s.
pub open spec fn gateway_base_url(proxy_url: Seq<char>) -> Seq<char> {
    strip_suffix_all(proxy_url, "/v1"@)
}

/// The tools that a launch request for `ide_type` starts.
pub open spec fn launch_targets(ide_type: Seq<char>) -> Seq<Seq<char>> {
    if ide_type == "all"@ {
        seq!["Antigravity IDE"@, "Antigravity 2.0"@, "Antigravity CLI"@]
    } else {
        seq![ide_type]
    }
}

/// The message of a successful launch request.
pub open spec fn launch_message(ide_type: Seq<char>) -> Seq<char> {
    if ide_type == "all"@ {
        "All tools (IDE, 2.0, CLI) launched successfully with shared proxy on :8047"@
    } else {
        ide_type + " launched successfully with shared proxy on :8047"@
    }
}

/// Plans a launch request: start the proxy on port 8047 towards the gateway
/// unless it already runs, then start the requested tool, or all three for
/// `"all"` (where failures of single tools are ignored).
pub fn plan_tool_launch(state: &ProxyState, token: &str, proxy_url: &str, ide_type: &str) -> (res: LaunchRequestPlan)
    ensures
        res.base_url@ == gateway_base_url(proxy_url@),
        state@.running ==> res.start_proxy is None,
        !state@.running ==> (res.start_proxy matches Some(c) && c.listen_port == LOCAL_PROXY_PORT
            && c.target_url@ == gateway_base_url(proxy_url@) && c.bearer_token@ == token@),
        strings_view(res.targets@) == launch_targets(ide_type@),
        res.fail_fast == (ide_type@ != "all"@),
        res.success_message@ == launch_message(ide_type@),
{
    let base = String::from_str(trim_end_matches(proxy_url, "/v1"));
    let start_proxy = if !state.running {
        Some(ProxyConfig {
            listen_port: LOCAL_PROXY_PORT,
            target_url: base.clone(),
            bearer_token: String::from_str(token),
        })
    } else {
        None
    };
    let all = str_eq(ide_type, "all");
    let targets = if all {
        vec![
            String::from_str("Antigravity IDE"),
            String::from_str("Antigravity 2.0"),
            String::from_str("Antigravity CLI"),
        ]
    } else {
        vec![String::from_str(ide_type)]
    };
    assert(strings_view(targets@) =~= launch_targets(ide_type@));
    let success_message = if all {
        String::from_str("All tools (IDE, 2.0, CLI) launched successfully with shared proxy on :8047")
    } else {
        String::from_str(ide_type).concat(" launched successfully with shared proxy on :8047")
    };
    LaunchRequestPlan { base_url: base, start_proxy, targets, fail_fast: !all, success_message }
}

/// The tools whose proxy settings are restored at start-up and shutdown.
pub fn managed_tools() -> (res: Vec<String>)
    ensures
        strings_view(res@) == launch_targets("all"@),
{
    let res = vec![
        String::from_str("Antigravity IDE"),
        String::from_str("Antigravity 2.0"),
        String::from_str("Antigravity CLI"),
    ];
    assert(strings_view(res@) =~= launch_targets("all"@));
    res
}

/// The error of a launch request whose proxy failed to start.
pub fn proxy_start_failure(detail: &str) -> (res: String)
    ensures
        res@ == "Failed to start local proxy: "@ + detail@,
{
    String::from_str("Failed to start local proxy: ").concat(detail)
}

/// The result of stopping the proxy on request.
pub fn stop_proxy(state: &mut ProxyState) -> (res: (bool, String))
    ensures
        res.0 == old(state)@.shutdown_armed,
        final(state)@ == stopped(old(state)@),
        res.1@ == "Proxy stopped and original state restored"@,
{
    let send = stop_existing_proxy(state);
    (send, String::from_str("Proxy stopped and original state restored"))
}

// ---------------------------------------------------------------------------
// Laws

/// Once stopped the proxy is reported as not running, and stopping again
/// sends no second shutdown signal and changes nothing.
pub proof fn law_stop_is_final(s: ProxyStateView)
    ensures
        !stopped(s).running,
        !stopped(s).shutdown_armed,
        stopped(stopped(s)) == stopped(s),
{
}

/// The base URL never ends with `/v1`, and appending `/v1` to the proxy URL
/// first does not change it.
pub proof fn law_gateway_base_url(proxy_url: Seq<char>)
    ensures
        !has_suffix(gateway_base_url(proxy_url), "/v1"@),
        gateway_base_url(crate::settings::v1_endpoint(proxy_url)) == gateway_base_url(proxy_url),
{
    reveal_strlit("/v1");
    lemma_strip_not_suffix(proxy_url);
    if !has_suffix(proxy_url, "/v1"@) {
        let s = proxy_url + "/v1"@;
        assert(s.subrange(s.len() - 3, s.len() as int) =~= "/v1"@);
        assert(s.subrange(0, s.len() - 3) =~= proxy_url);
    }
}

proof fn lemma_strip_not_suffix(s: Seq<char>)
    ensures
        !has_suffix(strip_suffix_all(s, "/v1"@), "/v1"@),
    decreases s.len(),
{
    reveal_strlit("/v1");
    if has_suffix(s, "/v1"@) {
        lemma_strip_not_suffix(s.subrange(0, s.len() - 3));
    }
}

} // verus!
