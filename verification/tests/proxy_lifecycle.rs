use antigravity_client::proxy::{
    get_proxy_status, plan_tool_launch, proxy_start_failure, stop_existing_proxy, stop_proxy,
    stop_proxy_for_session, ProxyState, LOCAL_PROXY_PORT,
};

#[test]
fn new_proxy_is_not_running() {
    let s = ProxyState::new();
    assert!(!get_proxy_status(&s));
}

#[test]
fn start_then_stop() {
    let mut s = ProxyState::new();
    s.proxy_started();
    assert!(get_proxy_status(&s));
    assert!(stop_existing_proxy(&mut s));
    assert!(!get_proxy_status(&s));
    assert!(!stop_existing_proxy(&mut s));
    assert!(!get_proxy_status(&s));
}

#[test]
fn stop_for_session() {
    let mut s = ProxyState::new();
    s.proxy_started();
    assert!(!stop_proxy_for_session(&mut s, 7));
    assert!(get_proxy_status(&s));
    assert!(stop_proxy_for_session(&mut s, 0));
    assert!(!get_proxy_status(&s));
}

#[test]
fn stop_request_message() {
    let mut s = ProxyState::new();
    s.proxy_started();
    let (send, msg) = stop_proxy(&mut s);
    assert!(send);
    assert_eq!(msg, "Proxy stopped and original state restored");
}

#[test]
fn first_launch_starts_proxy_towards_gateway() {
    let s = ProxyState::new();
    let plan = plan_tool_launch(&s, "tok", "https://gw.example/v1", "Antigravity IDE");
    assert_eq!(plan.base_url, "https://gw.example");
    let cfg = plan.start_proxy.unwrap();
    assert_eq!(cfg.listen_port, LOCAL_PROXY_PORT);
    assert_eq!(cfg.listen_port, 8047);
    assert_eq!(cfg.target_url, "https://gw.example");
    assert_eq!(cfg.bearer_token, "tok");
    assert_eq!(plan.targets, vec!["Antigravity IDE".to_string()]);
    assert!(plan.fail_fast);
    assert_eq!(plan.success_message, "Antigravity IDE launched successfully with shared proxy on :8047");
}

#[test]
fn running_proxy_is_reused_and_all_tools_start() {
    let mut s = ProxyState::new();
    s.proxy_started();
    let plan = plan_tool_launch(&s, "tok", "https://gw/v1/v1", "all");
    assert_eq!(plan.base_url, "https://gw");
    assert!(plan.start_proxy.is_none());
    assert_eq!(plan.targets, vec!["Antigravity IDE".to_string(), "Antigravity 2.0".to_string(), "Antigravity CLI".to_string()]);
    assert!(!plan.fail_fast);
    assert_eq!(plan.success_message, "All tools (IDE, 2.0, CLI) launched successfully with shared proxy on :8047");
}

#[test]
fn proxy_failure_message() {
    assert_eq!(proxy_start_failure("port busy"), "Failed to start local proxy: port busy");
}
