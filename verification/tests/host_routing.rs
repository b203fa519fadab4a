use async_demos::host_routing::{
    namespace_request_id, resolve_host, route_response, Args, ClientMode, Command, HostRoute,
    Leader, Registration,
};
use serde_json::Value;

fn args(has_single_prompt: bool, command: Command, use_leader: bool, has_session_auth: bool) -> Args {
    Args { has_single_prompt, command, use_leader, has_session_auth }
}

#[test]
fn host_entrypoint_precedence() {
    assert_eq!(resolve_host(args(false, Command::Interactive, false, false)), Ok(HostRoute::EmbeddedInteractive));
    assert_eq!(resolve_host(args(true, Command::Headless, true, false)), Ok(HostRoute::EmbeddedSingleTurn));
    assert_eq!(resolve_host(args(false, Command::Stdio, true, false)), Ok(HostRoute::LeaderClient(ClientMode::Stdio)));
    assert_eq!(resolve_host(args(false, Command::Stdio, false, false)), Ok(HostRoute::DirectStdio));
    assert_eq!(resolve_host(args(false, Command::Headless, false, false)), Err("headless relay requires session auth"));
    assert_eq!(resolve_host(args(false, Command::Headless, false, true)), Ok(HostRoute::DirectRelay));
    assert_eq!(resolve_host(args(false, Command::Headless, true, true)), Ok(HostRoute::LeaderClient(ClientMode::Headless)));
    assert_eq!(resolve_host(args(false, Command::Leader, false, true)), Ok(HostRoute::LeaderServer));
    assert_eq!(resolve_host(args(false, Command::Interactive, true, false)), Ok(HostRoute::LeaderClient(ClientMode::Stdio)));
}

#[test]
fn host_leader_readiness_and_registrations() {
    let mut leader = Leader::default();
    leader.registrations.insert(7, Registration { code_navigation: true });
    leader.registrations.insert(8, Registration { code_navigation: false });
    leader.sessions.insert("session-shared");
    assert_eq!(leader.accept_request(), Err("leader_starting"));
    leader.ready = true;
    assert_eq!(leader.accept_request(), Ok(()));
    assert!(leader.registrations[&7].code_navigation);
    assert!(!leader.registrations[&8].code_navigation);

    leader.disconnect(7);
    assert!(!leader.registrations.contains_key(&7));
    assert!(leader.registrations.contains_key(&8));
    assert!(leader.sessions.contains("session-shared"));
}

#[test]
fn host_request_ids_are_namespaced_and_routed_back() {
    let mut request_a: Value = serde_json::from_str(r#"{"jsonrpc":"2.0","id":1,"method":"prompt"}"#).unwrap();
    let mut request_b: Value = serde_json::from_str(r#"{"jsonrpc":"2.0","id":"same","method":"prompt"}"#).unwrap();
    assert_eq!(namespace_request_id(&mut request_a, 7).unwrap(), "7|1");
    assert_eq!(namespace_request_id(&mut request_b, 8).unwrap(), "8|\"same\"");
    assert_eq!(request_a["method"], "prompt");

    let mut response_b: Value = serde_json::from_str(r#"{"id":null,"result":{}}"#).unwrap();
    response_b["id"] = request_b["id"].clone();
    let mut response_a: Value = serde_json::from_str(r#"{"id":null,"result":{}}"#).unwrap();
    response_a["id"] = request_a["id"].clone();
    assert_eq!(route_response(&mut response_b), Some(8));
    assert_eq!(response_b["id"], "same");
    assert_eq!(route_response(&mut response_a), Some(7));
    assert_eq!(response_a["id"], 1);
}

#[test]
fn host_malformed_ids_are_not_routed() {
    let mut no_id: Value = serde_json::from_str(r#"{"method":"x"}"#).unwrap();
    assert_eq!(namespace_request_id(&mut no_id, 1), None);
    assert_eq!(route_response(&mut no_id), None);
    let mut numeric: Value = serde_json::from_str(r#"{"id":5}"#).unwrap();
    assert_eq!(route_response(&mut numeric), None);
    assert_eq!(numeric["id"], 5);
    let mut no_bar: Value = serde_json::from_str(r#"{"id":"plain"}"#).unwrap();
    assert_eq!(route_response(&mut no_bar), None);
    let mut bad_client: Value = serde_json::from_str(r#"{"id":"x|1"}"#).unwrap();
    assert_eq!(route_response(&mut bad_client), None);
    assert_eq!(bad_client["id"], "x|1");
}
