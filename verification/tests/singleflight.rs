use async_demos::singleflight::{
    abandon_initialization, claim_initialization, complete_initialization, ClientPool,
    ClientState, InitStep,
};

#[test]
fn one_caller_owns_the_handshake() {
    let mut state = ClientState::Pending;
    assert_eq!(claim_initialization(&mut state), InitStep::Own);
    assert_eq!(state, ClientState::Initializing);
    assert_eq!(claim_initialization(&mut state), InitStep::Wait);
    assert_eq!(state, ClientState::Initializing);
    complete_initialization(&mut state, "tools-service");
    assert_eq!(state, ClientState::Ready("tools-service"));
    assert_eq!(
        claim_initialization(&mut state),
        InitStep::Done("tools-service")
    );
}

#[test]
fn abandoned_handshake_returns_to_pending() {
    let mut state = ClientState::Pending;
    assert_eq!(claim_initialization(&mut state), InitStep::Own);
    abandon_initialization(&mut state);
    assert_eq!(state, ClientState::Pending);
    assert_eq!(claim_initialization(&mut state), InitStep::Own);
    complete_initialization(&mut state, "tools-service");
    abandon_initialization(&mut state);
    assert_eq!(state, ClientState::Ready("tools-service"));
}

#[test]
fn stale_close_is_ignored() {
    let mut pool: ClientPool<&'static str> = ClientPool::new();
    pool.replace("docs", 10, "old");
    pool.replace("docs", 11, "replacement");
    assert!(!pool.handle_transport_closed("docs", 10));
    assert_eq!(pool.clients.get("docs").map(|entry| entry.0), Some(11));
    assert!(pool.handle_transport_closed("docs", 11));
    assert!(!pool.clients.contains_key("docs"));
    assert!(!pool.handle_transport_closed("docs", 11));
}
