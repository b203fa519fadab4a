use async_demos::dispatch_window::{
    collect_window, payload, recovery_for, remove_dead_stdio, Client, Event, EventKind, Reason,
    Recovery, ShutdownState, Status, Transport, Window,
};
use async_demos::textmap::TextMap;

#[test]
fn window_coalesces_fifty_ms() {
    let events = [
        (0, Event::ToolsChanged { server: "github", revision: 1 }),
        (10, Event::ToolsChanged { server: "github", revision: 2 }),
        (20, Event::ConfigDiff { added: vec!["new"], removed: vec!["old"] }),
        (60, Event::Ready { server: "github" }),
    ];
    let (first, next) = collect_window(&events, 0);
    assert_eq!(next, 3);
    assert_eq!(first.buf.len(), 3);
    assert!(matches!(
        first.buf.get("github", EventKind::ToolsChanged),
        Some(Event::ToolsChanged { revision: 2, .. })
    ));
    assert!(first.buf.contains_key("new", EventKind::ConfigAdded));
    assert!(first.buf.contains_key("old", EventKind::ConfigRemoved));
    let (second, done) = collect_window(&events, next);
    assert_eq!(done, events.len());
    assert_eq!(second.buf.len(), 1);
}

#[test]
fn window_close_identities_and_stale_eviction() {
    let mut close_window = Window::new();
    close_window.insert(Event::TransportClosed { server: "local", client_id: 7 });
    close_window.insert(Event::TransportClosed { server: "local", client_id: 6 });
    assert!(matches!(
        close_window.buf.get("local", EventKind::TransportClosed),
        Some(Event::TransportClosed { client_id: 6, .. })
    ));
    let ids: Vec<u64> = close_window.closed_ids("local").unwrap().iter().copied().collect();
    assert_eq!(ids, [6, 7]);

    let mut clients = TextMap::new();
    clients.insert("local", Client { id: 7, transport: Transport::Stdio });
    clients.insert("remote", Client { id: 9, transport: Transport::Http });
    assert!(remove_dead_stdio(&mut close_window, &mut clients).is_empty());
    assert!(!clients.contains_key("local"));
    assert_eq!(recovery_for("local", &clients), Recovery::RestartStdio);
    assert_eq!(recovery_for("remote", &clients), Recovery::ResetHttp);

    let mut stale_window = Window::new();
    stale_window.insert(Event::TransportClosed { server: "replacement", client_id: 11 });
    clients.insert("replacement", Client { id: 12, transport: Transport::Stdio });
    assert_eq!(remove_dead_stdio(&mut stale_window, &mut clients), ["replacement"]);
    assert!(clients.contains_key("replacement"));
    assert!(!stale_window.buf.contains_key("replacement", EventKind::TransportClosed));
}

#[test]
fn window_stale_servers_come_in_name_order() {
    let mut window = Window::new();
    window.insert(Event::TransportClosed { server: "zeta", client_id: 1 });
    window.insert(Event::TransportClosed { server: "alpha", client_id: 1 });
    window.insert(Event::TransportClosed { server: "mid", client_id: 1 });
    let mut clients = TextMap::new();
    clients.insert("zeta", Client { id: 2, transport: Transport::Stdio });
    clients.insert("alpha", Client { id: 2, transport: Transport::Stdio });
    clients.insert("mid", Client { id: 1, transport: Transport::Stdio });
    assert_eq!(remove_dead_stdio(&mut window, &mut clients), ["alpha", "zeta"]);
    assert!(!clients.contains_key("mid"));
    assert_eq!(window.buf.len(), 1);
}

#[test]
fn window_payloads_and_shutdown_tracking() {
    assert_eq!(
        payload(&Event::HandshakeFailed { server: "grok_com_linear", reason: "401 unauthorized" }),
        (Status::NeedsAuth, Reason::AuthExpired)
    );
    assert_eq!(
        payload(&Event::HandshakeFailed { server: "local", reason: "401 unauthorized" }),
        (Status::Unavailable, Reason::HandshakeFailed)
    );
    assert_eq!(
        payload(&Event::HandshakeFailed { server: "grok_com_x", reason: "timeout" }),
        (Status::Unavailable, Reason::HandshakeFailed)
    );
    assert_eq!(payload(&Event::Ready { server: "a" }), (Status::Ready, Reason::Initialized));
    assert_eq!(payload(&Event::ConfigAdded { server: "a" }), (Status::Initializing, Reason::ConfigAdded));

    let mut shutdown = ShutdownState::new();
    shutdown.observe(&Event::TransportClosed { server: "local", client_id: 7 });
    assert!(!shutdown.is_shutting_down("local"));
    shutdown.observe(&Event::ConfigRemoved { server: "local" });
    assert!(shutdown.is_shutting_down("local"));
    shutdown.observe(&Event::Ready { server: "local" });
    assert!(!shutdown.is_shutting_down("local"));
}

#[test]
fn events_name_their_server_and_kind() {
    assert_eq!(Event::Ready { server: "s" }.server(), Some("s"));
    assert_eq!(Event::ConfigDiff { added: vec![], removed: vec![] }.server(), None);
    assert_eq!(Event::ToolsChanged { server: "s", revision: 1 }.kind(), EventKind::ToolsChanged);
}
