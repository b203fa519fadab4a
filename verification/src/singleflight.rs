//! Single-flight initialization of an MCP client: one caller owns the handshake, others
//! wait for it; an abandoned handshake returns the client to pending; a close of a client
//! that was already replaced is ignored. The caller holds the lock and does the waiting.
use crate::textmap::TextMap;
use vstd::prelude::*;

verus! {

#[derive(Clone, Copy, Debug, PartialEq, Eq)]
pub enum ClientState {
    Pending,
    Initializing,
    Ready(&'static str),
}

/// What a caller of `ensure_initialized` does next.
#[derive(Clone, Copy, Debug, PartialEq, Eq)]
pub enum InitStep {
    /// The client is ready; use this service.
    Done(&'static str),
    /// Another caller owns the handshake; wait for it and look again.
    Wait,
    /// This caller owns the handshake.
    Own,
}

/// What a look at the state decides, and the state after it.
pub open spec fn claim_model(s: ClientState) -> (InitStep, ClientState) {
    match s {
        ClientState::Ready(service) => (InitStep::Done(service), s),
        ClientState::Initializing => (InitStep::Wait, s),
        ClientState::Pending => (InitStep::Own, ClientState::Initializing),
    }
}

/// The state after its owner abandons a handshake.
pub open spec fn abandon_model(s: ClientState) -> ClientState {
    if s == ClientState::Initializing {
        ClientState::Pending
    } else {
        s
    }
}

/// Looks at the client's state under its lock and claims the handshake when nobody has.
pub fn claim_initialization(state: &mut ClientState) -> (step: InitStep)
    ensures
        (step, *final(state)) == claim_model(*old(state)),
{
    match *state {
        ClientState::Ready(service) => InitStep::Done(service),
        ClientState::Initializing => InitStep::Wait,
        ClientState::Pending => {
            *state = ClientState::Initializing;
            InitStep::Own
        },
    }
}

/// The owner finished the handshake.
pub fn complete_initialization(state: &mut ClientState, service: &'static str)
    ensures
        *final(state) == ClientState::Ready(service),
{
    *state = ClientState::Ready(service);
}

/// The owner went away before finishing: a client still initializing becomes pending again.
pub fn abandon_initialization(state: &mut ClientState)
    ensures
        *final(state) == abandon_model(*old(state)),
{
    if let ClientState::Initializing = *state {
        *state = ClientState::Pending;
    }
}

/// Only one caller owns a handshake: after a claim, every further claim waits; once the
/// owner abandons, the next claim owns it again; once it completes, claims get the service.
pub proof fn law_single_owner(service: &'static str)
    ensures
        ({
            let (first, s1) = claim_model(ClientState::Pending);
            let (second, s2) = claim_model(s1);
            &&& first == InitStep::Own
            &&& second == InitStep::Wait
            &&& s2 == s1
            &&& claim_model(abandon_model(s1)).0 == InitStep::Own
            &&& claim_model(ClientState::Ready(service)).0 == InitStep::Done(service)
        }),
{
}

/// What a caller does to the client's state under its lock.
pub enum InitOp {
    /// Looks at the state and claims the handshake if nobody has.
    Claim,
    /// The handshake's owner finished it with this service.
    Complete(&'static str),
    /// The handshake's owner went away before finishing.
    Abandon,
}

/// One operation: the state after it, whether it started a handshake, and whether it gave
/// one up.
pub open spec fn init_step(s: ClientState, op: InitOp) -> (ClientState, bool, bool) {
    match op {
        InitOp::Claim => {
            let (step, next) = claim_model(s);
            (next, step == InitStep::Own, false)
        },
        InitOp::Complete(service) => (ClientState::Ready(service), false, false),
        InitOp::Abandon => (abandon_model(s), false, s == ClientState::Initializing),
    }
}

/// A series of operations from a state: the final state, the handshakes started, and the
/// handshakes given up.
pub open spec fn init_run(s: ClientState, ops: Seq<InitOp>) -> (ClientState, nat, nat)
    decreases ops.len(),
{
    if ops.len() == 0 {
        (s, 0, 0)
    } else {
        let (s1, started, abandoned) = init_run(s, ops.drop_last());
        let (s2, own, gave_up) = init_step(s1, ops.last());
        (
            s2,
            started + if own {
                1nat
            } else {
                0nat
            },
            abandoned + if gave_up {
                1nat
            } else {
                0nat
            },
        )
    }
}

/// Over any interleaving of callers on a fresh client, at most one handshake runs at a
/// time: every handshake but the current one was given up, so without a cancelled owner
/// there is at most one handshake, and a client that is ready answers every later claim
/// with its service.
pub proof fn law_one_handshake_per_run(ops: Seq<InitOp>)
    ensures
        ({
            let (s, started, abandoned) = init_run(ClientState::Pending, ops);
            &&& started <= abandoned + 1
            &&& s == ClientState::Initializing ==> started == abandoned + 1
            &&& s == ClientState::Pending ==> started == abandoned
            &&& s matches ClientState::Ready(service) ==> claim_model(s) == (
                InitStep::Done(service),
                s,
            )
        }),
    decreases ops.len(),
{
    if ops.len() > 0 {
        law_one_handshake_per_run(ops.drop_last());
    }
}

/// Current clients by server; each entry keeps the client's ID with it.
pub struct ClientPool<C> {
    pub clients: TextMap<&'static str, (u64, C)>,
}

impl<C> ClientPool<C> {
    pub fn new() -> (p: Self)
        ensures
            p.clients.wf(),
            p.clients@ == Map::<Seq<char>, (u64, C)>::empty(),
    {
        ClientPool { clients: TextMap::new() }
    }

    /// A new client replaces the server's current one.
    pub fn replace(&mut self, server: &'static str, id: u64, client: C)
        requires
            old(self).clients.wf(),
        ensures
            final(self).clients.wf(),
            final(self).clients@ == old(self).clients@.insert(server@, (id, client)),
    {
        self.clients.insert(server, (id, client));
    }

    /// A transport close removes the server's client only if it is the current one; a
    /// close of a replaced client is ignored. Reports whether the client was current.
    pub fn handle_transport_closed(&mut self, server: &str, client_id: u64) -> (is_current: bool)
        requires
            old(self).clients.wf(),
        ensures
            final(self).clients.wf(),
            is_current == (old(self).clients@.contains_key(server@)
                && old(self).clients@[server@].0 == client_id),
            final(self).clients@ == if is_current {
                old(self).clients@.remove(server@)
            } else {
                old(self).clients@
            },
    {
        let is_current = match self.clients.get(server) {
            Some(entry) => entry.0 == client_id,
            None => false,
        };
        if is_current {
            self.clients.remove(server);
        }
        is_current
    }
}

/// Once a server's client is replaced, a close reported by the replaced client is stale: it
/// is not the current client, so the pool keeps the replacement; a close by the replacement
/// is current.
pub proof fn law_stale_close_is_ignored<C>(
    clients: Map<Seq<char>, (u64, C)>,
    server: Seq<char>,
    old_id: u64,
    new_id: u64,
    client: C,
)
    requires
        old_id != new_id,
    ensures
        ({
            let pool = clients.insert(server, (new_id, client));
            &&& !(pool.contains_key(server) && pool[server].0 == old_id)
            &&& pool.contains_key(server) && pool[server].0 == new_id
            &&& pool.remove(server) == clients.remove(server)
        }),
{
    assert(clients.insert(server, (new_id, client)).remove(server) =~= clients.remove(server));
}

} // verus!
