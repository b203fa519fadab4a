//! Coalescing MCP server events in 50 ms windows: the latest event per server and kind wins,
//! every closed client identity is remembered, stale closes of replaced clients are evicted,
//! and each event maps to a wire status.
use crate::text::{contains_text, occurs_in, starts_with};
use crate::textmap::{TextKey, TextMap};
use std::collections::BTreeSet;
use vstd::prelude::*;

verus! {

broadcast use vstd::std_specs::btree::group_btree_axioms;

pub const COALESCE_WINDOW_MS: u64 = 50;

#[derive(Clone, Copy, Debug, PartialEq, Eq, PartialOrd, Ord, Structural)]
pub enum EventKind {
    TransportClosed,
    HandshakeFailed,
    ToolsChanged,
    Ready,
    ConfigAdded,
    ConfigRemoved,
}

#[derive(Clone, Debug, PartialEq, Eq)]
pub enum Event {
    TransportClosed { server: &'static str, client_id: u64 },
    HandshakeFailed { server: &'static str, reason: &'static str },
    ToolsChanged { server: &'static str, revision: u64 },
    Ready { server: &'static str },
    ConfigAdded { server: &'static str },
    ConfigRemoved { server: &'static str },
    ConfigDiff { added: Vec<&'static str>, removed: Vec<&'static str> },
}

/// The server an event is about (a config diff is about many).
pub open spec fn server_of(e: Event) -> Option<&'static str> {
    match e {
        Event::TransportClosed { server, .. } => Some(server),
        Event::HandshakeFailed { server, .. } => Some(server),
        Event::ToolsChanged { server, .. } => Some(server),
        Event::Ready { server } => Some(server),
        Event::ConfigAdded { server } => Some(server),
        Event::ConfigRemoved { server } => Some(server),
        Event::ConfigDiff { .. } => None,
    }
}

pub open spec fn kind_of(e: Event) -> EventKind {
    match e {
        Event::TransportClosed { .. } => EventKind::TransportClosed,
        Event::HandshakeFailed { .. } => EventKind::HandshakeFailed,
        Event::ToolsChanged { .. } => EventKind::ToolsChanged,
        Event::Ready { .. } => EventKind::Ready,
        Event::ConfigAdded { .. } => EventKind::ConfigAdded,
        Event::ConfigRemoved { .. } => EventKind::ConfigRemoved,
        Event::ConfigDiff { .. } => EventKind::ConfigAdded,
    }
}

/// The coalescing key of a single-server event: its server's name and its kind.
pub open spec fn key_of(e: Event) -> (Seq<char>, EventKind) {
    ((server_of(e)->0)@, kind_of(e))
}

fn copy_servers(v: &Vec<&'static str>) -> (r: Vec<&'static str>)
    ensures
        r@ == v@,
{
    let mut r = Vec::new();
    let mut i: usize = 0;
    while i < v.len()
        invariant
            i <= v@.len(),
            r@ == v@.take(i as int),
        decreases v@.len() - i,
    {
        r.push(v[i]);
        assert(r@ =~= v@.take(i + 1));
        i = i + 1;
    }
    assert(v@.take(v@.len() as int) =~= v@);
    r
}

impl Event {
    pub fn server(&self) -> (r: Option<&'static str>)
        ensures
            r == server_of(*self),
    {
        match self {
            Self::TransportClosed { server, .. } | Self::HandshakeFailed { server, .. }
            | Self::ToolsChanged { server, .. } | Self::Ready { server } | Self::ConfigAdded {
                server,
            } | Self::ConfigRemoved { server } => Some(*server),
            Self::ConfigDiff { .. } => None,
        }
    }

    /// The kind of a single-server event; a config diff must fan out before it is keyed.
    pub fn kind(&self) -> (r: EventKind)
        requires
            !(*self is ConfigDiff),
        ensures
            r == kind_of(*self),
    {
        match self {
            Self::TransportClosed { .. } => EventKind::TransportClosed,
            Self::HandshakeFailed { .. } => EventKind::HandshakeFailed,
            Self::ToolsChanged { .. } => EventKind::ToolsChanged,
            Self::Ready { .. } => EventKind::Ready,
            Self::ConfigAdded { .. } => EventKind::ConfigAdded,
            Self::ConfigRemoved { .. } => EventKind::ConfigRemoved,
            Self::ConfigDiff { .. } => EventKind::ConfigAdded,
        }
    }

    /// An equal copy (a config diff's lists are copied element by element).
    pub fn duplicate(&self) -> (r: Event)
        ensures
            match *self {
                Event::ConfigDiff { added, removed } => r matches Event::ConfigDiff {
                    added: a,
                    removed: b,
                } && a@ == added@ && b@ == removed@,
                _ => r == *self,
            },
    {
        match self {
            Self::TransportClosed { server, client_id } => Self::TransportClosed {
                server: *server,
                client_id: *client_id,
            },
            Self::HandshakeFailed { server, reason } => Self::HandshakeFailed {
                server: *server,
                reason: *reason,
            },
            Self::ToolsChanged { server, revision } => Self::ToolsChanged {
                server: *server,
                revision: *revision,
            },
            Self::Ready { server } => Self::Ready { server: *server },
            Self::ConfigAdded { server } => Self::ConfigAdded { server: *server },
            Self::ConfigRemoved { server } => Self::ConfigRemoved { server: *server },
            Self::ConfigDiff { added, removed } => Self::ConfigDiff {
                added: copy_servers(added),
                removed: copy_servers(removed),
            },
        }
    }
}

/// The latest event per (server, kind).
pub struct EventBuffer {
    events: Vec<Event>,
}

impl EventBuffer {
    pub closed spec fn items(&self) -> Seq<Event> {
        self.events@
    }

    /// Only single-server events, each key at most once.
    pub open spec fn wf(&self) -> bool {
        &&& forall|i: int| 0 <= i < self.items().len() ==> !(#[trigger] self.items()[i] is ConfigDiff)
        &&& forall|i: int, j: int|
            0 <= i < j < self.items().len() ==> key_of(#[trigger] self.items()[i]) != key_of(
                #[trigger] self.items()[j],
            )
    }

    pub open spec fn has(&self, k: (Seq<char>, EventKind)) -> bool {
        exists|i: int| 0 <= i < self.items().len() && key_of(#[trigger] self.items()[i]) == k
    }

    pub open spec fn at_key(&self, k: (Seq<char>, EventKind)) -> int {
        choose|i: int| 0 <= i < self.items().len() && key_of(#[trigger] self.items()[i]) == k
    }

    pub open spec fn view(&self) -> Map<(Seq<char>, EventKind), Event> {
        Map::new(|k: (Seq<char>, EventKind)| self.has(k), |k: (Seq<char>, EventKind)| self.items()[self.at_key(k)])
    }

    proof fn lemma_at_key(&self, i: int)
        requires
            self.wf(),
            0 <= i < self.items().len(),
        ensures
            self.has(key_of(self.items()[i])),
            self.at_key(key_of(self.items()[i])) == i,
            self@.contains_key(key_of(self.items()[i])),
            self@[key_of(self.items()[i])] == self.items()[i],
    {
        let k = key_of(self.items()[i]);
        assert(self.has(k));
        let j = self.at_key(k);
        if j < i {
            assert(key_of(self.items()[j]) != key_of(self.items()[i]));
        } else if j > i {
            assert(key_of(self.items()[i]) != key_of(self.items()[j]));
        }
    }

    pub fn new() -> (b: Self)
        ensures
            b.wf(),
            b@ == Map::<(Seq<char>, EventKind), Event>::empty(),
    {
        let b = EventBuffer { events: Vec::new() };
        assert(b@ =~= Map::<(Seq<char>, EventKind), Event>::empty());
        b
    }

    /// The number of buffered events.
    pub fn len(&self) -> (n: usize)
        requires
            self.wf(),
        ensures
            n == self@.len(),
            n == self.items().len(),
    {
        proof {
            self.lemma_len();
        }
        self.events.len()
    }

    proof fn lemma_len(&self)
        requires
            self.wf(),
        ensures
            self@.dom().finite(),
            self@.len() == self.items().len(),
    {
        let keys = self.items().map_values(|e: Event| key_of(e));
        assert forall|i: int, j: int| 0 <= i < keys.len() && 0 <= j < keys.len() && i != j implies keys[i]
            != keys[j] by {
            if i < j {
                assert(key_of(self.items()[i]) != key_of(self.items()[j]));
            } else {
                assert(key_of(self.items()[j]) != key_of(self.items()[i]));
            }
        }
        assert(keys.no_duplicates());
        assert(self@.dom() =~= keys.to_set()) by {
            assert forall|k: (Seq<char>, EventKind)| #[trigger] self@.dom().contains(k) implies keys.to_set().contains(k) by {
                let i = self.at_key(k);
                assert(keys[i] == k);
            }
            assert forall|k: (Seq<char>, EventKind)| #[trigger] keys.to_set().contains(k) implies self@.dom().contains(k) by {
                let i = choose|i: int| 0 <= i < keys.len() && keys[i] == k;
                assert(key_of(self.items()[i]) == k);
            }
        }
        keys.unique_seq_to_set();
    }

    fn position(&self, server: &str, kind: EventKind) -> (r: Option<usize>)
        requires
            self.wf(),
        ensures
            match r {
                Some(i) => i < self.items().len() && key_of(self.items()[i as int]) == (server@, kind),
                None => !self.has((server@, kind)),
            },
    {
        let mut i: usize = 0;
        while i < self.events.len()
            invariant
                i <= self.events@.len(),
                self.events@ == self.items(),
                self.wf(),
                forall|j: int| 0 <= j < i ==> key_of(#[trigger] self.items()[j]) != (server@, kind),
            decreases self.events@.len() - i,
        {
            let e = &self.events[i];
            let s = match e.server() {
                Some(s) => s,
                None => {
                    assert(false);
                    ""
                },
            };
            if e.kind() == kind && crate::text::same_text(s, server) {
                return Some(i);
            }
            i = i + 1;
        }
        None
    }

    /// The buffered event for a server and kind.
    pub fn get(&self, server: &str, kind: EventKind) -> (r: Option<&Event>)
        requires
            self.wf(),
        ensures
            match r {
                Some(e) => self@.contains_key((server@, kind)) && *e == self@[(server@, kind)],
                None => !self@.contains_key((server@, kind)),
            },
    {
        match self.position(server, kind) {
            Some(i) => {
                proof {
                    self.lemma_at_key(i as int);
                }
                Some(&self.events[i])
            },
            None => None,
        }
    }

    pub fn contains_key(&self, server: &str, kind: EventKind) -> (r: bool)
        requires
            self.wf(),
        ensures
            r == self@.contains_key((server@, kind)),
    {
        self.position(server, kind).is_some()
    }

    /// Buffers a single-server event, replacing the one with the same key.
    pub fn put(&mut self, e: Event)
        requires
            old(self).wf(),
            !(e is ConfigDiff),
        ensures
            final(self).wf(),
            final(self)@ == old(self)@.insert(key_of(e), e),
    {
        let ghost old_buf = *self;
        let server = match e.server() {
            Some(s) => s,
            None => {
                assert(false);
                ""
            },
        };
        let k = e.kind();
        match self.position(server, k) {
            Some(i) => {
                self.events.set(i, e);
                proof {
                    assert forall|a: int, b: int|
                        0 <= a < b < self.items().len() implies key_of(#[trigger] self.items()[a])
                        != key_of(#[trigger] self.items()[b]) by {
                        if a != i && b != i {
                            assert(key_of(old_buf.items()[a]) != key_of(old_buf.items()[b]));
                        } else if a == i {
                            assert(key_of(old_buf.items()[a]) != key_of(old_buf.items()[b]));
                        } else {
                            assert(key_of(old_buf.items()[a]) != key_of(old_buf.items()[b]));
                        }
                    }
                    self.lemma_same_map_after_set(old_buf, i as int, e);
                }
            },
            None => {
                self.events.push(e);
                proof {
                    assert forall|a: int, b: int|
                        0 <= a < b < self.items().len() implies key_of(#[trigger] self.items()[a])
                        != key_of(#[trigger] self.items()[b]) by {
                        if b < old_buf.items().len() {
                            assert(key_of(old_buf.items()[a]) != key_of(old_buf.items()[b]));
                        } else {
                            assert(old_buf.items()[a] == self.items()[a]);
                            if key_of(self.items()[a]) == key_of(e) {
                                assert(old_buf.has(key_of(e)));
                            }
                        }
                    }
                    assert forall|q: (Seq<char>, EventKind)| #[trigger]
                        self@.contains_key(q) == old_buf@.insert(key_of(e), e).contains_key(q) by {
                        if old_buf.has(q) {
                            let j = old_buf.at_key(q);
                            assert(key_of(self.items()[j]) == q);
                        }
                        if q == key_of(e) {
                            assert(key_of(self.items()[old_buf.items().len() as int]) == q);
                        }
                        if self.has(q) {
                            let j = self.at_key(q);
                            if j < old_buf.items().len() {
                                assert(key_of(old_buf.items()[j]) == q);
                            }
                        }
                    }
                    assert forall|q: (Seq<char>, EventKind)| #[trigger] self@.contains_key(q) implies self@[q]
                        == old_buf@.insert(key_of(e), e)[q] by {
                        let j = self.at_key(q);
                        self.lemma_at_key(j);
                        if j < old_buf.items().len() {
                            old_buf.lemma_at_key(j);
                        }
                    }
                    assert(self@ =~= old_buf@.insert(key_of(e), e));
                }
            },
        }
    }

    proof fn lemma_same_map_after_set(&self, old_buf: EventBuffer, i: int, e: Event)
        requires
            old_buf.wf(),
            self.wf(),
            0 <= i < old_buf.items().len(),
            key_of(old_buf.items()[i]) == key_of(e),
            self.items() == old_buf.items().update(i, e),
        ensures
            self@ == old_buf@.insert(key_of(e), e),
    {
        assert forall|q: (Seq<char>, EventKind)| #[trigger]
            self@.contains_key(q) == old_buf@.insert(key_of(e), e).contains_key(q) by {
            if old_buf.has(q) {
                let j = old_buf.at_key(q);
                assert(key_of(self.items()[j]) == q);
            }
            if q == key_of(e) {
                assert(key_of(self.items()[i]) == q);
            }
            if self.has(q) {
                let j = self.at_key(q);
                if j != i {
                    assert(key_of(old_buf.items()[j]) == q);
                }
            }
        }
        assert forall|q: (Seq<char>, EventKind)| #[trigger] self@.contains_key(q) implies self@[q]
            == old_buf@.insert(key_of(e), e)[q] by {
            let j = self.at_key(q);
            self.lemma_at_key(j);
            if j != i {
                old_buf.lemma_at_key(j);
            }
        }
        assert(self@ =~= old_buf@.insert(key_of(e), e));
    }

    /// Drops the event for a server and kind.
    pub fn remove(&mut self, server: &str, kind: EventKind)
        requires
            old(self).wf(),
        ensures
            final(self).wf(),
            final(self)@ == old(self)@.remove((server@, kind)),
    {
        let ghost old_buf = *self;
        let ghost k = (server@, kind);
        match self.position(server, kind) {
            Some(i) => {
                self.events.remove(i);
                proof {
                    assert forall|a: int, b: int|
                        0 <= a < b < self.items().len() implies key_of(#[trigger] self.items()[a])
                        != key_of(#[trigger] self.items()[b]) by {
                        let oa = if a < i { a } else { a + 1 };
                        let ob = if b < i { b } else { b + 1 };
                        assert(key_of(old_buf.items()[oa]) != key_of(old_buf.items()[ob]));
                    }
                    assert forall|q: (Seq<char>, EventKind)| #[trigger]
                        self@.contains_key(q) == old_buf@.remove(k).contains_key(q) by {
                        if old_buf.has(q) && q != k {
                            let j = old_buf.at_key(q);
                            if j < i {
                                assert(key_of(self.items()[j]) == q);
                            } else {
                                assert(j != i);
                                assert(key_of(self.items()[j - 1]) == q);
                            }
                        }
                        if self.has(q) {
                            let j = self.at_key(q);
                            let oj = if j < i { j } else { j + 1 };
                            assert(key_of(old_buf.items()[oj]) == q);
                            old_buf.lemma_at_key(oj);
                        }
                    }
                    assert forall|q: (Seq<char>, EventKind)| #[trigger] self@.contains_key(q) implies self@[q]
                        == old_buf@.remove(k)[q] by {
                        let j = self.at_key(q);
                        self.lemma_at_key(j);
                        let oj = if j < i { j } else { j + 1 };
                        assert(key_of(old_buf.items()[oj]) == q);
                        old_buf.lemma_at_key(oj);
                    }
                    assert(self@ =~= old_buf@.remove(k));
                }
            },
            None => {
                assert(self@ =~= old_buf@.remove(k));
            },
        }
    }
}

/// One coalescing window: the latest event per (server, kind) and every closed client ID.
pub struct Window {
    pub buf: EventBuffer,
    pub closed: TextMap<&'static str, BTreeSet<u64>>,
}

pub struct WindowModel {
    pub buf: Map<(Seq<char>, EventKind), Event>,
    pub closed: Map<Seq<char>, Set<u64>>,
}

impl View for Window {
    type V = WindowModel;

    open spec fn view(&self) -> WindowModel {
        WindowModel {
            buf: self.buf@,
            closed: self.closed@.map_values(|s: BTreeSet<u64>| s@),
        }
    }
}

/// Adding one single-server event to a window.
pub open spec fn insert_single(w: WindowModel, e: Event) -> WindowModel {
    match e {
        Event::TransportClosed { server, client_id } => WindowModel {
            closed: w.closed.insert(
                server@,
                if w.closed.contains_key(server@) {
                    w.closed[server@]
                } else {
                    Set::empty()
                }.insert(client_id),
            ),
            buf: w.buf.insert(key_of(e), e),
        },
        _ => WindowModel { buf: w.buf.insert(key_of(e), e), ..w },
    }
}

/// Adding `ConfigAdded` events for each server, in order.
pub open spec fn insert_added(w: WindowModel, servers: Seq<&'static str>) -> WindowModel
    decreases servers.len(),
{
    if servers.len() == 0 {
        w
    } else {
        insert_single(insert_added(w, servers.drop_last()), Event::ConfigAdded { server: servers.last() })
    }
}

/// Adding `ConfigRemoved` events for each server, in order.
pub open spec fn insert_removed(w: WindowModel, servers: Seq<&'static str>) -> WindowModel
    decreases servers.len(),
{
    if servers.len() == 0 {
        w
    } else {
        insert_single(
            insert_removed(w, servers.drop_last()),
            Event::ConfigRemoved { server: servers.last() },
        )
    }
}

/// Adding an event: a config diff fans out into one event per added and removed server.
pub open spec fn insert_model(w: WindowModel, e: Event) -> WindowModel {
    match e {
        Event::ConfigDiff { added, removed } => insert_removed(insert_added(w, added@), removed@),
        _ => insert_single(w, e),
    }
}

impl Window {
    pub open spec fn wf(&self) -> bool {
        self.buf.wf() && self.closed.wf()
    }

    pub fn new() -> (w: Self)
        ensures
            w.wf(),
            w@.buf == Map::<(Seq<char>, EventKind), Event>::empty(),
            w@.closed == Map::<Seq<char>, Set<u64>>::empty(),
    {
        let w = Window { buf: EventBuffer::new(), closed: TextMap::new() };
        assert(w@.closed =~= Map::<Seq<char>, Set<u64>>::empty());
        w
    }

    fn insert_one(&mut self, event: Event)
        requires
            old(self).wf(),
            !(event is ConfigDiff),
        ensures
            final(self).wf(),
            final(self)@ == insert_single(old(self)@, event),
    {
        let ghost w0 = self@;
        match event {
            Event::TransportClosed { server, client_id } => {
                let mut ids = match self.closed.remove(server) {
                    Some(ids) => ids,
                    None => BTreeSet::new(),
                };
                ids.insert(client_id);
                self.closed.insert(server, ids);
                self.buf.put(Event::TransportClosed { server, client_id });
                proof {
                    assert(self@.closed =~= insert_single(w0, event).closed);
                }
            },
            event => {
                self.buf.put(event);
            },
        }
    }

    /// Adds an event to the window.
    pub fn insert(&mut self, event: Event)
        requires
            old(self).wf(),
        ensures
            final(self).wf(),
            final(self)@ == insert_model(old(self)@, event),
    {
        match event {
            Event::ConfigDiff { added, removed } => {
                let ghost w0 = self@;
                let mut i: usize = 0;
                while i < added.len()
                    invariant
                        self.wf(),
                        i <= added@.len(),
                        self@ == insert_added(w0, added@.take(i as int)),
                    decreases added@.len() - i,
                {
                    assert(added@.take(i + 1).drop_last() =~= added@.take(i as int));
                    self.insert_one(Event::ConfigAdded { server: added[i] });
                    i = i + 1;
                }
                assert(added@.take(added@.len() as int) =~= added@);
                let ghost w1 = self@;
                let mut j: usize = 0;
                while j < removed.len()
                    invariant
                        self.wf(),
                        j <= removed@.len(),
                        self@ == insert_removed(w1, removed@.take(j as int)),
                    decreases removed@.len() - j,
                {
                    assert(removed@.take(j + 1).drop_last() =~= removed@.take(j as int));
                    self.insert_one(Event::ConfigRemoved { server: removed[j] });
                    j = j + 1;
                }
                assert(removed@.take(removed@.len() as int) =~= removed@);
            },
            event => {
                self.insert_one(event);
            },
        }
    }

    /// Whether the window holds a close of `client_id` for `server`.
    pub fn closed_ids(&self, server: &str) -> (r: Option<&BTreeSet<u64>>)
        requires
            self.wf(),
        ensures
            match r {
                Some(ids) => self@.closed.contains_key(server@) && ids@ == self@.closed[server@],
                None => !self@.closed.contains_key(server@),
            },
    {
        self.closed.get(server)
    }
}

/// The window collected from `from`: the events that arrive within 50 ms of it, in order.
pub open spec fn window_of(events: Seq<(u64, Event)>, from: int, end: int) -> WindowModel
    decreases end - from,
{
    if end <= from {
        WindowModel { buf: Map::empty(), closed: Map::empty() }
    } else {
        insert_model(window_of(events, from, end - 1), events[end - 1].1)
    }
}

/// Collects the window that starts at `from`; returns it and where the next window starts.
pub fn collect_window(events: &[(u64, Event)], from: usize) -> (r: (Window, usize))
    requires
        from < events@.len(),
        events@[from as int].0 + COALESCE_WINDOW_MS <= u64::MAX,
    ensures
        r.0.wf(),
        from < r.1 <= events@.len(),
        forall|j: int|
            from <= j < r.1 ==> #[trigger] events@[j].0 < events@[from as int].0 + COALESCE_WINDOW_MS,
        r.1 == events@.len() || events@[r.1 as int].0 >= events@[from as int].0 + COALESCE_WINDOW_MS,
        r.0@ == window_of(events@, from as int, r.1 as int),
{
    let mut window = Window::new();
    let deadline = events[from].0 + COALESCE_WINDOW_MS;
    let mut index = from;
    assert(window@ == window_of(events@, from as int, from as int)) by {
        assert(window@.buf =~= Map::<(Seq<char>, EventKind), Event>::empty());
    }
    while index < events.len() && events[index].0 < deadline
        invariant
            window.wf(),
            from <= index <= events@.len(),
            deadline == events@[from as int].0 + COALESCE_WINDOW_MS,
            forall|j: int| from <= j < index ==> #[trigger] events@[j].0 < deadline,
            window@ == window_of(events@, from as int, index as int),
        decreases events@.len() - index,
    {
        let e = events[index].1.duplicate();
        proof {
            assert(insert_model(window@, e) == insert_model(window@, events@[index as int].1));
        }
        window.insert(e);
        index += 1;
    }
    (window, index)
}

#[derive(Clone, Copy, Debug, PartialEq, Eq, Structural)]
pub enum Transport {
    Stdio,
    Http,
}

#[derive(Clone, Copy, Debug, PartialEq, Eq, Structural)]
pub struct Client {
    pub id: u64,
    pub transport: Transport,
}

/// A close that names the current stdio client: that client is dead.
pub open spec fn dead(clients: Map<Seq<char>, Client>, server: Seq<char>, ids: Set<u64>) -> bool {
    clients.contains_key(server) && clients[server].transport == Transport::Stdio && ids.contains(
        clients[server].id,
    )
}

/// A close of a stdio client that has since been replaced: the close is stale.
pub open spec fn stale(clients: Map<Seq<char>, Client>, server: Seq<char>, ids: Set<u64>) -> bool {
    clients.contains_key(server) && clients[server].transport == Transport::Stdio && !ids.contains(
        clients[server].id,
    )
}

/// The servers whose closes are stale, in key order.
pub open spec fn stale_servers(
    closed: Seq<(&'static str, BTreeSet<u64>)>,
    clients: Map<Seq<char>, Client>,
) -> Seq<&'static str>
    decreases closed.len(),
{
    if closed.len() == 0 {
        Seq::empty()
    } else {
        let rest = stale_servers(closed.drop_last(), clients);
        if stale(clients, closed.last().0@, closed.last().1@) {
            rest.push(closed.last().0)
        } else {
            rest
        }
    }
}

/// A server is named by a stale close exactly when the stale list holds it.
proof fn lemma_stale_member(
    closed: Seq<(&'static str, BTreeSet<u64>)>,
    clients: Map<Seq<char>, Client>,
    s: Seq<char>,
)
    ensures
        (exists|j: int|
            0 <= j < stale_servers(closed, clients).len() && #[trigger] stale_servers(
                closed,
                clients,
            )[j]@ == s) <==> (exists|j: int|
            0 <= j < closed.len() && #[trigger] closed[j].0@ == s && stale(clients, s, closed[j].1@)),
    decreases closed.len(),
{
    if closed.len() > 0 {
        let rest = closed.drop_last();
        lemma_stale_member(rest, clients, s);
        let out = stale_servers(closed, clients);
        let out0 = stale_servers(rest, clients);
        if exists|j: int| 0 <= j < out.len() && #[trigger] out[j]@ == s {
            let j = choose|j: int| 0 <= j < out.len() && #[trigger] out[j]@ == s;
            if j < out0.len() {
                assert(out0[j]@ == s);
                let k = choose|k: int|
                    0 <= k < rest.len() && #[trigger] rest[k].0@ == s && stale(clients, s, rest[k].1@);
                assert(closed[k] == rest[k]);
            } else {
                assert(closed[closed.len() - 1].0@ == s);
            }
        }
        if exists|j: int|
            0 <= j < closed.len() && #[trigger] closed[j].0@ == s && stale(clients, s, closed[j].1@) {
            let j = choose|j: int|
                0 <= j < closed.len() && #[trigger] closed[j].0@ == s && stale(clients, s, closed[j].1@);
            if j < rest.len() {
                assert(rest[j] == closed[j]);
                let k = choose|k: int| 0 <= k < out0.len() && #[trigger] out0[k]@ == s;
                assert(out[k] == out0[k]);
            } else {
                assert(out[out.len() - 1]@ == s);
            }
        }
    }
}

/// Dead stdio clients leave the pool; stale closes leave the window and are reported.
pub fn remove_dead_stdio(window: &mut Window, clients: &mut TextMap<&'static str, Client>) -> (r: Vec<
    &'static str,
>)
    requires
        old(window).wf(),
        old(clients).wf(),
    ensures
        final(window).wf(),
        final(clients).wf(),
        r@ == stale_servers(old(window).closed.pairs(), old(clients)@),
        final(clients)@ == old(clients)@.remove_keys(
            Set::new(
                |s: Seq<char>|
                    old(window)@.closed.contains_key(s) && dead(
                        old(clients)@,
                        s,
                        old(window)@.closed[s],
                    ),
            ),
        ),
        final(window)@.closed == old(window)@.closed,
        final(window)@.buf == old(window)@.buf.remove_keys(
            Set::new(
                |k: (Seq<char>, EventKind)|
                    k.1 == EventKind::TransportClosed && old(window)@.closed.contains_key(k.0)
                        && stale(old(clients)@, k.0, old(window)@.closed[k.0]),
            ),
        ),
{
    let ghost c0 = clients@;
    let ghost w0 = window@;
    let ghost closed_map = window.closed;
    let ghost pairs = window.closed.pairs();
    let mut stale_list: Vec<&'static str> = Vec::new();
    let entries = window.closed.entries();
    let mut i: usize = 0;
    while i < entries.len()
        invariant
            entries@ == pairs,
            pairs == closed_map.pairs(),
            closed_map.wf(),
            clients.wf(),
            i <= pairs.len(),
            stale_list@ == stale_servers(pairs.take(i as int), c0),
            clients@ == c0.remove_keys(
                Set::new(
                    |s: Seq<char>|
                        exists|j: int|
                            0 <= j < i && #[trigger] pairs[j].0@ == s && dead(c0, s, pairs[j].1@),
                ),
            ),
        decreases pairs.len() - i,
    {
        let server = entries[i].0;
        let closed_ids = &entries[i].1;
        let ghost before = Set::new(
            |s: Seq<char>| exists|j: int| 0 <= j < i && #[trigger] pairs[j].0@ == s && dead(c0, s, pairs[j].1@),
        );
        let ghost after = Set::new(
            |s: Seq<char>|
                exists|j: int| 0 <= j < i + 1 && #[trigger] pairs[j].0@ == s && dead(c0, s, pairs[j].1@),
        );
        proof {
            assert(pairs.take(i + 1).drop_last() =~= pairs.take(i as int));
            assert(pairs.take(i + 1).last() == pairs[i as int]);
            assert forall|j: int| 0 <= j < i implies #[trigger] pairs[j].0@ != server@ by {
                assert(crate::text::text_lt(closed_map.key_at(j), closed_map.key_at(i as int)));
                crate::text::lemma_text_lt_trichotomy(server@, server@);
            }
            assert(!before.contains(server@));
            assert(clients@.contains_key(server@) == c0.contains_key(server@));
            if c0.contains_key(server@) {
                assert(clients@[server@] == c0[server@]);
            }
        }
        let found = clients.get(server);
        match found {
            Some(c) => {
                let current = *c;
                if current.transport == Transport::Http {
                    proof {
                        assert(after =~= before) by {
                            assert forall|s: Seq<char>| #[trigger] after.contains(s) implies before.contains(s) by {
                                let j = choose|j: int| 0 <= j < i + 1 && #[trigger] pairs[j].0@ == s && dead(c0, s, pairs[j].1@);
                                if j == i {
                                    assert(false);
                                }
                            }
                        }
                    }
                } else if closed_ids.contains(&current.id) {
                    clients.remove(server);
                    proof {
                        assert(after =~= before.insert(server@)) by {
                            assert forall|s: Seq<char>| #[trigger] after.contains(s) implies before.insert(server@).contains(s) by {
                                let j = choose|j: int| 0 <= j < i + 1 && #[trigger] pairs[j].0@ == s && dead(c0, s, pairs[j].1@);
                                if j < i {
                                    assert(before.contains(s));
                                }
                            }
                            assert(dead(c0, server@, pairs[i as int].1@));
                        }
                        assert(clients@ =~= c0.remove_keys(after));
                    }
                } else {
                    stale_list.push(server);
                    proof {
                        assert(after =~= before) by {
                            assert forall|s: Seq<char>| #[trigger] after.contains(s) implies before.contains(s) by {
                                let j = choose|j: int| 0 <= j < i + 1 && #[trigger] pairs[j].0@ == s && dead(c0, s, pairs[j].1@);
                                if j == i {
                                    assert(false);
                                }
                            }
                        }
                    }
                }
            },
            None => {
                proof {
                    assert(after =~= before) by {
                        assert forall|s: Seq<char>| #[trigger] after.contains(s) implies before.contains(s) by {
                            let j = choose|j: int| 0 <= j < i + 1 && #[trigger] pairs[j].0@ == s && dead(c0, s, pairs[j].1@);
                            if j == i {
                                assert(false);
                            }
                        }
                    }
                }
            },
        }
        i = i + 1;
    }
    proof {
        assert(pairs.take(pairs.len() as int) =~= pairs);
        let all = Set::new(
            |s: Seq<char>| exists|j: int| 0 <= j < pairs.len() && #[trigger] pairs[j].0@ == s && dead(c0, s, pairs[j].1@),
        );
        let spec_set = Set::new(
            |s: Seq<char>| w0.closed.contains_key(s) && dead(c0, s, w0.closed[s]),
        );
        assert forall|s: Seq<char>| #[trigger] all.contains(s) == spec_set.contains(s) by {
            if all.contains(s) {
                let j = choose|j: int| 0 <= j < pairs.len() && #[trigger] pairs[j].0@ == s && dead(c0, s, pairs[j].1@);
                closed_map.lemma_index_of_key(j);
            }
            if spec_set.contains(s) {
                let j = closed_map.index_of_key(s);
                closed_map.lemma_index_of_key(j);
                assert(pairs[j].0@ == s);
            }
        }
        assert(all =~= spec_set);
    }
    let ghost stale_seq = stale_list@;
    let mut k: usize = 0;
    while k < stale_list.len()
        invariant
            window.buf.wf(),
            window.closed == closed_map,
            stale_list@ == stale_seq,
            k <= stale_list@.len(),
            window.buf@ == w0.buf.remove_keys(
                Set::new(
                    |key: (Seq<char>, EventKind)|
                        key.1 == EventKind::TransportClosed && exists|j: int|
                            0 <= j < k && #[trigger] stale_seq[j]@ == key.0,
                ),
            ),
        decreases stale_list@.len() - k,
    {
        let ghost before = Set::new(
            |key: (Seq<char>, EventKind)|
                key.1 == EventKind::TransportClosed && exists|j: int| 0 <= j < k && #[trigger] stale_seq[j]@ == key.0,
        );
        let ghost after = Set::new(
            |key: (Seq<char>, EventKind)|
                key.1 == EventKind::TransportClosed && exists|j: int| 0 <= j < k + 1 && #[trigger] stale_seq[j]@ == key.0,
        );
        window.buf.remove(stale_list[k], EventKind::TransportClosed);
        proof {
            assert(after =~= before.insert((stale_seq[k as int]@, EventKind::TransportClosed))) by {
                assert forall|key: (Seq<char>, EventKind)| #[trigger] after.contains(key) implies before.insert(
                    (stale_seq[k as int]@, EventKind::TransportClosed),
                ).contains(key) by {
                    let j = choose|j: int| 0 <= j < k + 1 && #[trigger] stale_seq[j]@ == key.0;
                    if j < k {
                        assert(before.contains(key));
                    }
                }
                assert forall|key: (Seq<char>, EventKind)| #[trigger] before.contains(key) implies after.contains(key) by {
                    let j = choose|j: int| 0 <= j < k && #[trigger] stale_seq[j]@ == key.0;
                    assert(stale_seq[j]@ == key.0);
                }
            }
            assert(window.buf@ =~= w0.buf.remove_keys(after));
        }
        k = k + 1;
    }
    proof {
        let got = Set::new(
            |key: (Seq<char>, EventKind)|
                key.1 == EventKind::TransportClosed && exists|j: int|
                    0 <= j < stale_seq.len() && #[trigger] stale_seq[j]@ == key.0,
        );
        let want = Set::new(
            |key: (Seq<char>, EventKind)|
                key.1 == EventKind::TransportClosed && w0.closed.contains_key(key.0) && stale(
                    c0,
                    key.0,
                    w0.closed[key.0],
                ),
        );
        assert forall|key: (Seq<char>, EventKind)| #[trigger] got.contains(key) == want.contains(key) by {
            lemma_stale_member(pairs, c0, key.0);
            if got.contains(key) {
                let j = choose|j: int|
                    0 <= j < pairs.len() && #[trigger] pairs[j].0@ == key.0 && stale(c0, key.0, pairs[j].1@);
                closed_map.lemma_index_of_key(j);
            }
            if want.contains(key) {
                let j = closed_map.index_of_key(key.0);
                closed_map.lemma_index_of_key(j);
                assert(pairs[j].0@ == key.0);
            }
        }
        assert(got =~= want);
    }
    stale_list
}

#[derive(Clone, Copy, Debug, PartialEq, Eq, Structural)]
pub enum Recovery {
    RestartStdio,
    ResetHttp,
}

/// An HTTP client is reset; a stdio client, or an unknown server, is restarted.
pub fn recovery_for(server: &str, clients: &TextMap<&'static str, Client>) -> (r: Recovery)
    requires
        clients.wf(),
    ensures
        r == if clients@.contains_key(server@) && clients@[server@].transport == Transport::Http {
            Recovery::ResetHttp
        } else {
            Recovery::RestartStdio
        },
{
    match clients.get(server) {
        Some(client) => match client.transport {
            Transport::Http => Recovery::ResetHttp,
            Transport::Stdio => Recovery::RestartStdio,
        },
        None => Recovery::RestartStdio,
    }
}

#[derive(Clone, Copy, Debug, PartialEq, Eq, Structural)]
pub enum Status {
    Ready,
    Initializing,
    Unavailable,
    NeedsAuth,
}

#[derive(Clone, Copy, Debug, PartialEq, Eq, Structural)]
pub enum Reason {
    Initialized,
    ConfigAdded,
    ConfigRemoved,
    ConfigChanged,
    TransportClosed,
    HandshakeFailed,
    AuthExpired,
}

/// A failed handshake of a first-party server that reads as an authorization failure.
pub open spec fn auth_expired(server: Seq<char>, reason: Seq<char>) -> bool {
    "grok_com_"@.is_prefix_of(server) && (occurs_in(reason, "401"@) || occurs_in(
        reason,
        "unauthorized"@,
    ))
}

/// The wire status and reason for a single-server event.
pub open spec fn payload_of(event: Event) -> (Status, Reason) {
    match event {
        Event::Ready { .. } => (Status::Ready, Reason::Initialized),
        Event::ConfigAdded { .. } => (Status::Initializing, Reason::ConfigAdded),
        Event::ConfigRemoved { .. } => (Status::Unavailable, Reason::ConfigRemoved),
        Event::ToolsChanged { .. } => (Status::Ready, Reason::ConfigChanged),
        Event::TransportClosed { .. } => (Status::Unavailable, Reason::TransportClosed),
        Event::HandshakeFailed { server, reason } => if auth_expired(server@, reason@) {
            (Status::NeedsAuth, Reason::AuthExpired)
        } else {
            (Status::Unavailable, Reason::HandshakeFailed)
        },
        Event::ConfigDiff { .. } => (Status::Unavailable, Reason::ConfigChanged),
    }
}

pub fn payload(event: &Event) -> (r: (Status, Reason))
    requires
        !(*event is ConfigDiff),
    ensures
        r == payload_of(*event),
{
    match event {
        Event::Ready { .. } => (Status::Ready, Reason::Initialized),
        Event::ConfigAdded { .. } => (Status::Initializing, Reason::ConfigAdded),
        Event::ConfigRemoved { .. } => (Status::Unavailable, Reason::ConfigRemoved),
        Event::ToolsChanged { .. } => (Status::Ready, Reason::ConfigChanged),
        Event::TransportClosed { .. } => (Status::Unavailable, Reason::TransportClosed),
        Event::HandshakeFailed { server, reason } => {
            if starts_with(server, "grok_com_") && (contains_text(reason, "401") || contains_text(
                reason,
                "unauthorized",
            )) {
                (Status::NeedsAuth, Reason::AuthExpired)
            } else {
                (Status::Unavailable, Reason::HandshakeFailed)
            }
        },
        Event::ConfigDiff { .. } => {
            assert(false);
            (Status::Unavailable, Reason::ConfigChanged)
        },
    }
}

/// Within a window the latest event for a (server, kind) replaces the earlier one.
pub proof fn law_latest_event_wins(w: WindowModel, first: Event, second: Event)
    requires
        !(first is ConfigDiff),
        !(second is ConfigDiff),
        key_of(first) == key_of(second),
    ensures
        insert_model(insert_model(w, first), second).buf[key_of(second)] == second,
        insert_model(insert_model(w, first), second).buf.dom() == insert_model(w, second).buf.dom(),
{
    assert(insert_model(insert_model(w, first), second).buf.dom() =~= insert_model(w, second).buf.dom());
}

/// Every closed client identity of a server is remembered, not just the latest.
pub proof fn law_close_identities_accumulate(w: WindowModel, server: &'static str, a: u64, b: u64)
    ensures
        ({
            let w2 = insert_model(
                insert_model(w, Event::TransportClosed { server, client_id: a }),
                Event::TransportClosed { server, client_id: b },
            );
            w2.closed.contains_key(server@) && w2.closed[server@].contains(a)
                && w2.closed[server@].contains(b)
        }),
{
}

/// A close never both removes a client and reports it stale: a close names the current
/// stdio client or a replaced one, not both.
pub proof fn law_dead_and_stale_exclusive(clients: Map<Seq<char>, Client>, server: Seq<char>, ids: Set<u64>)
    ensures
        !(dead(clients, server, ids) && stale(clients, server, ids)),
{
}

/// The servers being shut down: a removal starts it, readiness ends it.
pub struct ShutdownState {
    pub shutting_down: TextMap<&'static str, ()>,
}

impl ShutdownState {
    pub fn new() -> (s: Self)
        ensures
            s.shutting_down.wf(),
            s.shutting_down@.dom() == Set::<Seq<char>>::empty(),
    {
        ShutdownState { shutting_down: TextMap::new() }
    }

    pub fn observe(&mut self, event: &Event)
        requires
            old(self).shutting_down.wf(),
        ensures
            final(self).shutting_down.wf(),
            final(self).shutting_down@.dom() == match *event {
                Event::ConfigRemoved { server } => old(self).shutting_down@.dom().insert(server@),
                Event::Ready { server } => old(self).shutting_down@.dom().remove(server@),
                _ => old(self).shutting_down@.dom(),
            },
    {
        match event {
            Event::ConfigRemoved { server } => {
                self.shutting_down.insert(*server, ());
            },
            Event::Ready { server } => {
                self.shutting_down.remove(server);
            },
            _ => {},
        }
    }

    pub fn is_shutting_down(&self, server: &str) -> (r: bool)
        requires
            self.shutting_down.wf(),
        ensures
            r == self.shutting_down@.contains_key(server@),
    {
        self.shutting_down.contains_key(server)
    }
}

} // verus!
