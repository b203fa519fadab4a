//! A transcript pager fed by streamed session updates: agent text merges per stream,
//! an optimistic local echo is suppressed once, tool output is routed by call ID
//! (also when it arrives before the tool started), and the follow state tracks scrolling.
use crate::text::{blank, is_blank};
use crate::textmap::TextMap;
use vstd::prelude::*;
use vstd::string::*;

verus! {

pub type EntryId = u64;

#[derive(Clone, Copy, Debug, PartialEq, Eq, Structural)]
pub enum ToolStatus {
    Running,
    Completed,
    Failed,
}

#[derive(Debug, PartialEq, Eq)]
pub enum RenderBlock {
    User { text: String },
    Agent { stream: u64, text: String, running: bool },
    Tool { call_id: &'static str, title: &'static str, output: String, status: ToolStatus },
}

#[derive(Debug, PartialEq, Eq)]
pub struct Entry {
    pub id: EntryId,
    pub block: RenderBlock,
}

#[derive(Clone, Copy, Debug)]
pub enum Update {
    UserChunk(&'static str),
    AgentChunk { stream: u64, text: &'static str },
    ToolStart { call_id: &'static str, title: &'static str },
    ToolDelta { call_id: &'static str, output: &'static str, status: ToolStatus },
}

/// What a block shows.
pub enum BlockModel {
    User { text: Seq<char> },
    Agent { stream: u64, text: Seq<char>, running: bool },
    Tool { call_id: Seq<char>, title: Seq<char>, output: Seq<char>, status: ToolStatus },
}

pub struct EntryModel {
    pub id: EntryId,
    pub block: BlockModel,
}

pub struct PagerModel {
    pub entries: Seq<EntryModel>,
    pub next_id: EntryId,
    pub following: bool,
    pub scroll_at_bottom: bool,
}

impl View for RenderBlock {
    type V = BlockModel;

    open spec fn view(&self) -> BlockModel {
        match self {
            RenderBlock::User { text } => BlockModel::User { text: text@ },
            RenderBlock::Agent { stream, text, running } => BlockModel::Agent {
                stream: *stream,
                text: text@,
                running: *running,
            },
            RenderBlock::Tool { call_id, title, output, status } => BlockModel::Tool {
                call_id: call_id@,
                title: title@,
                output: output@,
                status: *status,
            },
        }
    }
}

impl View for Entry {
    type V = EntryModel;

    open spec fn view(&self) -> EntryModel {
        EntryModel { id: self.id, block: self.block@ }
    }
}

impl PagerModel {
    /// Entry IDs increase strictly along the transcript and stay below `next_id`.
    pub open spec fn wf(self) -> bool {
        &&& forall|i: int, j: int|
            0 <= i < j < self.entries.len() ==> #[trigger] self.entries[i].id
                < #[trigger] self.entries[j].id
        &&& forall|i: int| 0 <= i < self.entries.len() ==> #[trigger] self.entries[i].id < self.next_id
    }

    pub open spec fn has(self, id: EntryId) -> bool {
        exists|i: int| 0 <= i < self.entries.len() && #[trigger] self.entries[i].id == id
    }

    /// The first position holding `id`.
    pub open spec fn pos(self, id: EntryId) -> int {
        choose|i: int|
            0 <= i < self.entries.len() && #[trigger] self.entries[i].id == id && forall|j: int|
                0 <= j < i ==> #[trigger] self.entries[j].id != id
    }

    pub open spec fn push(self, block: BlockModel) -> PagerModel {
        PagerModel {
            entries: self.entries.push(EntryModel { id: self.next_id, block }),
            next_id: (self.next_id + 1) as u64,
            scroll_at_bottom: if self.following { true } else { self.scroll_at_bottom },
            ..self
        }
    }

    pub open spec fn with_block(self, i: int, block: BlockModel) -> PagerModel {
        PagerModel {
            entries: self.entries.update(i, EntryModel { id: self.entries[i].id, block }),
            ..self
        }
    }

    /// The block under `id`, if it is an agent block, stops running.
    pub open spec fn stop_agent(self, id: EntryId) -> PagerModel {
        if self.has(id) {
            match self.entries[self.pos(id)].block {
                BlockModel::Agent { stream, text, running } => self.with_block(
                    self.pos(id),
                    BlockModel::Agent { stream, text, running: false },
                ),
                _ => self,
            }
        } else {
            self
        }
    }

    /// The agent block under `id` gets `chunk` appended.
    pub open spec fn append_agent(self, id: EntryId, chunk: Seq<char>) -> PagerModel {
        match self.entries[self.pos(id)].block {
            BlockModel::Agent { stream, text, running } => self.with_block(
                self.pos(id),
                BlockModel::Agent { stream, text: text + chunk, running },
            ),
            _ => self,
        }
    }

    /// The tool block under `id` gets `chunk` appended and takes `status`.
    pub open spec fn update_tool(self, id: EntryId, chunk: Seq<char>, status: ToolStatus) -> PagerModel {
        match self.entries[self.pos(id)].block {
            BlockModel::Tool { call_id, title, output, .. } => self.with_block(
                self.pos(id),
                BlockModel::Tool { call_id, title, output: output + chunk, status },
            ),
            _ => self,
        }
    }

    /// Every tool block whose ID is in `ids` is marked failed.
    pub open spec fn fail_tools(self, ids: Set<EntryId>) -> PagerModel {
        PagerModel {
            entries: self.entries.map_values(
                |e: EntryModel|
                    if ids.contains(e.id) {
                        match e.block {
                            BlockModel::Tool { call_id, title, output, .. } => EntryModel {
                                id: e.id,
                                block: BlockModel::Tool { call_id, title, output, status: ToolStatus::Failed },
                            },
                            _ => e,
                        }
                    } else {
                        e
                    },
            ),
            ..self
        }
    }

    pub open spec fn is_agent_at(self, id: EntryId) -> bool {
        self.has(id) && self.entries[self.pos(id)].block is Agent
    }

    pub open spec fn is_tool_at(self, id: EntryId) -> bool {
        self.has(id) && self.entries[self.pos(id)].block is Tool
    }
}

/// In a well-formed pager, an entry's position is found by its ID.
pub proof fn lemma_pos(p: PagerModel, i: int)
    requires
        p.wf(),
        0 <= i < p.entries.len(),
    ensures
        p.has(p.entries[i].id),
        p.pos(p.entries[i].id) == i,
{
    let id = p.entries[i].id;
    assert(p.has(id));
    assert(forall|j: int| 0 <= j < i ==> #[trigger] p.entries[j].id != id) by {
        assert forall|j: int| 0 <= j < i implies #[trigger] p.entries[j].id != id by {
            assert(p.entries[j].id < p.entries[i].id);
        }
    }
    let k = p.pos(id);
    if k != i {
        if k < i {
            assert(p.entries[k].id < p.entries[i].id);
        } else {
            assert(p.entries[i].id < p.entries[k].id);
        }
    }
}

/// The first position holding an ID, when there is one, is the one `pos` names.
proof fn lemma_first_pos(p: PagerModel, id: EntryId, i: int)
    requires
        0 <= i < p.entries.len(),
        p.entries[i].id == id,
        forall|j: int| 0 <= j < i ==> #[trigger] p.entries[j].id != id,
    ensures
        p.has(id),
        p.pos(id) == i,
{
    assert(p.has(id));
    let k = p.pos(id);
    if k < i {
        assert(p.entries[k].id != id);
    } else if k > i {
        assert(p.entries[i].id != id);
    }
}

#[derive(Debug)]
pub struct PagerState {
    pub entries: Vec<Entry>,
    pub next_id: EntryId,
    pub following: bool,
    pub scroll_at_bottom: bool,
}

impl View for PagerState {
    type V = PagerModel;

    open spec fn view(&self) -> PagerModel {
        PagerModel {
            entries: self.entries@.map_values(|e: Entry| e@),
            next_id: self.next_id,
            following: self.following,
            scroll_at_bottom: self.scroll_at_bottom,
        }
    }
}

impl Default for PagerState {
    fn default() -> (s: Self)
        ensures
            s@.entries == Seq::<EntryModel>::empty(),
            s@.next_id == 1,
            s@.following,
            s@.scroll_at_bottom,
            s@.wf(),
    {
        let s = Self { entries: Vec::new(), next_id: 1, following: true, scroll_at_bottom: true };
        assert(s@.entries =~= Seq::<EntryModel>::empty());
        s
    }
}

impl PagerState {
    /// Appends a block under a fresh ID; a following pager snaps back to the bottom.
    pub fn push(&mut self, block: RenderBlock) -> (id: EntryId)
        requires
            old(self).next_id < u64::MAX,
        ensures
            id == old(self).next_id,
            final(self)@ == old(self)@.push(block@),
            old(self)@.wf() ==> final(self)@.wf(),
    {
        let id = self.next_id;
        self.next_id += 1;
        self.entries.push(Entry { id, block });
        if self.following {
            self.scroll_at_bottom = true;
        }
        assert(self@.entries =~= old(self)@.entries.push(EntryModel { id, block: block@ }));
        id
    }

    /// The first entry holding `id`, to be changed in place.
    pub fn get_mut(&mut self, id: EntryId) -> (r: Option<&mut Entry>)
        ensures
            final(self).next_id == old(self).next_id,
            final(self).following == old(self).following,
            final(self).scroll_at_bottom == old(self).scroll_at_bottom,
            match r {
                Some(e) => {
                    &&& old(self)@.has(id)
                    &&& *e == old(self).entries@[old(self)@.pos(id)]
                    &&& final(self).entries@ == old(self).entries@.update(
                        old(self)@.pos(id),
                        *final(e),
                    )
                },
                None => !old(self)@.has(id) && *final(self) == *old(self),
            },
    {
        let mut i: usize = 0;
        while i < self.entries.len()
            invariant
                i <= self.entries@.len(),
                *self == *old(self),
                forall|j: int| 0 <= j < i ==> #[trigger] self.entries@[j].id != id,
            decreases self.entries@.len() - i,
        {
            if self.entries[i].id == id {
                proof {
                    lemma_first_pos(old(self)@, id, i as int);
                }
                return Some(&mut self.entries[i]);
            }
            i += 1;
        }
        proof {
            if old(self)@.has(id) {
                let k = choose|k: int| 0 <= k < old(self)@.entries.len() && #[trigger] old(self)@.entries[k].id == id;
                assert(self.entries@[k].id == id);
            }
        }
        None
    }

    pub fn user_scrolled_up(&mut self)
        ensures
            final(self)@ == (PagerModel { following: false, scroll_at_bottom: false, ..old(self)@ }),
    {
        self.following = false;
        self.scroll_at_bottom = false;
    }

    pub fn return_to_bottom(&mut self)
        ensures
            final(self)@ == (PagerModel { following: true, scroll_at_bottom: true, ..old(self)@ }),
    {
        self.following = true;
        self.scroll_at_bottom = true;
    }
}

/// The tracker's state as the reducer reads it.
pub struct TrackerModel {
    pub current_agent: Option<(u64, EntryId)>,
    pub pending_tools: Map<Seq<char>, EntryId>,
    pub orphan_tool_updates: Map<Seq<char>, (Seq<char>, ToolStatus)>,
    pub skip_next_user_echo: bool,
}

impl TrackerModel {
    /// Every ID the tracker holds names a block of the right kind in the pager.
    pub open spec fn fits(self, p: PagerModel) -> bool {
        &&& forall|k: Seq<char>| #[trigger]
            self.pending_tools.contains_key(k) ==> p.is_tool_at(self.pending_tools[k])
        &&& match self.current_agent {
            Some((_, id)) => p.is_agent_at(id),
            None => true,
        }
    }
}

/// Closing the open agent block, if any.
pub open spec fn finish_agent_model(t: TrackerModel, p: PagerModel) -> (TrackerModel, PagerModel) {
    match t.current_agent {
        Some((_, id)) => (TrackerModel { current_agent: None, ..t }, p.stop_agent(id)),
        None => (t, p),
    }
}

/// Routing tool output to the tool's block; a terminal status ends the routing.
pub open spec fn update_tool_model(
    t: TrackerModel,
    p: PagerModel,
    call_id: Seq<char>,
    output: Seq<char>,
    status: ToolStatus,
) -> (TrackerModel, PagerModel) {
    let id = t.pending_tools[call_id];
    (
        if status != ToolStatus::Running {
            TrackerModel { pending_tools: t.pending_tools.remove(call_id), ..t }
        } else {
            t
        },
        p.update_tool(id, output, status),
    )
}

/// What one update does to the tracker and the pager, and whether it changed the transcript.
pub open spec fn apply_model(t: TrackerModel, p: PagerModel, update: Update) -> (
    TrackerModel,
    PagerModel,
    bool,
) {
    match update {
        Update::UserChunk(text) => {
            let (t1, p1) = finish_agent_model(t, p);
            if t1.skip_next_user_echo {
                (TrackerModel { skip_next_user_echo: false, ..t1 }, p1, false)
            } else {
                (t1, p1.push(BlockModel::User { text: text@ }), true)
            }
        },
        Update::AgentChunk { stream, text } => {
            if text@.len() == 0 || (t.current_agent is None && blank(text@)) {
                (t, p, false)
            } else {
                let (t1, p1) = match t.current_agent {
                    Some((current_stream, _)) => if current_stream != stream {
                        finish_agent_model(t, p)
                    } else {
                        (t, p)
                    },
                    None => (t, p),
                };
                match t1.current_agent {
                    Some((_, id)) => (t1, p1.append_agent(id, text@), true),
                    None => {
                        let id = p1.next_id;
                        let p2 = p1.push(
                            BlockModel::Agent { stream, text: Seq::<char>::empty(), running: true },
                        );
                        (
                            TrackerModel { current_agent: Some((stream, id)), ..t1 },
                            p2.append_agent(id, text@),
                            true,
                        )
                    },
                }
            }
        },
        Update::ToolStart { call_id, title } => {
            let (t1, p1) = finish_agent_model(t, p);
            let id = p1.next_id;
            let p2 = p1.push(
                BlockModel::Tool {
                    call_id: call_id@,
                    title: title@,
                    output: Seq::<char>::empty(),
                    status: ToolStatus::Running,
                },
            );
            let t2 = TrackerModel { pending_tools: t1.pending_tools.insert(call_id@, id), ..t1 };
            if t2.orphan_tool_updates.contains_key(call_id@) {
                let (output, status) = t2.orphan_tool_updates[call_id@];
                let t3 = TrackerModel {
                    orphan_tool_updates: t2.orphan_tool_updates.remove(call_id@),
                    ..t2
                };
                let (t4, p4) = update_tool_model(t3, p2, call_id@, output, status);
                (t4, p4, true)
            } else {
                (t2, p2, true)
            }
        },
        Update::ToolDelta { call_id, output, status } => {
            if t.pending_tools.contains_key(call_id@) {
                let (t1, p1) = update_tool_model(t, p, call_id@, output@, status);
                (t1, p1, true)
            } else {
                (
                    TrackerModel {
                        orphan_tool_updates: t.orphan_tool_updates.insert(call_id@, (output@, status)),
                        ..t
                    },
                    p,
                    false,
                )
            }
        },
    }
}

/// Ending a turn: the agent block closes, every tool still routed is marked failed, and
/// nothing stays routed or parked.
pub open spec fn finish_turn_model(t: TrackerModel, p: PagerModel) -> (TrackerModel, PagerModel) {
    let (t1, p1) = finish_agent_model(t, p);
    (
        TrackerModel {
            current_agent: None,
            pending_tools: Map::empty(),
            orphan_tool_updates: Map::empty(),
            skip_next_user_echo: t.skip_next_user_echo,
        },
        p1.fail_tools(t.pending_tools.values()),
    )
}

pub struct Tracker {
    pub current_agent: Option<(u64, EntryId)>,
    pub pending_tools: TextMap<&'static str, EntryId>,
    pub orphan_tool_updates: TextMap<&'static str, (&'static str, ToolStatus)>,
    pub skip_next_user_echo: bool,
}

impl View for Tracker {
    type V = TrackerModel;

    open spec fn view(&self) -> TrackerModel {
        TrackerModel {
            current_agent: self.current_agent,
            pending_tools: self.pending_tools@,
            orphan_tool_updates: self.orphan_tool_updates@.map_values(
                |v: (&'static str, ToolStatus)| (v.0@, v.1),
            ),
            skip_next_user_echo: self.skip_next_user_echo,
        }
    }
}

impl Default for Tracker {
    fn default() -> (t: Self)
        ensures
            t.wf(),
            t@.current_agent is None,
            t@.pending_tools == Map::<Seq<char>, EntryId>::empty(),
            t@.orphan_tool_updates == Map::<Seq<char>, (Seq<char>, ToolStatus)>::empty(),
            !t@.skip_next_user_echo,
    {
        let t = Tracker {
            current_agent: None,
            pending_tools: TextMap::new(),
            orphan_tool_updates: TextMap::new(),
            skip_next_user_echo: false,
        };
        assert(t@.orphan_tool_updates =~= Map::<Seq<char>, (Seq<char>, ToolStatus)>::empty());
        t
    }
}


/// Two transcripts with the same IDs at the same positions locate entries alike.
proof fn lemma_same_ids(p: PagerModel, q: PagerModel)
    requires
        p.wf(),
        p.entries.len() == q.entries.len(),
        q.next_id == p.next_id,
        forall|i: int| 0 <= i < p.entries.len() ==> #[trigger] q.entries[i].id == p.entries[i].id,
    ensures
        q.wf(),
        forall|id: EntryId| #[trigger] q.has(id) == p.has(id),
        forall|id: EntryId| p.has(id) ==> #[trigger] q.pos(id) == p.pos(id),
{
    assert forall|i: int, j: int| 0 <= i < j < q.entries.len() implies #[trigger] q.entries[i].id
        < #[trigger] q.entries[j].id by {
        assert(p.entries[i].id < p.entries[j].id);
    }
    assert forall|id: EntryId| #[trigger] q.has(id) == p.has(id) by {
        if p.has(id) {
            let i = choose|i: int| 0 <= i < p.entries.len() && #[trigger] p.entries[i].id == id;
            assert(q.entries[i].id == id);
        }
        if q.has(id) {
            let i = choose|i: int| 0 <= i < q.entries.len() && #[trigger] q.entries[i].id == id;
            assert(p.entries[i].id == id);
        }
    }
    assert forall|id: EntryId| p.has(id) implies #[trigger] q.pos(id) == p.pos(id) by {
        let i = choose|i: int| 0 <= i < p.entries.len() && #[trigger] p.entries[i].id == id;
        lemma_pos(p, i);
        lemma_pos(q, i);
    }
}

/// Pushing keeps every entry where it was and adds one under the fresh ID.
proof fn lemma_push(p: PagerModel, b: BlockModel)
    requires
        p.wf(),
        p.next_id < u64::MAX,
    ensures
        p.push(b).wf(),
        p.push(b).has(p.next_id),
        p.push(b).pos(p.next_id) == p.entries.len(),
        forall|id: EntryId| p.has(id) ==> #[trigger] p.push(b).has(id) && p.push(b).pos(id) == p.pos(id),
        forall|id: EntryId| p.has(id) ==> p.push(b).entries[p.pos(id)] == p.entries[p.pos(id)],
{
    let q = p.push(b);
    assert forall|i: int, j: int| 0 <= i < j < q.entries.len() implies #[trigger] q.entries[i].id
        < #[trigger] q.entries[j].id by {
        if j == p.entries.len() {
            assert(p.entries[i].id < p.next_id);
        } else {
            assert(p.entries[i].id < p.entries[j].id);
        }
    }
    lemma_pos(q, p.entries.len() as int);
    assert forall|id: EntryId| p.has(id) implies #[trigger] q.has(id) && q.pos(id) == p.pos(id) by {
        let i = choose|i: int| 0 <= i < p.entries.len() && #[trigger] p.entries[i].id == id;
        lemma_pos(p, i);
        lemma_pos(q, i);
    }
}

/// Changing one block in place without changing its kind keeps the tracker fitting.
proof fn lemma_fits_kind_kept(t: TrackerModel, p: PagerModel, q: PagerModel, i: int)
    requires
        p.wf(),
        t.fits(p),
        0 <= i < p.entries.len(),
        q.entries.len() == p.entries.len(),
        q.next_id == p.next_id,
        forall|j: int| 0 <= j < p.entries.len() ==> #[trigger] q.entries[j].id == p.entries[j].id,
        forall|j: int| 0 <= j < p.entries.len() && j != i ==> #[trigger] q.entries[j] == p.entries[j],
        (q.entries[i].block is Agent) == (p.entries[i].block is Agent),
        (q.entries[i].block is Tool) == (p.entries[i].block is Tool),
    ensures
        q.wf(),
        t.fits(q),
{
    lemma_same_ids(p, q);
}

impl Tracker {
    pub open spec fn wf(&self) -> bool {
        self.pending_tools.wf() && self.orphan_tool_updates.wf()
    }

    /// The next user chunk is the echo of a prompt already shown.
    pub fn expect_user_echo(&mut self)
        ensures
            final(self)@ == (TrackerModel { skip_next_user_echo: true, ..old(self)@ }),
            final(self).wf() == old(self).wf(),
    {
        self.skip_next_user_echo = true;
    }

    /// Closes the open agent block, if any.
    pub fn finish_agent(&mut self, pager: &mut PagerState)
        requires
            old(self).wf(),
            old(pager)@.wf(),
            old(self)@.fits(old(pager)@),
        ensures
            final(self).wf(),
            final(pager)@.wf(),
            final(self)@.fits(final(pager)@),
            (final(self)@, final(pager)@) == finish_agent_model(old(self)@, old(pager)@),
    {
        let ghost t0 = self@;
        let ghost p0 = pager@;
        if let Some((_, id)) = self.current_agent.take() {
            match pager.get_mut(id) {
                Some(entry) => {
                    match &mut entry.block {
                        RenderBlock::Agent { running, .. } => {
                            *running = false;
                        },
                        _ => {},
                    }
                },
                None => {},
            }
            proof {
                let i = p0.pos(id);
                assert(pager@.entries =~= p0.stop_agent(id).entries);
                lemma_fits_kind_kept(TrackerModel { current_agent: None, ..t0 }, p0, pager@, i);
            }
        }
    }

    /// Routes tool output to the tool's block; a terminal status ends the routing.
    pub fn update_tool(
        &mut self,
        call_id: &'static str,
        output: &'static str,
        status: ToolStatus,
        pager: &mut PagerState,
    )
        requires
            old(self).wf(),
            old(pager)@.wf(),
            old(self)@.fits(old(pager)@),
            old(self)@.pending_tools.contains_key(call_id@),
        ensures
            final(self).wf(),
            final(pager)@.wf(),
            final(self)@.fits(final(pager)@),
            (final(self)@, final(pager)@) == update_tool_model(
                old(self)@,
                old(pager)@,
                call_id@,
                output@,
                status,
            ),
    {
        let ghost t0 = self@;
        let ghost p0 = pager@;
        let id = *self.pending_tools.get(call_id).unwrap();
        match pager.get_mut(id) {
            Some(entry) => {
                match &mut entry.block {
                    RenderBlock::Tool { output: body, status: current, .. } => {
                        body.append(output);
                        *current = status;
                    },
                    _ => {
                        assert(false);
                    },
                }
            },
            None => {
                assert(false);
            },
        }
        proof {
            let i = p0.pos(id);
            assert(pager@.entries =~= p0.update_tool(id, output@, status).entries);
            lemma_fits_kind_kept(t0, p0, pager@, i);
        }
        if status != ToolStatus::Running {
            self.pending_tools.remove(call_id);
        }
    }

    /// Folds one streamed update into the transcript; reports whether it changed it.
    pub fn apply(&mut self, update: Update, pager: &mut PagerState) -> (changed: bool)
        requires
            old(self).wf(),
            old(pager)@.wf(),
            old(self)@.fits(old(pager)@),
            old(pager).next_id < u64::MAX,
        ensures
            final(self).wf(),
            final(pager)@.wf(),
            final(self)@.fits(final(pager)@),
            (final(self)@, final(pager)@, changed) == apply_model(old(self)@, old(pager)@, update),
    {
        match update {
            Update::UserChunk(text) => self.apply_user_chunk(text, pager),
            Update::AgentChunk { stream, text } => self.apply_agent_chunk(stream, text, pager),
            Update::ToolStart { call_id, title } => self.apply_tool_start(call_id, title, pager),
            Update::ToolDelta { call_id, output, status } => self.apply_tool_delta(
                call_id,
                output,
                status,
                pager,
            ),
        }
    }

    fn apply_user_chunk(&mut self, text: &'static str, pager: &mut PagerState) -> (changed: bool)
        requires
            old(self).wf(),
            old(pager)@.wf(),
            old(self)@.fits(old(pager)@),
            old(pager).next_id < u64::MAX,
        ensures
            final(self).wf(),
            final(pager)@.wf(),
            final(self)@.fits(final(pager)@),
            (final(self)@, final(pager)@, changed) == apply_model(
                old(self)@,
                old(pager)@,
                Update::UserChunk(text),
            ),
    {
        let ghost t0 = self@;
        let ghost p0 = pager@;
        self.finish_agent(pager);
        if self.skip_next_user_echo {
            let ghost t1 = self@;
            self.skip_next_user_echo = false;
            assert(self@.pending_tools == t1.pending_tools);
            assert(self@.current_agent == t1.current_agent);
            return false;
        }
        let ghost p1 = pager@;
        pager.push(RenderBlock::User { text: text.to_owned() });
        proof {
            lemma_push(p1, BlockModel::User { text: text@ });
        }
        true
    }

    fn apply_agent_chunk(&mut self, stream: u64, text: &'static str, pager: &mut PagerState) -> (changed: bool)
        requires
            old(self).wf(),
            old(pager)@.wf(),
            old(self)@.fits(old(pager)@),
            old(pager).next_id < u64::MAX,
        ensures
            final(self).wf(),
            final(pager)@.wf(),
            final(self)@.fits(final(pager)@),
            (final(self)@, final(pager)@, changed) == apply_model(
                old(self)@,
                old(pager)@,
                Update::AgentChunk { stream, text },
            ),
    {
        let ghost t0 = self@;
        let ghost p0 = pager@;
        if text.is_empty() || (self.current_agent.is_none() && is_blank(text)) {
            return false;
        }
        let switch = match self.current_agent {
            Some((current_stream, _)) => current_stream != stream,
            None => false,
        };
        if switch {
            self.finish_agent(pager);
        }
        let ghost t1 = self@;
        let ghost p1 = pager@;
        let id = match self.current_agent {
            Some((_, id)) => id,
            None => {
                let id = pager.push(
                    RenderBlock::Agent { stream, text: String::new(), running: true },
                );
                proof {
                    lemma_push(
                        p1,
                        BlockModel::Agent { stream, text: Seq::<char>::empty(), running: true },
                    );
                }
                self.current_agent = Some((stream, id));
                proof {
                    assert forall|k: Seq<char>| #[trigger]
                        self@.pending_tools.contains_key(k) implies pager@.is_tool_at(
                        self@.pending_tools[k],
                    ) by {
                        assert(p1.is_tool_at(t1.pending_tools[k]));
                    }
                    assert(pager@.entries[pager@.pos(id)].block is Agent);
                }
                id
            },
        };
        let ghost p2 = pager@;
        match pager.get_mut(id) {
            Some(entry) => {
                match &mut entry.block {
                    RenderBlock::Agent { text: body, .. } => {
                        body.append(text);
                    },
                    _ => {
                        assert(false);
                    },
                }
            },
            None => {
                assert(false);
            },
        }
        proof {
            assert(pager@.entries =~= p2.append_agent(id, text@).entries);
            lemma_fits_kind_kept(self@, p2, pager@, p2.pos(id));
        }
        true
    }

    fn apply_tool_start(&mut self, call_id: &'static str, title: &'static str, pager: &mut PagerState) -> (changed: bool)
        requires
            old(self).wf(),
            old(pager)@.wf(),
            old(self)@.fits(old(pager)@),
            old(pager).next_id < u64::MAX,
        ensures
            final(self).wf(),
            final(pager)@.wf(),
            final(self)@.fits(final(pager)@),
            (final(self)@, final(pager)@, changed) == apply_model(
                old(self)@,
                old(pager)@,
                Update::ToolStart { call_id, title },
            ),
    {
        let ghost t0 = self@;
        let ghost p0 = pager@;
        self.finish_agent(pager);
        let ghost p1 = pager@;
        let id = pager.push(
            RenderBlock::Tool {
                call_id,
                title,
                output: String::new(),
                status: ToolStatus::Running,
            },
        );
        proof {
            lemma_push(
                p1,
                BlockModel::Tool {
                    call_id: call_id@,
                    title: title@,
                    output: Seq::<char>::empty(),
                    status: ToolStatus::Running,
                },
            );
        }
        let ghost t1 = self@;
        self.pending_tools.insert(call_id, id);
        proof {
            assert forall|k: Seq<char>| #[trigger]
                self@.pending_tools.contains_key(k) implies pager@.is_tool_at(
                self@.pending_tools[k],
            ) by {
                if k != call_id@ {
                    assert(p1.is_tool_at(t1.pending_tools[k]));
                } else {
                    assert(pager@.entries[pager@.pos(id)].block is Tool);
                }
            }
        }
                let ghost t2 = self@;
        proof {
            let (mt1, mp1) = finish_agent_model(t0, p0);
            assert(t1 == mt1);
            assert(p1 == mp1);
            assert(id == mp1.next_id);
            assert(t2 == (TrackerModel { pending_tools: mt1.pending_tools.insert(call_id@, id), ..mt1 }));
        }
        let ghost raw = self.orphan_tool_updates@;
        let parked = self.orphan_tool_updates.remove(call_id);
        proof {
            assert(self@.orphan_tool_updates =~= t0.orphan_tool_updates.remove(call_id@));
        }
        match parked {
            Some((output, status)) => {
                proof {
                    assert(raw.contains_key(call_id@));
                    assert(t0.orphan_tool_updates.contains_key(call_id@));
                    assert(t0.orphan_tool_updates[call_id@] == (output@, status));
                }
                let ghost t3 = self@;
                assert(t3 == (TrackerModel { orphan_tool_updates: t2.orphan_tool_updates.remove(call_id@), ..t2 }));
                self.update_tool(call_id, output, status, pager);
            },
            None => {
                assert(!t0.orphan_tool_updates.contains_key(call_id@));
                assert(self@.orphan_tool_updates =~= t2.orphan_tool_updates);
            },
        }
        true
    }

    fn apply_tool_delta(&mut self, call_id: &'static str, output: &'static str, status: ToolStatus, pager: &mut PagerState) -> (changed: bool)
        requires
            old(self).wf(),
            old(pager)@.wf(),
            old(self)@.fits(old(pager)@),
            old(pager).next_id < u64::MAX,
        ensures
            final(self).wf(),
            final(pager)@.wf(),
            final(self)@.fits(final(pager)@),
            (final(self)@, final(pager)@, changed) == apply_model(
                old(self)@,
                old(pager)@,
                Update::ToolDelta { call_id, output, status },
            ),
    {
        let ghost t0 = self@;
        let ghost p0 = pager@;
        if self.pending_tools.contains_key(call_id) {
            self.update_tool(call_id, output, status, pager);
            true
        } else {
            self.orphan_tool_updates.insert(call_id, (output, status));
            proof {
                assert(self@.pending_tools == t0.pending_tools);
                assert(self@.current_agent == t0.current_agent);
                assert(self@.orphan_tool_updates =~= t0.orphan_tool_updates.insert(
                    call_id@,
                    (output@, status),
                ));
            }
            false
        }
    }

    /// Ends the turn: closes the agent block, fails every tool still running, and forgets
    /// parked output.
    pub fn finish_turn(&mut self, pager: &mut PagerState)
        requires
            old(self).wf(),
            old(pager)@.wf(),
            old(self)@.fits(old(pager)@),
        ensures
            final(self).wf(),
            final(pager)@.wf(),
            final(self)@.fits(final(pager)@),
            (final(self)@, final(pager)@) == finish_turn_model(old(self)@, old(pager)@),
    {
        let ghost t0 = self@;
        self.finish_agent(pager);
        let ghost p1 = pager@;
        let ghost pend = self.pending_tools;
        let drained = self.pending_tools.take_all();
        let mut k: usize = 0;
        proof {
            let none = Set::new(
                |id: EntryId| exists|j: int| 0 <= j < 0 && #[trigger] drained@[j].1 == id,
            );
            assert(none =~= Set::<EntryId>::empty());
            assert(pager@.entries =~= p1.fail_tools(none).entries);
        }
        while k < drained.len()
            invariant
                k <= drained@.len(),
                drained@ == pend.pairs(),
                p1.wf(),
                pager@ == p1.fail_tools(
                    Set::new(|id: EntryId| exists|j: int| 0 <= j < k && #[trigger] drained@[j].1 == id),
                ),
            decreases drained@.len() - k,
        {
            let ghost before = Set::new(
                |id: EntryId| exists|j: int| 0 <= j < k && #[trigger] drained@[j].1 == id,
            );
            let ghost after = Set::new(
                |id: EntryId| exists|j: int| 0 <= j < k + 1 && #[trigger] drained@[j].1 == id,
            );
            let id = drained[k].1;
            let ghost p2 = pager@;
            proof {
                lemma_same_ids(p1, p2);
            }
            match pager.get_mut(id) {
                Some(entry) => {
                    match &mut entry.block {
                        RenderBlock::Tool { status, .. } => {
                            *status = ToolStatus::Failed;
                        },
                        _ => {},
                    }
                },
                None => {},
            }
            proof {
                assert(after =~= before.insert(id));
                assert forall|i: int| 0 <= i < p1.entries.len() implies #[trigger] pager@.entries[i]
                    == p1.fail_tools(after).entries[i] by {
                    assert(p2.entries[i] == p1.fail_tools(before).entries[i]);
                    assert(p2.entries[i].id == p1.entries[i].id);
                    if p1.entries[i].id == id {
                        lemma_pos(p1, i);
                        assert(p2.pos(id) == i);
                    } else {
                        assert(!before.contains(p1.entries[i].id) == !after.contains(p1.entries[i].id));
                        if p2.has(id) {
                            assert(p2.entries[p2.pos(id)].id == id);
                            assert(p2.pos(id) != i);
                        }
                        assert(pager@.entries[i] == p2.entries[i]);
                    }
                }
                assert(pager@.entries =~= p1.fail_tools(after).entries);
            }
            k += 1;
        }
        self.orphan_tool_updates = TextMap::new();
        proof {
            let done = Set::new(
                |id: EntryId| exists|j: int| 0 <= j < drained@.len() && #[trigger] drained@[j].1 == id,
            );
            assert forall|id: EntryId| #[trigger] done.contains(id) == t0.pending_tools.values().contains(id) by {
                if done.contains(id) {
                    let j = choose|j: int| 0 <= j < drained@.len() && #[trigger] drained@[j].1 == id;
                    pend.lemma_index_of_key(j);
                    assert(t0.pending_tools.contains_key(pend.key_at(j)));
                }
                if t0.pending_tools.values().contains(id) {
                    let key = choose|key: Seq<char>| #[trigger] t0.pending_tools.contains_key(key) && t0.pending_tools[key] == id;
                    let j = pend.index_of_key(key);
                    pend.lemma_index_of_key(j);
                    assert(drained@[j].1 == id);
                }
            }
            assert(done =~= t0.pending_tools.values());
            assert(self@.orphan_tool_updates =~= Map::<Seq<char>, (Seq<char>, ToolStatus)>::empty());
            lemma_same_ids(p1, pager@);
        }
    }
}


/// Tool output that arrives before its tool started lands exactly as if it had come after:
/// a delta then a start leaves the tracker and the transcript as a start then a delta does.
pub proof fn law_early_tool_output_is_replayed(
    t: TrackerModel,
    p: PagerModel,
    call_id: &'static str,
    title: &'static str,
    output: &'static str,
    status: ToolStatus,
)
    requires
        !t.pending_tools.contains_key(call_id@),
        !t.orphan_tool_updates.contains_key(call_id@),
    ensures
        ({
            let (t1, p1, _) = apply_model(t, p, Update::ToolDelta { call_id, output, status });
            let (t2, p2, _) = apply_model(t1, p1, Update::ToolStart { call_id, title });
            let (t3, p3, _) = apply_model(t, p, Update::ToolStart { call_id, title });
            let (t4, p4, _) = apply_model(t3, p3, Update::ToolDelta { call_id, output, status });
            t2 == t4 && p2 == p4
        }),
{
    let (t1, p1, _) = apply_model(t, p, Update::ToolDelta { call_id, output, status });
    let (t2, p2, _) = apply_model(t1, p1, Update::ToolStart { call_id, title });
    let (t3, p3, _) = apply_model(t, p, Update::ToolStart { call_id, title });
    let (t4, p4, _) = apply_model(t3, p3, Update::ToolDelta { call_id, output, status });
    assert(t1.orphan_tool_updates.contains_key(call_id@));
    assert(t1.orphan_tool_updates.remove(call_id@) =~= t.orphan_tool_updates);
    assert(t3.pending_tools.contains_key(call_id@));
    if status != ToolStatus::Running {
        assert(t2.pending_tools =~= t4.pending_tools);
    }
    assert(t2.orphan_tool_updates =~= t4.orphan_tool_updates);
}

/// A chunk of the stream that is open merges into that stream's block: its text is appended,
/// no entry is added, and the tracker is unchanged.
pub proof fn law_same_stream_chunk_merges(
    t: TrackerModel,
    p: PagerModel,
    stream: u64,
    id: EntryId,
    text: &'static str,
)
    requires
        t.current_agent == Some((stream, id)),
        p.wf(),
        t.fits(p),
        text@.len() > 0,
    ensures
        apply_model(t, p, Update::AgentChunk { stream, text }) == (t, p.append_agent(id, text@), true),
        p.append_agent(id, text@).entries.len() == p.entries.len(),
{
    let i = choose|i: int| 0 <= i < p.entries.len() && #[trigger] p.entries[i].id == id;
    lemma_pos(p, i);
}

/// A chunk of another stream closes the open agent block before a new block starts.
pub proof fn law_new_stream_closes_previous(
    t: TrackerModel,
    p: PagerModel,
    old_stream: u64,
    id: EntryId,
    stream: u64,
    text: &'static str,
)
    requires
        t.current_agent == Some((old_stream, id)),
        old_stream != stream,
        text@.len() > 0,
    ensures
        ({
            let (t1, p1, changed) = apply_model(t, p, Update::AgentChunk { stream, text });
            let p0 = p.stop_agent(id);
            &&& changed
            &&& t1.current_agent == Some((stream, p0.next_id))
            &&& p1 == p0.push(BlockModel::Agent { stream, text: Seq::<char>::empty(), running: true })
                .append_agent(p0.next_id, text@)
        }),
{
}

} // verus!
