//! Replay ordering: streamed text is coalesced until a non-streaming update arrives, which
//! is emitted after the text that preceded it.
use vstd::prelude::*;
use vstd::string::*;

verus! {

#[derive(Debug, PartialEq, Eq)]
pub enum ClientUpdate {
    Text(String),
    ToolCall(String),
    TurnCompleted,
}

pub enum UpdateModel {
    Text(Seq<char>),
    ToolCall(Seq<char>),
    TurnCompleted,
}

impl View for ClientUpdate {
    type V = UpdateModel;

    open spec fn view(&self) -> UpdateModel {
        match self {
            ClientUpdate::Text(t) => UpdateModel::Text(t@),
            ClientUpdate::ToolCall(t) => UpdateModel::ToolCall(t@),
            ClientUpdate::TurnCompleted => UpdateModel::TurnCompleted,
        }
    }
}

pub open spec fn updates(v: Seq<ClientUpdate>) -> Seq<UpdateModel> {
    v.map_values(|u: ClientUpdate| u@)
}

pub struct ReplayBuffer {
    pub pending_text: Option<String>,
}

/// The buffered text, if any.
pub open spec fn pending(b: ReplayBuffer) -> Option<Seq<char>> {
    match b.pending_text {
        Some(t) => Some(t@),
        None => None,
    }
}

/// What a flush emits.
pub open spec fn flushed(p: Option<Seq<char>>) -> Seq<UpdateModel> {
    match p {
        Some(t) => seq![UpdateModel::Text(t)],
        None => Seq::empty(),
    }
}

/// One update taken in: text is buffered; anything else is emitted after the buffered text.
pub open spec fn consume_model(p: Option<Seq<char>>, u: UpdateModel) -> (Option<Seq<char>>, Seq<UpdateModel>) {
    match u {
        UpdateModel::Text(t) => (
            Some(
                match p {
                    Some(q) => q + t,
                    None => t,
                },
            ),
            Seq::empty(),
        ),
        _ => (None, flushed(p).push(u)),
    }
}

/// Updates taken in one after another: what stays buffered and what was emitted.
pub open spec fn replay_run(p: Option<Seq<char>>, us: Seq<UpdateModel>) -> (Option<Seq<char>>, Seq<UpdateModel>)
    decreases us.len(),
{
    if us.len() == 0 {
        (p, Seq::empty())
    } else {
        let (p1, out1) = replay_run(p, us.drop_last());
        let (p2, out2) = consume_model(p1, us.last());
        (p2, out1 + out2)
    }
}

/// The updates that are not streamed text, in order.
pub open spec fn non_text(s: Seq<UpdateModel>) -> Seq<UpdateModel>
    decreases s.len(),
{
    if s.len() == 0 {
        Seq::empty()
    } else if s.last() is Text {
        non_text(s.drop_last())
    } else {
        non_text(s.drop_last()).push(s.last())
    }
}

/// All streamed text, concatenated.
pub open spec fn all_text(s: Seq<UpdateModel>) -> Seq<char>
    decreases s.len(),
{
    if s.len() == 0 {
        Seq::empty()
    } else {
        match s.last() {
            UpdateModel::Text(t) => all_text(s.drop_last()) + t,
            _ => all_text(s.drop_last()),
        }
    }
}

pub open spec fn pending_text(p: Option<Seq<char>>) -> Seq<char> {
    match p {
        Some(t) => t,
        None => Seq::empty(),
    }
}

proof fn lemma_split_concat(a: Seq<UpdateModel>, b: Seq<UpdateModel>)
    ensures
        non_text(a + b) == non_text(a) + non_text(b),
        all_text(a + b) == all_text(a) + all_text(b),
    decreases b.len(),
{
    if b.len() == 0 {
        assert(a + b =~= a);
        assert(non_text(a) + non_text(b) =~= non_text(a));
        assert(all_text(a) + all_text(b) =~= all_text(a));
    } else {
        lemma_split_concat(a, b.drop_last());
        assert((a + b).drop_last() =~= a + b.drop_last());
        assert((a + b).last() == b.last());
        assert(non_text(a + b) =~= non_text(a) + non_text(b));
        assert(all_text(a + b) =~= all_text(a) + all_text(b));
    }
}

/// Replay reorders nothing and loses nothing: the non-text updates come out in the order they
/// went in, and the emitted text followed by what is still buffered is all the text that went
/// in.
pub proof fn law_replay_preserves_order_and_text(us: Seq<UpdateModel>)
    ensures
        non_text(replay_run(None, us).1) == non_text(us),
        all_text(replay_run(None, us).1) + pending_text(replay_run(None, us).0) == all_text(us),
    decreases us.len(),
{
    if us.len() > 0 {
        law_replay_preserves_order_and_text(us.drop_last());
        let (p1, out1) = replay_run(None, us.drop_last());
        let (p2, out2) = consume_model(p1, us.last());
        lemma_split_concat(out1, out2);
        match us.last() {
            UpdateModel::Text(t) => {
                assert(out2 =~= Seq::<UpdateModel>::empty());
                assert(non_text(out2) =~= Seq::<UpdateModel>::empty());
                assert(all_text(out2) =~= Seq::<char>::empty());
                assert(all_text(out1) + all_text(out2) =~= all_text(out1));
                assert(all_text(out1) + pending_text(p2) =~= all_text(out1) + pending_text(p1) + t);
            },
            _ => {
                let u = us.last();
                let none = Seq::<UpdateModel>::empty();
                assert(all_text(none) =~= Seq::<char>::empty());
                assert(non_text(none) =~= none);
                assert(!(u is Text));
                assert(seq![u].drop_last() =~= none);
                assert(seq![u].last() == u);
                assert(all_text(seq![u]) =~= all_text(none));
                assert(non_text(seq![u]) =~= non_text(none).push(u));
                match p1 {
                    Some(q) => {
                        assert(out2 =~= seq![UpdateModel::Text(q), u]);
                        assert(seq![UpdateModel::Text(q), u].drop_last() =~= seq![UpdateModel::Text(q)]);
                        let tq = seq![UpdateModel::Text(q)];
                        assert(tq.drop_last() =~= none);
                        assert(all_text(tq) =~= all_text(none) + q);
                        assert(non_text(tq) =~= non_text(none));
                        assert(out2.drop_last() =~= tq);
                        assert(out2.last() == u);
                        assert(all_text(out2) =~= q);
                        assert(non_text(out2) =~= seq![u]);
                    },
                    None => {
                        assert(out2 =~= seq![u]);
                        assert(seq![u].drop_last() =~= Seq::<UpdateModel>::empty());
                        assert(all_text(out2) =~= Seq::<char>::empty());
                        assert(non_text(out2) =~= seq![u]);
                    },
                }
                assert(all_text(out1) + all_text(out2) + pending_text(p2) =~= all_text(out1) + pending_text(p1));
            },
        }
    }
}

impl ReplayBuffer {
    pub fn new() -> (b: Self)
        ensures
            pending(b) is None,
    {
        Self { pending_text: None }
    }

    /// Streamed text is buffered; anything else is emitted after the buffered text.
    pub fn consume(&mut self, update: ClientUpdate) -> (ready: Vec<ClientUpdate>)
        ensures
            (pending(*final(self)), updates(ready@)) == consume_model(pending(*old(self)), update@),
            match update@ {
                UpdateModel::Text(t) => {
                    &&& pending(*final(self)) == Some(
                        match pending(*old(self)) {
                            Some(p) => p + t,
                            None => t,
                        },
                    )
                    &&& ready@.len() == 0
                },
                _ => {
                    &&& pending(*final(self)) is None
                    &&& updates(ready@) == flushed(pending(*old(self))).push(update@)
                },
            },
    {
        match update {
            ClientUpdate::Text(text) => {
                match self.pending_text.take() {
                    Some(mut buffered) => {
                        buffered.append(text.as_str());
                        self.pending_text = Some(buffered);
                    },
                    None => {
                        let mut buffered = String::new();
                        buffered.append(text.as_str());
                        self.pending_text = Some(buffered);
                    },
                }
                Vec::new()
            },
            non_streaming => {
                let ghost u = non_streaming@;
                let mut ready = Vec::new();
                match self.flush() {
                    Some(text) => ready.push(text),
                    None => {},
                }
                ready.push(non_streaming);
                assert(updates(ready@) =~= flushed(pending(*old(self))).push(u));
                ready
            },
        }
    }

    /// Emits the buffered text, if any.
    pub fn flush(&mut self) -> (r: Option<ClientUpdate>)
        ensures
            pending(*final(self)) is None,
            match r {
                Some(u) => pending(*old(self)) == Some(u@->Text_0) && u@ is Text,
                None => pending(*old(self)) is None,
            },
    {
        match self.pending_text.take() {
            Some(text) => Some(ClientUpdate::Text(text)),
            None => None,
        }
    }
}

} // verus!
