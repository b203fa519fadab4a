//! One turn end to end: local echo, admission, two samples around a tool call, a replay
//! flush before the prompt response, and durable persistence at each boundary.
use vstd::prelude::*;
use vstd::string::*;

verus! {

#[derive(Debug, PartialEq, Eq)]
pub enum ChatItem {
    User(&'static str),
    AssistantToolCall { call_id: &'static str },
    ToolResult { call_id: &'static str },
    AssistantText(&'static str),
}

#[derive(Default)]
pub struct ChatState {
    pub conversation: Vec<ChatItem>,
}

#[derive(Default)]
pub struct Pager {
    pub user_entries: Vec<&'static str>,
    pub updates: Vec<String>,
    pub prompt_response_received: bool,
}

#[derive(Default)]
pub struct Persistence {
    pub queued: Vec<String>,
    pub durable: Vec<String>,
}

pub open spec fn texts(v: Seq<String>) -> Seq<Seq<char>> {
    v.map_values(|s: String| s@)
}

impl Persistence {
    /// Queues an event; nothing is durable yet.
    pub fn enqueue(&mut self, event: String)
        ensures
            texts(final(self).queued@) == texts(old(self).queued@).push(event@),
            final(self).durable == old(self).durable,
    {
        self.queued.push(event);
        assert(texts(self.queued@) =~= texts(old(self).queued@).push(event@));
    }

    /// Everything queued becomes durable, in order, and the queue empties.
    pub fn flush_and_ack(&mut self)
        ensures
            final(self).durable@ == old(self).durable@ + old(self).queued@,
            final(self).queued@ == Seq::<String>::empty(),
    {
        self.durable.append(&mut self.queued);
    }
}

#[derive(Default)]
pub struct ReplayBuffer {
    pub pending: String,
}

impl ReplayBuffer {
    /// Buffers streamed text.
    pub fn push_text(&mut self, text: &str)
        ensures
            final(self).pending@ == old(self).pending@ + text@,
    {
        self.pending.append(text);
    }

    /// Emits the buffered text as one pager update, if there is any.
    pub fn flush(&mut self, pager: &mut Pager)
        ensures
            final(self).pending@ == Seq::<char>::empty(),
            texts(final(pager).updates@) == if old(self).pending@.len() == 0 {
                texts(old(pager).updates@)
            } else {
                texts(old(pager).updates@).push(old(self).pending@)
            },
            final(pager).user_entries == old(pager).user_entries,
            final(pager).prompt_response_received == old(pager).prompt_response_received,
    {
        if !self.pending.as_str().is_empty() {
            let mut taken = String::new();
            std::mem::swap(&mut taken, &mut self.pending);
            pager.updates.push(taken);
            assert(texts(pager.updates@) =~= texts(old(pager).updates@).push(old(self).pending@));
        }
    }
}

pub struct TurnResult {
    pub samples: usize,
    pub tool_runs: usize,
    pub timeline: Vec<&'static str>,
}

/// The order in which a turn passes its stages.
pub open spec fn turn_timeline() -> Seq<&'static str> {
    seq![
        "pager:local-echo",
        "session:admit",
        "persistence:user-ack",
        "sampler:request-1",
        "permission:allow",
        "tool:tc-17",
        "sampler:request-2",
        "replay:flush",
        "rpc:prompt-response",
        "persistence:turn-completed",
        "session:start-next",
    ]
}

/// Runs one turn of prompt `prompt_id`.
pub fn run_turn(
    prompt_id: &'static str,
    pager: &mut Pager,
    chat: &mut ChatState,
    persistence: &mut Persistence,
) -> (r: TurnResult)
    ensures
        r.samples == 2,
        r.tool_runs == 1,
        r.timeline@ == turn_timeline(),
        final(pager).user_entries@ == old(pager).user_entries@.push("Read src/main.rs"),
        texts(final(pager).updates@) == texts(old(pager).updates@).push(
            "Inspecting"@ + "Entry is main."@,
        ),
        final(pager).prompt_response_received,
        final(chat).conversation@ == old(chat).conversation@ + seq![
            ChatItem::User("Read src/main.rs"),
            ChatItem::AssistantToolCall { call_id: "tc-17" },
            ChatItem::ToolResult { call_id: "tc-17" },
            ChatItem::AssistantText("Entry is main."),
        ],
        final(persistence).queued@ == Seq::<String>::empty(),
        texts(final(persistence).durable@) == texts(old(persistence).durable@) + texts(
            old(persistence).queued@,
        ) + seq!["chat:user:"@ + prompt_id@, "update:turn-completed:"@ + prompt_id@],
{
    let mut timeline = Vec::new();
    let mut replay = ReplayBuffer { pending: String::new() };
    let ghost durable0 = texts(persistence.durable@) + texts(persistence.queued@);

    pager.user_entries.push("Read src/main.rs");
    timeline.push("pager:local-echo");

    timeline.push("session:admit");
    chat.conversation.push(ChatItem::User("Read src/main.rs"));
    persistence.enqueue(String::from_str("chat:user:").concat(prompt_id));
    persistence.flush_and_ack();
    timeline.push("persistence:user-ack");
    let ghost durable1 = texts(persistence.durable@);
    assert(durable1 =~= durable0.push("chat:user:"@ + prompt_id@));

    timeline.push("sampler:request-1");
    replay.push_text("Inspecting");
    chat.conversation.push(ChatItem::AssistantToolCall { call_id: "tc-17" });

    timeline.push("permission:allow");
    timeline.push("tool:tc-17");
    chat.conversation.push(ChatItem::ToolResult { call_id: "tc-17" });

    timeline.push("sampler:request-2");
    replay.push_text("Entry is main.");
    chat.conversation.push(ChatItem::AssistantText("Entry is main."));

    proof {
        reveal_strlit("Inspecting");
    }
    replay.flush(pager);
    timeline.push("replay:flush");
    pager.prompt_response_received = true;
    timeline.push("rpc:prompt-response");

    let ghost raw1 = persistence.durable@;
    assert(texts(persistence.queued@) =~= Seq::<Seq<char>>::empty());
    persistence.enqueue(String::from_str("update:turn-completed:").concat(prompt_id));
    assert(texts(persistence.queued@) =~= seq!["update:turn-completed:"@ + prompt_id@]);
    let ghost q = persistence.queued@;
    persistence.flush_and_ack();
    assert(texts(raw1 + q) =~= texts(raw1) + texts(q));
    timeline.push("persistence:turn-completed");
    timeline.push("session:start-next");
    assert(texts(persistence.durable@) =~= durable1.push("update:turn-completed:"@ + prompt_id@));
    assert(timeline@ =~= turn_timeline());
    assert(chat.conversation@ =~= old(chat).conversation@ + seq![
        ChatItem::User("Read src/main.rs"),
        ChatItem::AssistantToolCall { call_id: "tc-17" },
        ChatItem::ToolResult { call_id: "tc-17" },
        ChatItem::AssistantText("Entry is main."),
    ]);
    TurnResult { samples: 2, tool_runs: 1, timeline }
}

} // verus!
