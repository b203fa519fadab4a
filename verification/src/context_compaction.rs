//! Context budgeting: a rough token estimate, request-side pruning of stale tool results,
//! the compaction threshold, and a compaction that keeps the authoritative anchors.
use vstd::prelude::*;
use vstd::string::*;
use vstd::utf8::encode_utf8;

verus! {

#[derive(Clone, Debug, PartialEq, Eq)]
pub enum Item {
    System(String),
    User(String),
    Assistant(String),
    ToolResult(String),
    Reminder(String),
    Summary(String),
}

#[derive(Clone, Copy, Debug, PartialEq, Eq, Structural)]
pub enum ItemKind {
    System,
    User,
    Assistant,
    ToolResult,
    Reminder,
    Summary,
}

/// An item read as its kind and its text.
pub struct ItemModel {
    pub kind: ItemKind,
    pub text: Seq<char>,
}

impl View for Item {
    type V = ItemModel;

    open spec fn view(&self) -> ItemModel {
        match self {
            Item::System(t) => ItemModel { kind: ItemKind::System, text: t@ },
            Item::User(t) => ItemModel { kind: ItemKind::User, text: t@ },
            Item::Assistant(t) => ItemModel { kind: ItemKind::Assistant, text: t@ },
            Item::ToolResult(t) => ItemModel { kind: ItemKind::ToolResult, text: t@ },
            Item::Reminder(t) => ItemModel { kind: ItemKind::Reminder, text: t@ },
            Item::Summary(t) => ItemModel { kind: ItemKind::Summary, text: t@ },
        }
    }
}

pub open spec fn models(items: Seq<Item>) -> Seq<ItemModel> {
    items.map_values(|i: Item| i@)
}

impl Item {
    fn text(&self) -> (r: &String)
        ensures
            r@ == self@.text,
    {
        match self {
            Item::System(t) | Item::User(t) | Item::Assistant(t) | Item::ToolResult(t)
            | Item::Reminder(t) | Item::Summary(t) => t,
        }
    }

    /// A copy with the same kind and text.
    pub fn duplicate(&self) -> (r: Item)
        ensures
            r@ == self@,
    {
        match self {
            Item::System(t) => Item::System(t.clone()),
            Item::User(t) => Item::User(t.clone()),
            Item::Assistant(t) => Item::Assistant(t.clone()),
            Item::ToolResult(t) => Item::ToolResult(t.clone()),
            Item::Reminder(t) => Item::Reminder(t.clone()),
            Item::Summary(t) => Item::Summary(t.clone()),
        }
    }
}

/// About four bytes of UTF-8 per token, rounded up.
pub open spec fn item_tokens(item: ItemModel) -> nat {
    let bytes = encode_utf8(item.text).len();
    if bytes % 4 == 0 {
        bytes / 4
    } else {
        bytes / 4 + 1
    }
}

pub open spec fn tokens(items: Seq<ItemModel>) -> nat
    decreases items.len(),
{
    if items.len() == 0 {
        0
    } else {
        tokens(items.drop_last()) + item_tokens(items.last())
    }
}

/// The estimated token count of a conversation.
pub fn estimated_tokens(items: &[Item]) -> (n: usize)
    requires
        forall|i: int| 0 <= i < items@.len() ==> encode_utf8(#[trigger] items@[i]@.text).len() <= usize::MAX,
        tokens(models(items@)) <= usize::MAX,
    ensures
        n == tokens(models(items@)),
{
    let mut total: usize = 0;
    let mut i: usize = 0;
    while i < items.len()
        invariant
            i <= items@.len(),
            tokens(models(items@)) <= usize::MAX,
            forall|i: int| 0 <= i < items@.len() ==> encode_utf8(#[trigger] items@[i]@.text).len() <= usize::MAX,
            total == tokens(models(items@).take(i as int)),
        decreases items@.len() - i,
    {
        proof {
            assert(models(items@).take(i + 1).drop_last() =~= models(items@).take(i as int));
            lemma_tokens_prefix(models(items@), i + 1);
        }
        let text = items[i].text().as_str();
        let bytes = text.len();
        let per = if bytes % 4 == 0 {
            bytes / 4
        } else {
            bytes / 4 + 1
        };
        proof {
            assert(models(items@).take(i + 1).last() == items@[i as int]@);
            assert(text.spec_bytes() == encode_utf8(items@[i as int]@.text));
            assert(per == item_tokens(items@[i as int]@));
        }
        total = total + per;
        i = i + 1;
    }
    assert(models(items@).take(items@.len() as int) =~= models(items@));
    total
}

/// A prefix never holds more tokens than the whole.
proof fn lemma_tokens_prefix(items: Seq<ItemModel>, k: int)
    requires
        0 <= k <= items.len(),
    ensures
        tokens(items.take(k)) <= tokens(items),
    decreases items.len(),
{
    if k < items.len() {
        assert(items.drop_last().take(k) =~= items.take(k));
        lemma_tokens_prefix(items.drop_last(), k);
    } else {
        assert(items.take(k) =~= items);
    }
}

/// Whether a tool result comes later in the conversation.
pub open spec fn later_tool_result(items: Seq<ItemModel>, i: int) -> bool {
    exists|j: int| i < j < items.len() && #[trigger] items[j].kind == ItemKind::ToolResult
}

/// The request copy: every tool result but the last is replaced by a placeholder; the
/// conversation itself is not touched.
pub open spec fn pruned(items: Seq<ItemModel>) -> Seq<ItemModel> {
    Seq::new(
        items.len(),
        |i: int|
            if items[i].kind == ItemKind::ToolResult && later_tool_result(items, i) {
                ItemModel { kind: ItemKind::ToolResult, text: "[older tool result pruned]"@ }
            } else {
                items[i]
            },
    )
}

/// Builds the request from the conversation, pruning all tool results but the latest.
pub fn build_request_with_pruning(conversation: &[Item]) -> (r: Vec<Item>)
    ensures
        models(r@) == pruned(models(conversation@)),
{
    let ghost items = models(conversation@);
    let n = conversation.len();
    // The position of the latest tool result, if any.
    let mut last: Option<usize> = None;
    let mut k: usize = 0;
    while k < n
        invariant
            k <= n,
            n == conversation@.len(),
            items == models(conversation@),
            match last {
                Some(l) => l < k && items[l as int].kind == ItemKind::ToolResult && forall|j: int|
                    l < j < k ==> #[trigger] items[j].kind != ItemKind::ToolResult,
                None => forall|j: int| 0 <= j < k ==> #[trigger] items[j].kind != ItemKind::ToolResult,
            },
        decreases n - k,
    {
        if let Item::ToolResult(_) = &conversation[k] {
            last = Some(k);
        }
        k = k + 1;
    }
    let mut request: Vec<Item> = Vec::new();
    let mut i: usize = 0;
    while i < n
        invariant
            i <= n,
            n == conversation@.len(),
            items == models(conversation@),
            request@.len() == i,
            match last {
                Some(l) => l < n && items[l as int].kind == ItemKind::ToolResult && forall|j: int|
                    l < j < n ==> #[trigger] items[j].kind != ItemKind::ToolResult,
                None => forall|j: int| 0 <= j < n ==> #[trigger] items[j].kind != ItemKind::ToolResult,
            },
            forall|j: int| 0 <= j < i ==> #[trigger] request@[j]@ == pruned(items)[j],
        decreases n - i,
    {
        let item = &conversation[i];
        let older = match last {
            Some(l) => i < l,
            None => false,
        };
        proof {
            if item@.kind == ItemKind::ToolResult {
                if later_tool_result(items, i as int) {
                    let j = choose|j: int| i < j < items.len() && #[trigger] items[j].kind
                        == ItemKind::ToolResult;
                    assert(items[j].kind == ItemKind::ToolResult);
                }
                if older {
                    assert(items[last->0 as int].kind == ItemKind::ToolResult);
                }
            }
        }
        let copy = match item {
            Item::ToolResult(_) => if older {
                Item::ToolResult(String::from_str("[older tool result pruned]"))
            } else {
                item.duplicate()
            },
            _ => item.duplicate(),
        };
        request.push(copy);
        i = i + 1;
    }
    assert(models(request@) =~= pruned(items));
    request
}

/// The conversation has grown past 85% of the window (products saturate at `usize::MAX`).
pub open spec fn over_threshold(estimated_usage: usize, context_window: usize) -> bool {
    let used = if estimated_usage * 100 > usize::MAX { usize::MAX as int } else { estimated_usage * 100 };
    let limit = if context_window * 85 > usize::MAX { usize::MAX as int } else { context_window * 85 };
    used >= limit
}

fn saturating_times(x: usize, factor: usize) -> (r: usize)
    ensures
        r == if x * factor > usize::MAX { usize::MAX as int } else { x * factor },
{
    match x.checked_mul(factor) {
        Some(v) => v,
        None => usize::MAX,
    }
}

pub fn should_compact(estimated_usage: usize, context_window: usize) -> (r: bool)
    ensures
        r == over_threshold(estimated_usage, context_window),
{
    saturating_times(estimated_usage, 100) >= saturating_times(context_window, 85)
}

/// The text of the first item of a kind.
pub open spec fn first_text(items: Seq<ItemModel>, kind: ItemKind) -> Option<Seq<char>>
    decreases items.len(),
{
    if items.len() == 0 {
        None
    } else if items[0].kind == kind {
        Some(items[0].text)
    } else {
        first_text(items.drop_first(), kind)
    }
}

fn find_first(items: &Vec<Item>, kind: ItemKind) -> (r: Option<String>)
    ensures
        match r {
            Some(t) => first_text(models(items@), kind) == Some(t@),
            None => first_text(models(items@), kind) is None,
        },
{
    let ghost all = models(items@);
    let mut i: usize = 0;
    assert(all.subrange(0, all.len() as int) =~= all);
    while i < items.len()
        invariant
            i <= items@.len(),
            all == models(items@),
            first_text(all, kind) == first_text(all.subrange(i as int, all.len() as int), kind),
        decreases items@.len() - i,
    {
        let ghost rest = all.subrange(i as int, all.len() as int);
        assert(rest.drop_first() =~= all.subrange(i + 1, all.len() as int));
        let item = &items[i];
        let found = match (item, kind) {
            (Item::System(_), ItemKind::System) | (Item::User(_), ItemKind::User) | (
                Item::Assistant(_),
                ItemKind::Assistant,
            ) | (Item::ToolResult(_), ItemKind::ToolResult) | (Item::Reminder(_), ItemKind::Reminder)
            | (Item::Summary(_), ItemKind::Summary) => true,
            _ => false,
        };
        if found {
            return Some(item.text().clone());
        }
        i = i + 1;
    }
    None
}

/// The compacted history: the system prompt, a summary, the original goal, a reminder.
pub open spec fn compacted(items: Seq<ItemModel>) -> Seq<ItemModel> {
    seq![
        ItemModel { kind: ItemKind::System, text: first_text(items, ItemKind::System)->0 },
        ItemModel { kind: ItemKind::Summary, text: "Inspected auth flow; next verify refresh handling."@ },
        ItemModel { kind: ItemKind::User, text: first_text(items, ItemKind::User)->0 },
        ItemModel {
            kind: ItemKind::Reminder,
            text: "Continue from the summary; do not repeat finished work."@,
        },
    ]
}

/// Replaces the history by its compacted form, keeping the first system prompt and the
/// first user message (the original goal).
pub fn compact_authoritative_history(conversation: &mut Vec<Item>)
    requires
        first_text(models(old(conversation)@), ItemKind::System) is Some,
        first_text(models(old(conversation)@), ItemKind::User) is Some,
    ensures
        models(final(conversation)@) == compacted(models(old(conversation)@)),
{
    let system = match find_first(conversation, ItemKind::System) {
        Some(t) => t,
        None => {
            assert(false);
            String::new()
        },
    };
    let original_goal = match find_first(conversation, ItemKind::User) {
        Some(t) => t,
        None => {
            assert(false);
            String::new()
        },
    };
    let ghost before = models(conversation@);
    let mut next: Vec<Item> = Vec::new();
    next.push(Item::System(system));
    next.push(Item::Summary(String::from_str("Inspected auth flow; next verify refresh handling.")));
    next.push(Item::User(original_goal));
    next.push(
        Item::Reminder(String::from_str("Continue from the summary; do not repeat finished work.")),
    );
    *conversation = next;
    assert(models(conversation@) =~= compacted(before));
}

/// Pruning keeps the latest tool result and everything that is not a tool result.
pub proof fn law_pruning_keeps_latest_and_non_tool_items(items: Seq<ItemModel>, i: int)
    requires
        0 <= i < items.len(),
        items[i].kind != ItemKind::ToolResult || !later_tool_result(items, i),
    ensures
        pruned(items).len() == items.len(),
        pruned(items)[i] == items[i],
{
}

/// Token estimates add up: the estimate of two conversations joined is the sum of their
/// estimates, and an empty conversation is estimated at zero.
pub proof fn law_tokens_add(a: Seq<ItemModel>, b: Seq<ItemModel>)
    ensures
        tokens(a + b) == tokens(a) + tokens(b),
        tokens(Seq::<ItemModel>::empty()) == 0,
    decreases b.len(),
{
    if b.len() == 0 {
        assert(a + b =~= a);
    } else {
        law_tokens_add(a, b.drop_last());
        assert((a + b).drop_last() =~= a + b.drop_last());
        assert((a + b).last() == b.last());
    }
}

/// Only the latest tool result reaches the request in full: every tool result that has a
/// later tool result in the conversation becomes the placeholder, and the request has as
/// many items as the conversation.
pub proof fn law_older_tool_results_are_pruned(items: Seq<ItemModel>, i: int, j: int)
    requires
        0 <= i < j < items.len(),
        items[i].kind == ItemKind::ToolResult,
        items[j].kind == ItemKind::ToolResult,
    ensures
        pruned(items).len() == items.len(),
        pruned(items)[i] == (ItemModel {
            kind: ItemKind::ToolResult,
            text: "[older tool result pruned]"@,
        }),
{
    assert(later_tool_result(items, i));
}

} // verus!
