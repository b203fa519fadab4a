//! Trace correlation: events carry the session and prompt of the task that emits them,
//! and external export keeps every number and flag but only allow-listed text attributes.
use crate::text::same_text;
use crate::textmap::TextMap;
use vstd::prelude::*;

verus! {

#[derive(Clone, Debug, PartialEq, Eq)]
pub struct Correlation {
    pub session_id: &'static str,
    pub prompt_id: &'static str,
    pub traceparent: &'static str,
}

#[derive(Debug, PartialEq, Eq)]
pub struct Event {
    pub kind: &'static str,
    pub session_id: Option<&'static str>,
    pub prompt_id: Option<&'static str>,
    pub request_id: Option<&'static str>,
    pub tool_call_id: Option<&'static str>,
}

/// An event stamped with the correlation of the task that emits it, if the task has one.
pub fn event(
    kind: &'static str,
    request_id: Option<&'static str>,
    tool_call_id: Option<&'static str>,
    correlation: Option<&Correlation>,
) -> (e: Event)
    ensures
        e.kind == kind,
        e.request_id == request_id,
        e.tool_call_id == tool_call_id,
        e.session_id == match correlation {
            Some(c) => Some(c.session_id),
            None => None::<&'static str>,
        },
        e.prompt_id == match correlation {
            Some(c) => Some(c.prompt_id),
            None => None::<&'static str>,
        },
{
    let (session_id, prompt_id) = match correlation {
        Some(c) => (Some(c.session_id), Some(c.prompt_id)),
        None => (None, None),
    };
    Event { kind, session_id, prompt_id, request_id, tool_call_id }
}

#[derive(Clone, Debug, PartialEq, Eq)]
pub enum Attribute {
    Text(String),
    Integer(i64),
    Boolean(bool),
}

/// The text attributes that may leave the process.
pub open spec fn allowed_text_key(key: Seq<char>) -> bool {
    key == "session_id"@ || key == "prompt_id"@ || key == "request_id"@ || key == "tool_call_id"@
        || key == "model_id"@ || key == "tool_name"@ || key == "error_kind"@
}

fn is_allowed_text_key(key: &str) -> (r: bool)
    ensures
        r == allowed_text_key(key@),
{
    same_text(key, "session_id") || same_text(key, "prompt_id") || same_text(key, "request_id")
        || same_text(key, "tool_call_id") || same_text(key, "model_id") || same_text(key, "tool_name")
        || same_text(key, "error_kind")
}

/// Export keeps an attribute unless it is text under a key off the allow list.
pub open spec fn exported(value: Attribute, key: Seq<char>) -> bool {
    !(value is Text) || allowed_text_key(key)
}

/// The attributes that may be exported: default deny for text.
pub fn external_export(attributes: TextMap<String, Attribute>) -> (r: TextMap<String, Attribute>)
    requires
        attributes.wf(),
    ensures
        r.wf(),
        r@ == attributes@.restrict(
            Set::new(|k: Seq<char>| attributes@.contains_key(k) && exported(attributes@[k], k)),
        ),
{
    let ghost source = attributes;
    let mut attributes = attributes;
    let entries = attributes.take_all();
    let mut kept: TextMap<String, Attribute> = TextMap::new();
    let mut entries = entries;
    let ghost all = entries@;
    let count = entries.len();
    let mut i: usize = 0;
    while i < count
        invariant
            count == all.len(),
            source.wf(),
            all == source.pairs(),
            i <= all.len(),
            all.len() <= usize::MAX,
            entries@ == all.subrange(i as int, all.len() as int),
            kept.wf(),
            kept@ == source@.restrict(
                Set::new(
                    |k: Seq<char>|
                        exists|j: int|
                            0 <= j < i && #[trigger] source.key_at(j) == k && exported(all[j].1, k),
                ),
            ),
        decreases entries@.len(),
    {
        let (key, value) = entries.remove(0);
        let ghost k = key@;
        let ghost kept0 = kept@;
        proof {
            source.lemma_index_of_key(i as int);
            assert(all[i as int] == (key, value));
        }
        let keep = match &value {
            Attribute::Text(_) => is_allowed_text_key(key.as_str()),
            _ => true,
        };
        if keep {
            kept.insert(key, value);
        }
        proof {
            let before = Set::new(
                |q: Seq<char>|
                    exists|j: int| 0 <= j < i && #[trigger] source.key_at(j) == q && exported(all[j].1, q),
            );
            let after = Set::new(
                |q: Seq<char>|
                    exists|j: int|
                        0 <= j < i + 1 && #[trigger] source.key_at(j) == q && exported(all[j].1, q),
            );
            assert(keep == exported(value, k));
            assert forall|q: Seq<char>| #[trigger] after.contains(q) == (before.contains(q) || (keep && q == k)) by {
                if after.contains(q) {
                    let j = choose|j: int|
                        0 <= j < i + 1 && #[trigger] source.key_at(j) == q && exported(all[j].1, q);
                    if j < i {
                        assert(before.contains(q));
                    }
                }
                if keep && q == k {
                    assert(source.key_at(i as int) == q);
                }
            }
            assert(kept@ =~= source@.restrict(after));
            assert(entries@ =~= all.subrange(i + 1, all.len() as int));
        }
        i = i + 1;
    }
    proof {
        assert(i == all.len());
        let done = Set::new(
            |q: Seq<char>|
                exists|j: int| 0 <= j < all.len() && #[trigger] source.key_at(j) == q && exported(all[j].1, q),
        );
        let want = Set::new(|q: Seq<char>| source@.contains_key(q) && exported(source@[q], q));
        assert forall|q: Seq<char>| #[trigger] source@.restrict(done).contains_key(q) == source@.restrict(want).contains_key(q) by {
            if done.contains(q) {
                let j = choose|j: int|
                    0 <= j < all.len() && #[trigger] source.key_at(j) == q && exported(all[j].1, q);
                source.lemma_index_of_key(j);
            }
            if want.contains(q) {
                let j = source.index_of_key(q);
                source.lemma_index_of_key(j);
                assert(source.key_at(j) == q);
            }
        }
        assert(source@.restrict(done) =~= source@.restrict(want));
    }
    kept
}

} // verus!
