//! Spawning a child agent: fresh, forked, or resumed context; a history of its own; a real
//! working directory (or a shared one with a warning); cancellation driven by the owner.
use crate::text::{join_texts, joined, same_text};
use crate::textmap::TextKey;
use vstd::prelude::*;
use vstd::string::*;

verus! {

#[derive(Clone, Copy, Debug, PartialEq, Eq, Structural)]
pub enum ContextMode {
    Fresh,
    Fork,
    Resume,
}

#[derive(Clone, Debug)]
pub struct Parent {
    pub session_id: &'static str,
    pub prompt_id: &'static str,
    pub cwd: &'static str,
    pub conversation: Vec<String>,
    pub permission_manager: &'static str,
}

#[derive(Clone, Debug)]
pub struct ResumeSource {
    pub subagent_type: &'static str,
    pub persona: &'static str,
    pub model: &'static str,
    pub conversation: Vec<String>,
    pub worktree_path: Option<&'static str>,
    pub snapshot_available: bool,
}

pub struct Request {
    pub id: &'static str,
    pub subagent_type: &'static str,
    pub persona: &'static str,
    pub requested_model: &'static str,
    pub task: &'static str,
    pub mode: ContextMode,
    pub isolation_worktree: bool,
    pub worktree_created: bool,
    pub depth: usize,
    pub max_depth: usize,
}

#[derive(Debug)]
pub struct Child {
    pub session_id: String,
    pub parent_session_id: &'static str,
    pub parent_prompt_id: &'static str,
    pub model: &'static str,
    pub cwd: &'static str,
    pub conversation: Vec<String>,
    pub permission_manager: &'static str,
    pub task_tool_enabled: bool,
    pub warning: Option<&'static str>,
    pub events: Vec<&'static str>,
    pub cancelled: bool,
    pub usage_incomplete: bool,
}

/// The texts of a list of strings.
pub open spec fn texts(v: Seq<String>) -> Seq<Seq<char>> {
    v.map_values(|s: String| s@)
}

/// Why a spawn is refused, if it is.
pub open spec fn spawn_refusal(request: Request, source: Option<ResumeSource>) -> Option<Seq<char>> {
    if request.mode == ContextMode::Resume {
        match source {
            None => Some("resume source missing"@),
            Some(src) => if src.subagent_type@ != request.subagent_type@ || src.persona@
                != request.persona@ {
                Some("resume identity mismatch"@)
            } else {
                None
            },
        }
    } else {
        None
    }
}

/// The child's history: its own system prompt (or the resumed one), the parent's history as
/// background when forked, then the task.
pub open spec fn child_history(parent: Parent, request: Request, source: Option<ResumeSource>) -> Seq<
    Seq<char>,
> {
    let base = match request.mode {
        ContextMode::Fresh => seq!["child-system"@],
        ContextMode::Fork => seq![
            "child-system"@,
            "<background_context>"@ + joined(texts(parent.conversation@), "|"@)
                + "</background_context>"@,
        ],
        ContextMode::Resume => texts(source->0.conversation@),
    };
    base.push(request.task@)
}

/// Where the child works, and the warning given when it had to share the parent's workspace.
pub open spec fn child_workspace(parent: Parent, request: Request, source: Option<ResumeSource>) -> (
    &'static str,
    Option<&'static str>,
) {
    if request.mode == ContextMode::Resume {
        match source->0.worktree_path {
            Some(path) => (path, None),
            None => if source->0.snapshot_available {
                ("/tmp/rehydrated-child", None)
            } else {
                (parent.cwd, Some("resume fell back to shared workspace"))
            },
        }
    } else if request.isolation_worktree && request.worktree_created {
        ("/tmp/child-worktree", None)
    } else if request.isolation_worktree {
        (parent.cwd, Some("worktree creation failed; using shared workspace"))
    } else {
        (parent.cwd, None)
    }
}

/// Builds a child session for `request` under `parent`.
pub fn spawn_child(parent: &Parent, request: Request, source: Option<&ResumeSource>) -> (r: Result<
    Child,
    &'static str,
>)
    ensures
        ({
            let src = match source {
                Some(s) => Some(*s),
                None => None,
            };
            match r {
                Err(e) => spawn_refusal(request, src) == Some(e@),
                Ok(child) => {
                    &&& spawn_refusal(request, src) is None
                    &&& child.session_id@ == "child-"@ + request.id@
                    &&& child.parent_session_id == parent.session_id
                    &&& child.parent_prompt_id == parent.prompt_id
                    &&& child.model == if request.mode == ContextMode::Resume {
                        src->0.model
                    } else {
                        request.requested_model
                    }
                    &&& texts(child.conversation@) == child_history(*parent, request, src)
                    &&& (child.cwd, child.warning) == child_workspace(*parent, request, src)
                    &&& child.permission_manager == parent.permission_manager
                    &&& child.task_tool_enabled == (request.depth < request.max_depth)
                    &&& child.events@ == Seq::<&'static str>::empty()
                    &&& !child.cancelled
                    &&& !child.usage_incomplete
                },
            }
        }),
{
    let ghost src = match source {
        Some(s) => Some(*s),
        None => None,
    };
    let mut model = request.requested_model;
    let mut conversation: Vec<String> = Vec::new();
    let mut resume_worktree: Option<&'static str> = None;
    let mut snapshot_available = false;
    match request.mode {
        ContextMode::Fresh => {
            conversation.push(String::from_str("child-system"));
            assert(texts(conversation@) =~= seq!["child-system"@]);
        },
        ContextMode::Fork => {
            conversation.push(String::from_str("child-system"));
            let mut background = String::from_str("<background_context>");
            let history = join_texts(parent.conversation.as_slice(), "|");
            assert(parent.conversation@.map_values(|k: String| k.key_view()) =~= texts(
                parent.conversation@,
            ));
            background.append(history.as_str());
            background.append("</background_context>");
            conversation.push(background);
            assert(texts(conversation@) =~= seq![
                "child-system"@,
                "<background_context>"@ + joined(texts(parent.conversation@), "|"@)
                    + "</background_context>"@,
            ]);
        },
        ContextMode::Resume => {
            let source = match source {
                Some(s) => s,
                None => {
                    return Err("resume source missing");
                },
            };
            if !same_text(source.subagent_type, request.subagent_type) || !same_text(
                source.persona,
                request.persona,
            ) {
                return Err("resume identity mismatch");
            }
            model = source.model;
            conversation = clone_texts(&source.conversation);
            resume_worktree = source.worktree_path;
            snapshot_available = source.snapshot_available;
        },
    }
    let ghost before = texts(conversation@);
    conversation.push(request.task.to_owned());
    proof {
        assert(texts(conversation@) =~= before.push(request.task@));
        let base = match request.mode {
            ContextMode::Fresh => seq!["child-system"@],
            ContextMode::Fork => seq![
                "child-system"@,
                "<background_context>"@ + joined(texts(parent.conversation@), "|"@)
                    + "</background_context>"@,
            ],
            ContextMode::Resume => texts(src->0.conversation@),
        };
        assert(texts(conversation@) =~= base.push(request.task@));
    }
    let (cwd, warning) = if request.mode == ContextMode::Resume {
        match resume_worktree {
            Some(path) => (path, None),
            None => if snapshot_available {
                ("/tmp/rehydrated-child", None)
            } else {
                (parent.cwd, Some("resume fell back to shared workspace"))
            },
        }
    } else if request.isolation_worktree && request.worktree_created {
        ("/tmp/child-worktree", None)
    } else if request.isolation_worktree {
        (parent.cwd, Some("worktree creation failed; using shared workspace"))
    } else {
        (parent.cwd, None)
    };
    let session_id = String::from_str("child-").concat(request.id);
    Ok(
        Child {
            session_id,
            parent_session_id: parent.session_id,
            parent_prompt_id: parent.prompt_id,
            model,
            cwd,
            conversation,
            permission_manager: parent.permission_manager,
            task_tool_enabled: request.depth < request.max_depth,
            warning,
            events: Vec::new(),
            cancelled: false,
            usage_incomplete: false,
        },
    )
}

/// An independent copy of a list of strings.
fn clone_texts(v: &Vec<String>) -> (r: Vec<String>)
    ensures
        texts(r@) == texts(v@),
{
    let mut r: Vec<String> = Vec::new();
    let mut i: usize = 0;
    while i < v.len()
        invariant
            i <= v@.len(),
            r@.len() == i,
            texts(r@) == texts(v@.take(i as int)),
        decreases v@.len() - i,
    {
        let c = v[i].clone();
        assert(c@ == v@[i as int]@);
        r.push(c);
        proof {
            assert(v@.take(i + 1) =~= v@.take(i as int).push(v@[i as int]));
            assert forall|j: int| 0 <= j < i + 1 implies #[trigger] texts(r@)[j] == texts(
                v@.take(i + 1),
            )[j] by {
                if j < i {
                    assert(texts(r@)[j] == r@[j]@);
                    assert(texts(v@.take(i as int))[j] == v@[j]@);
                }
            }
            assert(texts(r@) =~= texts(v@.take(i + 1)));
        }
        i = i + 1;
    }
    assert(v@.take(v@.len() as int) =~= v@);
    r
}

/// The owner cancels the child: the child drains, usage is incomplete if it was active, and
/// the completion is reported, in that order.
pub fn cancel_via_owner(child: &mut Child, had_activity: bool)
    ensures
        final(child).events@ == old(child).events@ + seq![
            "coordinator:cancel-command",
            "child:drained",
            "coordinator:completion-reported",
        ],
        final(child).cancelled,
        final(child).usage_incomplete == had_activity,
        final(child).session_id == old(child).session_id,
        final(child).parent_session_id == old(child).parent_session_id,
        final(child).parent_prompt_id == old(child).parent_prompt_id,
        final(child).permission_manager == old(child).permission_manager,
        final(child).conversation == old(child).conversation,
        final(child).cwd == old(child).cwd,
        final(child).model == old(child).model,
        final(child).warning == old(child).warning,
        final(child).task_tool_enabled == old(child).task_tool_enabled,
{
    child.events.push("coordinator:cancel-command");
    child.cancelled = true;
    child.events.push("child:drained");
    child.usage_incomplete = had_activity;
    child.events.push("coordinator:completion-reported");
    assert(child.events@ =~= old(child).events@ + seq![
        "coordinator:cancel-command",
        "child:drained",
        "coordinator:completion-reported",
    ]);
}

} // verus!
