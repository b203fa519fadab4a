//! Prompt assembly: a stable system prompt per audience, an initial preamble, project
//! instructions added once, and runtime reminders appended without touching the system prompt.
use crate::text::{join_texts, joined};
use crate::textmap::TextKey;
use vstd::prelude::*;
use vstd::string::*;

verus! {

#[derive(Clone, Copy, Debug, PartialEq, Eq, Structural)]
pub enum PromptMode {
    Extend,
    Full,
}

#[derive(Clone, Copy, Debug, PartialEq, Eq, Structural)]
pub enum Audience {
    Primary,
    Subagent,
}

pub struct ToolRegistry {
    pub read_name: &'static str,
    pub definitions: Vec<&'static str>,
}

impl ToolRegistry {
    /// A registry whose read tool goes by `read_name`.
    pub fn with_read_override(read_name: &'static str) -> (r: Self)
        ensures
            r.read_name == read_name,
            r.definitions@ == seq![read_name, "search_code"],
    {
        let mut definitions = Vec::new();
        definitions.push(read_name);
        definitions.push("search_code");
        assert(definitions@ =~= seq![read_name, "search_code"]);
        Self { read_name, definitions }
    }
}

/// The system prompt: the audience's base text then the body, or the body alone in full mode.
pub open spec fn system_prompt(mode: PromptMode, audience: Audience, body: Seq<char>, read_name: Seq<
    char,
>) -> Seq<char> {
    let base = match audience {
        Audience::Primary => "You are the primary coding agent. Read with "@ + read_name
            + ". Parent catalog enabled."@,
        Audience::Subagent => "You are a focused child agent. Read with "@ + read_name + "."@,
    };
    match mode {
        PromptMode::Extend => base + "\n"@ + body,
        PromptMode::Full => body,
    }
}

pub fn render_stable_system(mode: PromptMode, audience: Audience, body: &str, tools: &ToolRegistry) -> (r:
    String)
    ensures
        r@ == system_prompt(mode, audience, body@, tools.read_name@),
{
    let mut base = match audience {
        Audience::Primary => String::from_str("You are the primary coding agent. Read with "),
        Audience::Subagent => String::from_str("You are a focused child agent. Read with "),
    };
    base.append(tools.read_name);
    match audience {
        Audience::Primary => base.append(". Parent catalog enabled."),
        Audience::Subagent => base.append("."),
    }
    match mode {
        PromptMode::Extend => {
            base.append("\n");
            base.append(body);
            base
        },
        PromptMode::Full => body.to_owned(),
    }
}

/// The preamble sent with the first turn.
pub open spec fn preamble(
    workspace: Seq<char>,
    project_rules: Seq<char>,
    skills: Seq<Seq<char>>,
    mcp_servers: Seq<Seq<char>>,
) -> Seq<char> {
    "workspace="@ + workspace + "\nproject_rules="@ + project_rules + "\nskills="@ + joined(
        skills,
        ","@,
    ) + "\nmcp="@ + joined(mcp_servers, ","@)
}

pub open spec fn str_texts(v: Seq<&str>) -> Seq<Seq<char>> {
    v.map_values(|s: &str| s@)
}

pub fn render_initial_preamble(
    workspace: &str,
    project_rules: &str,
    skills: &[&str],
    mcp_servers: &[&str],
) -> (r: String)
    ensures
        r@ == preamble(workspace@, project_rules@, str_texts(skills@), str_texts(mcp_servers@)),
{
    let mut out = String::from_str("workspace=");
    out.append(workspace);
    out.append("\nproject_rules=");
    out.append(project_rules);
    out.append("\nskills=");
    let skill_list = join_texts(skills, ",");
    assert(skills@.map_values(|k: &str| k.key_view()) =~= str_texts(skills@));
    out.append(skill_list.as_str());
    out.append("\nmcp=");
    let mcp_list = join_texts(mcp_servers, ",");
    assert(mcp_servers@.map_values(|k: &str| k.key_view()) =~= str_texts(mcp_servers@));
    out.append(mcp_list.as_str());
    out
}

#[derive(Clone, Copy, Debug, PartialEq, Eq, Structural)]
pub enum SyntheticReason {
    ProjectInstructions,
    RuntimeReminder,
}

#[derive(Debug, PartialEq, Eq)]
pub struct ConversationItem {
    pub text: String,
    pub reason: Option<SyntheticReason>,
}

/// A conversation read as text and reason per item.
pub open spec fn items(v: Seq<ConversationItem>) -> Seq<(Seq<char>, Option<SyntheticReason>)> {
    v.map_values(|i: ConversationItem| (i.text@, i.reason))
}

pub open spec fn has_instructions(v: Seq<(Seq<char>, Option<SyntheticReason>)>) -> bool {
    exists|i: int| 0 <= i < v.len() && #[trigger] v[i].1 == Some(SyntheticReason::ProjectInstructions)
}

/// Adding project instructions: once, and never again while they are present.
pub open spec fn with_instructions(v: Seq<(Seq<char>, Option<SyntheticReason>)>, preamble: Seq<char>) -> Seq<
    (Seq<char>, Option<SyntheticReason>),
> {
    if has_instructions(v) {
        v
    } else {
        v.push((preamble, Some(SyntheticReason::ProjectInstructions)))
    }
}

pub fn ensure_project_instructions(conversation: &mut Vec<ConversationItem>, preamble: &str)
    ensures
        items(final(conversation)@) == with_instructions(items(old(conversation)@), preamble@),
{
    let ghost before = items(conversation@);
    let mut i: usize = 0;
    while i < conversation.len()
        invariant
            i <= conversation@.len(),
            *conversation == *old(conversation),
            before == items(conversation@),
            forall|j: int|
                0 <= j < i ==> #[trigger] before[j].1 != Some(SyntheticReason::ProjectInstructions),
        decreases conversation@.len() - i,
    {
        if conversation[i].reason == Some(SyntheticReason::ProjectInstructions) {
            assert(before[i as int].1 == Some(SyntheticReason::ProjectInstructions));
            return;
        }
        i = i + 1;
    }
    conversation.push(
        ConversationItem {
            text: preamble.to_owned(),
            reason: Some(SyntheticReason::ProjectInstructions),
        },
    );
    assert(items(conversation@) =~= before.push(
        (preamble@, Some(SyntheticReason::ProjectInstructions)),
    ));
}

pub fn push_runtime_reminder(conversation: &mut Vec<ConversationItem>, reminder: &str)
    ensures
        items(final(conversation)@) == items(old(conversation)@).push(
            (reminder@, Some(SyntheticReason::RuntimeReminder)),
        ),
{
    conversation.push(
        ConversationItem { text: reminder.to_owned(), reason: Some(SyntheticReason::RuntimeReminder) },
    );
    assert(items(conversation@) =~= items(old(conversation)@).push(
        (reminder@, Some(SyntheticReason::RuntimeReminder)),
    ));
}

/// Adding project instructions twice is adding them once.
pub proof fn law_instructions_idempotent(v: Seq<(Seq<char>, Option<SyntheticReason>)>, preamble: Seq<char>)
    ensures
        with_instructions(with_instructions(v, preamble), preamble) == with_instructions(v, preamble),
{
    if !has_instructions(v) {
        let w = with_instructions(v, preamble);
        assert(w[v.len() as int].1 == Some(SyntheticReason::ProjectInstructions));
    }
}

/// The system prompt depends only on mode, audience, body and the read tool's name, so a
/// runtime change of the conversation cannot alter it; in extend mode it ends with the body.
pub proof fn law_system_prompt_ends_with_body(
    mode: PromptMode,
    audience: Audience,
    body: Seq<char>,
    read_name: Seq<char>,
)
    ensures
        ({
            let p = system_prompt(mode, audience, body, read_name);
            p.len() >= body.len() && p.subrange(p.len() - body.len(), p.len() as int) == body
        }),
{
    let p = system_prompt(mode, audience, body, read_name);
    assert(p.subrange(p.len() - body.len(), p.len() as int) =~= body);
}

} // verus!
