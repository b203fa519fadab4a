//! A tool call from model arguments to a chat result: known tool and valid arguments, then
//! permission, then a stream of progress that ends in exactly one terminal item.
use crate::text::{same_text, starts_with};
use vstd::prelude::*;
use vstd::string::*;

verus! {

#[derive(Debug, PartialEq, Eq)]
pub struct ReadArgs {
    pub path: String,
}

pub struct PreparedToolCall {
    pub id: &'static str,
    pub args: ReadArgs,
}

#[derive(Debug, PartialEq, Eq)]
pub struct ToolOutput {
    pub prompt_text: String,
    pub ui_summary: String,
}

pub enum ToolStreamItem {
    Progress(String),
    Terminal(Result<ToolOutput, String>),
}

#[derive(Debug)]
pub struct ToolRun {
    pub call_id: &'static str,
    pub progress: Vec<String>,
    pub terminal: Result<ToolOutput, String>,
}

pub open spec fn texts(v: Seq<String>) -> Seq<Seq<char>> {
    v.map_values(|s: String| s@)
}

/// Checks the tool name and takes the decoded arguments; a decoding error is reported as
/// invalid arguments.
pub fn prepare_tool_call(id: &'static str, name: &'static str, decoded: Result<ReadArgs, String>) -> (r:
    Result<PreparedToolCall, String>)
    ensures
        name@ != "read_file"@ ==> (r matches Err(e) && e@ == "unknown tool: "@ + name@),
        name@ == "read_file"@ ==> match decoded {
            Ok(args) => r matches Ok(p) && p.id == id && p.args == args,
            Err(d) => r matches Err(e) && e@ == "invalid arguments: "@ + d@,
        },
{
    if !same_text(name, "read_file") {
        return Err(String::from_str("unknown tool: ").concat(name));
    }
    match decoded {
        Ok(args) => Ok(PreparedToolCall { id, args }),
        Err(error) => Err(String::from_str("invalid arguments: ").concat(error.as_str())),
    }
}

/// Reads under `/etc/` are denied.
pub fn permission_denial(args: &ReadArgs) -> (r: Option<String>)
    ensures
        match r {
            Some(e) => "/etc/"@.is_prefix_of(args.path@) && e@ == "permission denied: "@
                + args.path@,
            None => !"/etc/"@.is_prefix_of(args.path@),
        },
{
    if starts_with(args.path.as_str(), "/etc/") {
        Some(String::from_str("permission denied: ").concat(args.path.as_str()))
    } else {
        None
    }
}

/// The items the read tool streams for a path: two progress notes, then its output.
pub fn read_file_stream(args: &ReadArgs) -> (items: Vec<ToolStreamItem>)
    ensures
        items@.len() == 3,
        items@[0] matches ToolStreamItem::Progress(m) && m@ == "opening file"@,
        items@[1] matches ToolStreamItem::Progress(m) && m@ == "reading bytes"@,
        items@[2] matches ToolStreamItem::Terminal(Ok(out)) && out.prompt_text@ == "contents of "@
            + args.path@ && out.ui_summary@ == "read "@ + args.path@,
{
    let mut items = Vec::new();
    items.push(ToolStreamItem::Progress(String::from_str("opening file")));
    items.push(ToolStreamItem::Progress(String::from_str("reading bytes")));
    items.push(
        ToolStreamItem::Terminal(
            Ok(
                ToolOutput {
                    prompt_text: String::from_str("contents of ").concat(args.path.as_str()),
                    ui_summary: String::from_str("read ").concat(args.path.as_str()),
                },
            ),
        ),
    );
    items
}

/// A stream in which nothing follows a terminal item.
pub open spec fn well_ended(items: Seq<ToolStreamItem>) -> bool {
    forall|i: int| 0 <= i < items.len() - 1 ==> !(#[trigger] items[i] is Terminal)
}

pub open spec fn progress_of(items: Seq<ToolStreamItem>) -> Seq<Seq<char>>
    decreases items.len(),
{
    if items.len() == 0 {
        Seq::empty()
    } else {
        match items.last() {
            ToolStreamItem::Progress(m) => progress_of(items.drop_last()).push(m@),
            _ => progress_of(items.drop_last()),
        }
    }
}

/// Collects a tool's stream: its progress notes and its output; a stream without a terminal
/// item, or with a failed one, is an error.
pub fn collect_tool_stream(stream: Vec<ToolStreamItem>) -> (r: Result<(Vec<String>, ToolOutput), String>)
    requires
        well_ended(stream@),
    ensures
        match r {
            Ok((progress, out)) => stream@.len() > 0 && (stream@.last() matches ToolStreamItem::Terminal(
                Ok(o),
            ) && out == o) && texts(progress@) == progress_of(stream@),
            Err(e) => if stream@.len() > 0 && stream@.last() is Terminal {
                (stream@.last() matches ToolStreamItem::Terminal(Err(f)) && e@ == "tool failed: "@ + f@)
            } else {
                e@ == "tool stream ended without Terminal"@
            },
        },
{
    let ghost all = stream@;
    let mut progress: Vec<String> = Vec::new();
    let mut terminal: Option<Result<ToolOutput, String>> = None;
    let mut stream = stream;
    let count = stream.len();
    let mut taken: usize = 0;
    while taken < count
        invariant
            count == all.len(),
            taken <= all.len(),
            all.len() <= usize::MAX,
            stream@ == all.subrange(taken as int, all.len() as int),
            well_ended(all),
            texts(progress@) == progress_of(all.take(taken as int)),
            match terminal {
                Some(t) => taken > 0 && all[taken - 1] == ToolStreamItem::Terminal(t),
                None => taken == 0 || !(all[taken - 1] is Terminal),
            },
        decreases stream@.len(),
    {
        let item = stream.remove(0);
        proof {
            assert(all[taken as int] == item);
            assert(all.take(taken + 1).drop_last() =~= all.take(taken as int));
            if terminal is Some {
                assert(taken - 1 < all.len() - 1);
            }
        }
        match item {
            ToolStreamItem::Progress(message) => {
                progress.push(message);
                assert(texts(progress@) =~= progress_of(all.take(taken + 1)));
            },
            ToolStreamItem::Terminal(result) => {
                terminal = Some(result);
            },
        }
        proof {
            assert(stream@ =~= all.subrange(taken + 1, all.len() as int));
        }
        taken = taken + 1;
    }
    assert(all.take(all.len() as int) =~= all);
    match terminal {
        None => Err(String::from_str("tool stream ended without Terminal")),
        Some(Err(error)) => Err(String::from_str("tool failed: ").concat(error.as_str())),
        Some(Ok(output)) => Ok((progress, output)),
    }
}

/// The next thing a tool call needs: it has finished, or its prepared call must run.
pub enum ToolCallStep {
    Finished(ToolRun),
    Execute(PreparedToolCall),
}

/// Prepares a call and checks its permission; a call that fails either finishes here with
/// no progress.
pub fn begin_tool_call(id: &'static str, name: &'static str, decoded: Result<ReadArgs, String>) -> (r:
    ToolCallStep)
    ensures
        match r {
            ToolCallStep::Finished(run) => run.call_id == id && run.progress@.len() == 0
                && run.terminal is Err,
            ToolCallStep::Execute(p) => p.id == id && name@ == "read_file"@ && decoded == Ok::<
                ReadArgs,
                String,
            >(p.args) && !"/etc/"@.is_prefix_of(p.args.path@),
        },
        name@ != "read_file"@ ==> (r matches ToolCallStep::Finished(run) && (run.terminal matches Err(
            e,
        ) && e@ == "unknown tool: "@ + name@)),
        name@ == "read_file"@ ==> match decoded {
            Err(d) => r matches ToolCallStep::Finished(run) && run.terminal matches Err(e) && e@
                == "invalid arguments: "@ + d@,
            Ok(args) => {
                &&& "/etc/"@.is_prefix_of(args.path@) ==> (r matches ToolCallStep::Finished(run)
                    && (run.terminal matches Err(e) && e@ == "permission denied: "@ + args.path@))
                &&& !"/etc/"@.is_prefix_of(args.path@) ==> (r matches ToolCallStep::Execute(p)
                    && p.id == id && p.args == args)
            },
        },
{
    let prepared = match prepare_tool_call(id, name, decoded) {
        Ok(prepared) => prepared,
        Err(error) => {
            return ToolCallStep::Finished(
                ToolRun { call_id: id, progress: Vec::new(), terminal: Err(error) },
            );
        },
    };
    match permission_denial(&prepared.args) {
        Some(error) => ToolCallStep::Finished(
            ToolRun { call_id: prepared.id, progress: Vec::new(), terminal: Err(error) },
        ),
        None => ToolCallStep::Execute(prepared),
    }
}

/// The run of an executed call: its progress and output, or the stream's error with no
/// progress.
pub fn complete_tool_call(id: &'static str, collected: Result<(Vec<String>, ToolOutput), String>) -> (r:
    ToolRun)
    ensures
        r.call_id == id,
        match collected {
            Ok((progress, out)) => r.progress == progress && r.terminal == Ok::<ToolOutput, String>(
                out,
            ),
            Err(e) => r.progress@.len() == 0 && r.terminal == Err::<ToolOutput, String>(e),
        },
{
    match collected {
        Ok((progress, output)) => ToolRun { call_id: id, progress, terminal: Ok(output) },
        Err(error) => ToolRun { call_id: id, progress: Vec::new(), terminal: Err(error) },
    }
}

} // verus!
