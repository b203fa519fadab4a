//! Durable session storage: chat items become durable only when flushed, an update is
//! committed once its line is written (whether or not the summary follows), recovery reads
//! every whole JSON line and skips a torn one, and a snapshot is replaced atomically.
use crate::workflow_replay::{json_text, value_text};
use serde_json::Value;
use vstd::prelude::*;
use vstd::string::*;

verus! {

/// The value a text parses to as JSON, if it does.
pub uninterp spec fn parsed_json(text: Seq<char>) -> Option<Value>;

/// Calls `serde_json::from_str::<Value>` and keeps the value when parsing succeeds.
/// Trusted: the outcome depends on the text alone and is named by `parsed_json`.
#[verifier::external_body]
pub(crate) fn parse_json(text: &str) -> (r: Option<Value>)
    ensures
        r == parsed_json(text@),
{
    serde_json::from_str(text).ok()
}

#[derive(Clone, Copy, Debug, PartialEq, Eq, Structural)]
pub enum FailureStage {
    NoFailure,
    Write,
    Summary,
}

#[derive(Clone, Copy, Debug, PartialEq, Eq, Structural)]
pub enum AppendError {
    NotCommitted,
    Committed,
}

pub struct Storage {
    pub updates_jsonl: String,
    pub summary_count: usize,
    pub pending: Vec<Value>,
    pub durable_chat: Vec<Value>,
    pub visible_chat_snapshot: Vec<Value>,
    pub temporary_snapshot: Option<Vec<Value>>,
}

/// The log text after appending a line: a torn last line is closed first.
pub open spec fn appended(log: Seq<char>, line: Seq<char>) -> Seq<char> {
    let closed = if log.len() > 0 && log.last() != '\n' {
        log.push('\n')
    } else {
        log
    };
    closed + line + seq!['\n']
}

/// The position of the first newline at or after `from`, or the length.
pub open spec fn line_end(s: Seq<char>, from: int) -> int
    decreases s.len() - from,
{
    if from >= s.len() || s[from] == '\n' {
        from
    } else {
        line_end(s, from + 1)
    }
}

/// The lines of a text from `from`, as `str::lines` splits them: at each `\n`, dropping a
/// `\r` before it; a final newline ends the last line rather than starting another.
pub open spec fn lines_from(s: Seq<char>, from: int) -> Seq<Seq<char>>
    decreases s.len() + 1 - from,
{
    if from >= s.len() {
        Seq::empty()
    } else {
        proof {
            lemma_line_end(s, from);
        }
        let end = line_end(s, from);
        let raw = s.subrange(from, end);
        let line = if end < s.len() && raw.len() > 0 && raw.last() == '\r' {
            raw.drop_last()
        } else {
            raw
        };
        seq![line] + lines_from(s, end + 1)
    }
}

/// Where a line ends: at the first newline from `from`, or at the end.
pub proof fn lemma_line_end(s: Seq<char>, from: int)
    requires
        from <= s.len(),
    ensures
        from <= line_end(s, from) <= s.len(),
        line_end(s, from) < s.len() ==> s[line_end(s, from)] == '\n',
        forall|k: int| from <= k < line_end(s, from) ==> s[k] != '\n',
    decreases s.len() - from,
{
    if from < s.len() && s[from] != '\n' {
        lemma_line_end(s, from + 1);
    }
}

/// The values of the lines that parse.
pub open spec fn parsed_lines(lines: Seq<Seq<char>>) -> Seq<Value>
    decreases lines.len(),
{
    if lines.len() == 0 {
        Seq::empty()
    } else {
        let rest = parsed_lines(lines.drop_first());
        match parsed_json(lines[0]) {
            Some(v) => seq![v] + rest,
            None => rest,
        }
    }
}

impl Storage {
    pub fn new() -> (s: Self)
        ensures
            s.updates_jsonl@ == Seq::<char>::empty(),
            s.summary_count == 0,
            s.pending@.len() == 0,
            s.durable_chat@.len() == 0,
            s.visible_chat_snapshot@.len() == 0,
            s.temporary_snapshot is None,
    {
        Storage {
            updates_jsonl: String::new(),
            summary_count: 0,
            pending: Vec::new(),
            durable_chat: Vec::new(),
            visible_chat_snapshot: Vec::new(),
            temporary_snapshot: None,
        }
    }

    /// Appends an update's line. A failed write commits nothing; a failed summary comes
    /// after the line is written, so the update is committed but not counted.
    pub fn append_update(&mut self, value: &Value, failure: FailureStage) -> (r: Result<(), AppendError>)
        requires
            old(self).summary_count < usize::MAX,
        ensures
            final(self).pending == old(self).pending,
            final(self).durable_chat == old(self).durable_chat,
            final(self).visible_chat_snapshot == old(self).visible_chat_snapshot,
            final(self).temporary_snapshot == old(self).temporary_snapshot,
            failure == FailureStage::Write ==> r == Err::<(), AppendError>(AppendError::NotCommitted)
                && final(self).updates_jsonl@ == old(self).updates_jsonl@ && final(self).summary_count
                == old(self).summary_count,
            failure != FailureStage::Write ==> final(self).updates_jsonl@ == appended(
                old(self).updates_jsonl@,
                json_text(*value),
            ),
            failure == FailureStage::Summary ==> r == Err::<(), AppendError>(AppendError::Committed)
                && final(self).summary_count == old(self).summary_count,
            failure == FailureStage::NoFailure ==> r == Ok::<(), AppendError>(()) && final(self).summary_count
                == old(self).summary_count + 1,
    {
        if failure == FailureStage::Write {
            return Err(AppendError::NotCommitted);
        }
        let n = self.updates_jsonl.as_str().unicode_len();
        if n > 0 && self.updates_jsonl.as_str().get_char(n - 1) != '\n' {
            self.updates_jsonl.append("\n");
        }
        let line = value_text(value);
        self.updates_jsonl.append(line.as_str());
        self.updates_jsonl.append("\n");
        proof {
            reveal_strlit("\n");
            assert(self.updates_jsonl@ =~= appended(old(self).updates_jsonl@, json_text(*value)));
        }
        if failure == FailureStage::Summary {
            return Err(AppendError::Committed);
        }
        self.summary_count += 1;
        Ok(())
    }

    /// Queues a chat item; it is not durable yet.
    pub fn enqueue_chat(&mut self, item: Value)
        ensures
            final(self).pending@ == old(self).pending@.push(item),
            final(self).durable_chat == old(self).durable_chat,
    {
        self.pending.push(item);
    }

    /// Queued chat items become durable, in order.
    pub fn flush_and_ack(&mut self)
        ensures
            final(self).durable_chat@ == old(self).durable_chat@ + old(self).pending@,
            final(self).pending@ == Seq::<Value>::empty(),
    {
        self.durable_chat.append(&mut self.pending);
    }

    /// Recovers the updates: every line that parses as JSON, in order; a torn line is skipped.
    pub fn recover_updates(&self) -> (r: Vec<Value>)
        ensures
            r@ == parsed_lines(lines_from(self.updates_jsonl@, 0)),
    {
        let text = self.updates_jsonl.as_str();
        let ghost s = text@;
        let n = text.unicode_len();
        let mut out: Vec<Value> = Vec::new();
        let mut start: usize = 0;
        while start < n
            invariant
                s == text@,
                n == s.len(),
                start <= n,
                out@ + parsed_lines(lines_from(s, start as int)) == parsed_lines(lines_from(s, 0)),
            decreases n - start,
        {
            let mut end = start;
            while end < n && text.get_char(end) != '\n'
                invariant
                    s == text@,
                    n == s.len(),
                    start <= end <= n,
                    line_end(s, start as int) == line_end(s, end as int),
                decreases n - end,
            {
                end = end + 1;
            }
            proof {
                lemma_line_end(s, start as int);
            }
            let mut stop = end;
            if end < n && end > start && text.get_char(end - 1) == '\r' {
                stop = end - 1;
            }
            let line = text.substring_char(start, stop);
            proof {
                let raw = s.subrange(start as int, end as int);
                assert(line@ == (if end < n && raw.len() > 0 && raw.last() == '\r' {
                    raw.drop_last()
                } else {
                    raw
                }));
                let lines = lines_from(s, start as int);
                assert(lines[0] == line@);
                assert(lines.drop_first() =~= lines_from(s, end + 1));
            }
            let ghost out0 = out@;
            match parse_json(line) {
                Some(v) => {
                    out.push(v);
                    assert(out@ =~= out0 + seq![v]);
                },
                None => {},
            }
            proof {
                let lines = lines_from(s, start as int);
                assert(parsed_lines(lines) == (match parsed_json(line@) {
                    Some(v) => seq![v] + parsed_lines(lines_from(s, end + 1)),
                    None => parsed_lines(lines_from(s, end + 1)),
                }));
                if end + 1 > n {
                    assert(lines_from(s, end + 1) =~= lines_from(s, n as int));
                }
            }
            start = if end < n {
                end + 1
            } else {
                n
            };
        }
        assert(out@ + parsed_lines(lines_from(s, n as int)) =~= out@);
        out
    }

    /// Stages a replacement snapshot; the visible one is untouched.
    pub fn stage_chat_replace(&mut self, replacement: Vec<Value>)
        ensures
            final(self).temporary_snapshot == Some(replacement),
            final(self).visible_chat_snapshot == old(self).visible_chat_snapshot,
    {
        self.temporary_snapshot = Some(replacement);
    }

    /// The staged snapshot becomes the visible one, all at once.
    pub fn commit_chat_replace(&mut self)
        requires
            old(self).temporary_snapshot is Some,
        ensures
            final(self).visible_chat_snapshot == old(self).temporary_snapshot->0,
            final(self).temporary_snapshot is None,
    {
        self.visible_chat_snapshot = self.temporary_snapshot.take().unwrap();
    }

    /// The staged snapshot is dropped; the visible one stays.
    pub fn abandon_chat_replace(&mut self)
        ensures
            final(self).temporary_snapshot is None,
            final(self).visible_chat_snapshot == old(self).visible_chat_snapshot,
    {
        self.temporary_snapshot = None;
    }
}

/// After an append, the appended record is a line of its own, whatever the log held before:
/// a torn tail can never merge with it.
pub proof fn law_appended_record_is_whole_line(log: Seq<char>, line: Seq<char>)
    requires
        !line.contains('\n'),
        !(line.len() > 0 && line.last() == '\r'),
    ensures
        ({
            let lines = lines_from(appended(log, line), 0);
            lines.len() > 0 && lines.last() == line
        }),
{
    let text = appended(log, line);
    let closed = if log.len() > 0 && log.last() != '\n' {
        log.push('\n')
    } else {
        log
    };
    let start = closed.len() as int;
    assert(text == closed + line + seq!['\n']);
    assert forall|k: int| start <= k < start + line.len() implies text[k] != '\n' by {
        assert(text[k] == line[k - start]);
        if line[k - start] == '\n' {
            assert(line.contains('\n'));
        }
    }
    assert(text[start + line.len()] == '\n');
    lemma_line_end_from(text, start, start + line.len());
    assert(text.subrange(start, start + line.len()) =~= line);
    assert(lines_from(text, start + line.len() + 1) =~= Seq::<Seq<char>>::empty());
    assert(lines_from(text, start) =~= seq![line]);
    if start > 0 {
        assert(text[start - 1] == closed[start - 1]);
    }
    lemma_lines_reach(text, 0, start);
}

proof fn lemma_line_end_from(s: Seq<char>, from: int, end: int)
    requires
        0 <= from <= end < s.len(),
        s[end] == '\n',
        forall|k: int| from <= k < end ==> s[k] != '\n',
    ensures
        line_end(s, from) == end,
    decreases end - from,
{
    if from < end {
        lemma_line_end_from(s, from + 1, end);
    }
}

/// Splitting from a line start reaches every later line start: the last line of the whole
/// text is the last line from any line start before it.
proof fn lemma_lines_reach(s: Seq<char>, from: int, start: int)
    requires
        0 <= from <= start < s.len(),
        from == 0 || s[from - 1] == '\n',
        start == 0 || s[start - 1] == '\n',
    ensures
        lines_from(s, from).len() >= lines_from(s, start).len(),
        lines_from(s, start).len() > 0 ==> lines_from(s, from).last() == lines_from(s, start).last(),
    decreases start - from,
{
    if from < start {
        lemma_line_end(s, from);
        let e = line_end(s, from);
        if e + 1 <= start {
            if e + 1 < start {
                lemma_lines_reach(s, e + 1, start);
            }
        } else {
            assert(e >= start);
            assert(s[start - 1] == '\n');
            assert(false);
        }
    }
}

} // verus!
