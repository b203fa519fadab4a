//! A session actor that queues prompts and runs one at a time, in arrival order.
//! The decisions live here; the caller runs the tasks and delivers completions.
use std::collections::VecDeque;
use vstd::prelude::*;
use vstd::string::*;

verus! {

/// What a status request reports.
#[derive(Debug, PartialEq, Eq)]
pub struct Status {
    pub running: Option<&'static str>,
    pub queued: usize,
    pub completed: usize,
}

/// The session's state; `P` is what the caller keeps with each queued prompt.
pub struct SessionState<P> {
    pub pending_inputs: VecDeque<(&'static str, P)>,
    pub running_task: Option<&'static str>,
    pub completed: Vec<&'static str>,
    pub events: Vec<String>,
}

pub open spec fn texts(v: Seq<String>) -> Seq<Seq<char>> {
    v.map_values(|s: String| s@)
}

pub open spec fn ids<P>(q: Seq<(&'static str, P)>) -> Seq<&'static str> {
    q.map_values(|p: (&'static str, P)| p.0)
}

impl<P> SessionState<P> {
    pub fn new() -> (s: Self)
        ensures
            s.pending_inputs@.len() == 0,
            s.running_task is None,
            s.completed@.len() == 0,
            s.events@.len() == 0,
    {
        SessionState {
            pending_inputs: VecDeque::new(),
            running_task: None,
            completed: Vec::new(),
            events: Vec::new(),
        }
    }

    /// Nothing waits while nothing runs.
    pub open spec fn idle_means_empty(&self) -> bool {
        self.running_task is None ==> self.pending_inputs@.len() == 0
    }

    /// Starts the oldest queued prompt when nothing runs; hands it back to be run.
    pub fn maybe_start_running_task(&mut self) -> (started: Option<(&'static str, P)>)
        ensures
            final(self).completed == old(self).completed,
            final(self).idle_means_empty(),
            match started {
                Some(p) => {
                    &&& old(self).running_task is None
                    &&& old(self).pending_inputs@.len() > 0
                    &&& p == old(self).pending_inputs@[0]
                    &&& final(self).pending_inputs@ == old(self).pending_inputs@.drop_first()
                    &&& final(self).running_task == Some(p.0)
                    &&& texts(final(self).events@) == texts(old(self).events@).push(
                        "started:"@ + p.0@,
                    )
                },
                None => {
                    &&& old(self).running_task is Some || old(self).pending_inputs@.len() == 0
                    &&& final(self).pending_inputs@ == old(self).pending_inputs@
                    &&& final(self).running_task == old(self).running_task
                    &&& final(self).events@ == old(self).events@
                },
            },
    {
        if self.running_task.is_some() {
            return None;
        }
        let prompt = match self.pending_inputs.pop_front() {
            Some(p) => p,
            None => {
                return None;
            },
        };
        self.running_task = Some(prompt.0);
        let ghost e0 = texts(self.events@);
        self.events.push(String::from_str("started:").concat(prompt.0));
        assert(texts(self.events@) =~= e0.push("started:"@ + prompt.0@));
        assert(self.pending_inputs@ =~= old(self).pending_inputs@.drop_first());
        Some(prompt)
    }

    /// Queues a prompt and starts it if nothing runs.
    pub fn on_prompt(&mut self, id: &'static str, payload: P) -> (started: Option<(&'static str, P)>)
        requires
            old(self).idle_means_empty(),
        ensures
            final(self).idle_means_empty(),
            final(self).completed == old(self).completed,
            match started {
                Some(p) => {
                    &&& old(self).running_task is None
                    &&& p == (id, payload)
                    &&& final(self).running_task == Some(id)
                    &&& final(self).pending_inputs@.len() == 0
                    &&& texts(final(self).events@) == texts(old(self).events@).push(
                        "queued:"@ + id@,
                    ).push("started:"@ + id@)
                },
                None => old(self).running_task is Some && final(self).running_task
                    == old(self).running_task && ids(final(self).pending_inputs@) == ids(
                    old(self).pending_inputs@,
                ).push(id) && texts(final(self).events@) == texts(old(self).events@).push(
                    "queued:"@ + id@,
                ),
            },
    {
        let ghost e0 = texts(self.events@);
        self.events.push(String::from_str("queued:").concat(id));
        assert(texts(self.events@) =~= e0.push("queued:"@ + id@));
        let ghost q0 = self.pending_inputs@;
        self.pending_inputs.push_back((id, payload));
        assert(ids(self.pending_inputs@) =~= ids(q0).push(id));
        self.maybe_start_running_task()
    }

    /// The running prompt finished; the next queued one starts.
    pub fn on_completion(&mut self, id: &'static str) -> (started: Option<(&'static str, P)>)
        requires
            old(self).running_task == Some(id),
        ensures
            final(self).idle_means_empty(),
            final(self).completed@ == old(self).completed@.push(id),
            match started {
                Some(p) => {
                    &&& old(self).pending_inputs@.len() > 0
                    &&& p == old(self).pending_inputs@[0]
                    &&& final(self).pending_inputs@ == old(self).pending_inputs@.drop_first()
                    &&& final(self).running_task == Some(p.0)
                    &&& texts(final(self).events@) == texts(old(self).events@).push(
                        "completed:"@ + id@,
                    ).push("started:"@ + p.0@)
                },
                None => {
                    &&& old(self).pending_inputs@.len() == 0
                    &&& final(self).running_task is None
                    &&& texts(final(self).events@) == texts(old(self).events@).push(
                        "completed:"@ + id@,
                    )
                },
            },
    {
        let ghost e0 = texts(self.events@);
        self.events.push(String::from_str("completed:").concat(id));
        assert(texts(self.events@) =~= e0.push("completed:"@ + id@));
        self.completed.push(id);
        self.running_task = None;
        self.maybe_start_running_task()
    }

    /// What is running, how many wait, how many finished.
    pub fn status(&self) -> (s: Status)
        ensures
            s.running == self.running_task,
            s.queued == self.pending_inputs@.len(),
            s.completed == self.completed@.len(),
    {
        Status {
            running: self.running_task,
            queued: self.pending_inputs.len(),
            completed: self.completed.len(),
        }
    }

    /// Shutting down flushes; it follows the last completion.
    pub fn on_shutdown(&mut self)
        requires
            old(self).running_task is None,
            old(self).pending_inputs@.len() == 0,
        ensures
            texts(final(self).events@) == texts(old(self).events@).push("shutdown:flush"@),
            final(self).completed == old(self).completed,
            final(self).running_task is None,
            final(self).pending_inputs@ == old(self).pending_inputs@,
    {
        let ghost e0 = texts(self.events@);
        self.events.push(String::from_str("shutdown:flush"));
        assert(texts(self.events@) =~= e0.push("shutdown:flush"@));
    }
}

/// What a finished turn replies to its prompt's text.
pub fn turn_output(text: &str) -> (r: String)
    ensures
        r@ == "reply to "@ + text@,
{
    String::from_str("reply to ").concat(text)
}

} // verus!
