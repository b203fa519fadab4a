//! Cancellation and shutdown of a session with one foreground turn: a cancel is answered
//! once the turn reports back, and shutdown joins background work before the final flush.
//! The decisions live here; the caller runs turns, signals cancellation, and joins tasks.
use vstd::prelude::*;
use vstd::string::*;

verus! {

#[derive(Debug, Clone, Copy, PartialEq, Eq, Structural)]
pub enum TurnOutcome {
    Completed,
    Cancelled,
}

/// The session's decisions. `R` is what the caller keeps for the running turn (its cancel
/// signal and reply); `W` is a waiter for a cancel acknowledgement.
pub struct SessionCore<R, W> {
    pub running: Option<(&'static str, R)>,
    pub cancel_waiter: Option<W>,
    pub events: Vec<String>,
}

pub open spec fn texts(v: Seq<String>) -> Seq<Seq<char>> {
    v.map_values(|s: String| s@)
}

/// How a finished turn is logged.
pub open spec fn completion_event(id: &'static str, outcome: TurnOutcome) -> Seq<char> {
    match outcome {
        TurnOutcome::Completed => "turn_completed:"@ + id@,
        TurnOutcome::Cancelled => "turn_cancelled:"@ + id@,
    }
}

impl<R, W> SessionCore<R, W> {
    pub fn new() -> (s: Self)
        ensures
            s.running is None,
            s.cancel_waiter is None,
            s.events@.len() == 0,
    {
        SessionCore { running: None, cancel_waiter: None, events: Vec::new() }
    }

    /// Starts a turn; the session allows one foreground turn.
    pub fn on_start(&mut self, id: &'static str, handles: R)
        requires
            old(self).running is None,
        ensures
            final(self).running == Some((id, handles)),
            final(self).cancel_waiter == old(self).cancel_waiter,
            texts(final(self).events@) == texts(old(self).events@).push("turn_started:"@ + id@),
    {
        let ghost e0 = texts(self.events@);
        self.events.push(String::from_str("turn_started:").concat(id));
        assert(texts(self.events@) =~= e0.push("turn_started:"@ + id@));
        self.running = Some((id, handles));
    }

    /// Records a cancel request for the running turn; the waiter is answered when the turn
    /// reports back.
    pub fn on_cancel(&mut self, waiter: W)
        requires
            old(self).running is Some,
        ensures
            final(self).running == old(self).running,
            final(self).cancel_waiter == Some(waiter),
            texts(final(self).events@) == texts(old(self).events@).push(
                "cancel_requested:"@ + (old(self).running->0).0@,
            ),
    {
        let id = match &self.running {
            Some((id, _)) => *id,
            None => {
                assert(false);
                ""
            },
        };
        let ghost e0 = texts(self.events@);
        self.events.push(String::from_str("cancel_requested:").concat(id));
        assert(texts(self.events@) =~= e0.push("cancel_requested:"@ + id@));
        self.cancel_waiter = Some(waiter);
    }

    /// The running turn's handles, e.g. to signal its cancellation.
    pub fn running_handles(&self) -> (r: Option<&R>)
        ensures
            match self.running {
                Some((_, h)) => r == Some(&h),
                None => r is None,
            },
    {
        match &self.running {
            Some((_, h)) => Some(h),
            None => None,
        }
    }

    /// The running turn reported its outcome: it is logged, and its handles and any cancel
    /// waiter are handed back to be answered.
    pub fn on_completion(&mut self, id: &'static str, outcome: TurnOutcome) -> (r: (R, Option<W>))
        requires
            old(self).running matches Some((running_id, _)) && running_id@ == id@,
        ensures
            final(self).running is None,
            final(self).cancel_waiter is None,
            r.0 == (old(self).running->0).1,
            r.1 == old(self).cancel_waiter,
            texts(final(self).events@) == texts(old(self).events@).push(completion_event(id, outcome)),
    {
        let ghost e0 = texts(self.events@);
        let (_, handles) = self.running.take().unwrap();
        match outcome {
            TurnOutcome::Completed => self.events.push(String::from_str("turn_completed:").concat(id)),
            TurnOutcome::Cancelled => self.events.push(String::from_str("turn_cancelled:").concat(id)),
        }
        assert(texts(self.events@) =~= e0.push(completion_event(id, outcome)));
        let waiter = self.cancel_waiter.take();
        (handles, waiter)
    }

    /// Shutdown was requested; it follows the cleanup of the foreground turn.
    pub fn on_shutdown_requested(&mut self)
        requires
            old(self).running is None,
        ensures
            final(self).running is None,
            texts(final(self).events@) == texts(old(self).events@).push("shutdown:requested"@),
    {
        let ghost e0 = texts(self.events@);
        self.events.push(String::from_str("shutdown:requested"));
        assert(texts(self.events@) =~= e0.push("shutdown:requested"@));
    }

    /// Background work has been joined; the session flushes last.
    pub fn on_workflow_joined(&mut self)
        ensures
            final(self).running == old(self).running,
            texts(final(self).events@) == texts(old(self).events@).push(
                "shutdown:workflow_joined"@,
            ).push("shutdown:flush"@),
    {
        let ghost e0 = texts(self.events@);
        self.events.push(String::from_str("shutdown:workflow_joined"));
        self.events.push(String::from_str("shutdown:flush"));
        assert(texts(self.events@) =~= e0.push("shutdown:workflow_joined"@).push(
            "shutdown:flush"@,
        ));
    }
}

} // verus!
