//! An actor that owns a running total and answers each command through a one-shot reply.
//! The decisions live here; the caller receives commands and sends the replies.
use vstd::prelude::*;

verus! {

/// A command as the actor reads it.
#[derive(Clone, Copy, Debug, PartialEq, Eq, Structural)]
pub enum CommandKind {
    Add(i32),
    Get,
    Shutdown,
}

/// What the actor does with a command: reply with a total, or stop.
#[derive(Clone, Copy, Debug, PartialEq, Eq, Structural)]
pub enum ActorStep {
    Reply(i32),
    Stop,
}

pub struct Accumulator {
    pub total: i32,
}

impl Accumulator {
    pub fn new() -> (a: Self)
        ensures
            a.total == 0,
    {
        Accumulator { total: 0 }
    }

    /// Adding replies with the new total; reading replies with the total; shutdown stops.
    pub fn handle(&mut self, command: CommandKind) -> (step: ActorStep)
        requires
            command matches CommandKind::Add(v) ==> i32::MIN <= old(self).total + v <= i32::MAX,
        ensures
            match command {
                CommandKind::Add(v) => final(self).total == old(self).total + v && step
                    == ActorStep::Reply(final(self).total),
                CommandKind::Get => final(self).total == old(self).total && step == ActorStep::Reply(
                    old(self).total,
                ),
                CommandKind::Shutdown => final(self).total == old(self).total && step
                    == ActorStep::Stop,
            },
    {
        match command {
            CommandKind::Add(value) => {
                self.total += value;
                ActorStep::Reply(self.total)
            },
            CommandKind::Get => ActorStep::Reply(self.total),
            CommandKind::Shutdown => ActorStep::Stop,
        }
    }
}

} // verus!
