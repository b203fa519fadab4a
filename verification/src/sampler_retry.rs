//! One logical model request over several attempts: transient failures and empty replies
//! are retried, but never after output reached the user when that is forbidden; other
//! failures go back to the session.
use vstd::prelude::*;
use vstd::string::*;

verus! {

#[derive(Clone, Copy, Debug, PartialEq, Eq, Structural)]
pub enum Failure {
    Transient,
    EmptyResponse,
    Auth,
    ContextOverflow,
}

#[derive(Clone, Copy, Debug, PartialEq, Eq)]
pub enum Response {
    Text(&'static str),
    ToolCall(&'static str),
    Empty,
}

pub struct Attempt {
    pub deltas: Vec<&'static str>,
    pub terminal: Result<Response, Failure>,
}

#[derive(Debug, PartialEq, Eq)]
pub struct RequestRun {
    pub attempts: usize,
    pub visible_text: String,
    pub retry_events: usize,
    pub terminal: Result<Response, Failure>,
}

/// Whether a failure may be retried: only transient failures and empty replies, and only
/// before any output when retries are restricted to that.
pub open spec fn retryable(error: Failure, emitted_output: bool, retry_only_before_output: bool) -> bool {
    (error == Failure::Transient || error == Failure::EmptyResponse) && !(retry_only_before_output
        && emitted_output)
}

pub fn can_retry(error: Failure, emitted_output: bool, retry_only_before_output: bool) -> (r: bool)
    ensures
        r == retryable(error, emitted_output, retry_only_before_output),
{
    match error {
        Failure::Transient | Failure::EmptyResponse => !(retry_only_before_output && emitted_output),
        _ => false,
    }
}

pub fn attempt(deltas: Vec<&'static str>, terminal: Result<Response, Failure>) -> (a: Attempt)
    ensures
        a.deltas == deltas,
        a.terminal == terminal,
{
    Attempt { deltas, terminal }
}

/// The concatenation of streamed deltas.
pub open spec fn concat(deltas: Seq<&'static str>) -> Seq<char>
    decreases deltas.len(),
{
    if deltas.len() == 0 {
        Seq::empty()
    } else {
        concat(deltas.drop_last()) + deltas.last()@
    }
}

/// The run as the session sees it.
pub struct RunModel {
    pub attempts: nat,
    pub visible_text: Seq<char>,
    pub retry_events: nat,
    pub terminal: Result<Response, Failure>,
}

impl View for RequestRun {
    type V = RunModel;

    open spec fn view(&self) -> RunModel {
        RunModel {
            attempts: self.attempts as nat,
            visible_text: self.visible_text@,
            retry_events: self.retry_events as nat,
            terminal: self.terminal,
        }
    }
}

/// An empty reply counts as a failure.
pub open spec fn effective(terminal: Result<Response, Failure>) -> Result<Response, Failure> {
    match terminal {
        Ok(Response::Empty) => Err(Failure::EmptyResponse),
        other => other,
    }
}

/// What one attempt does to the run, and whether the run goes on with a retry.
pub open spec fn absorb_model(
    run: RunModel,
    deltas: Seq<&'static str>,
    terminal: Result<Response, Failure>,
    max_attempts: usize,
    retry_only_before_output: bool,
) -> (RunModel, bool) {
    let attempts = run.attempts + 1;
    let text = run.visible_text + concat(deltas);
    let emitted = deltas.len() > 0;
    match effective(terminal) {
        Ok(response) => (
            RunModel { attempts, visible_text: text, terminal: Ok(response), ..run },
            false,
        ),
        Err(error) => if attempts < max_attempts && retryable(
            error,
            emitted,
            retry_only_before_output,
        ) {
            (
                RunModel {
                    attempts,
                    visible_text: text,
                    retry_events: run.retry_events + 1,
                    terminal: Err(error),
                },
                true,
            )
        } else {
            (RunModel { attempts, visible_text: text, terminal: Err(error), ..run }, false)
        },
    }
}

/// Whether the session should run the next attempt after waiting, or has its terminal.
#[derive(Clone, Copy, Debug, PartialEq, Eq, Structural)]
pub enum Step {
    Retry,
    Finished,
}

impl RequestRun {
    /// A run before any attempt; its terminal is a transient failure until an attempt ends.
    pub fn new() -> (r: Self)
        ensures
            r@ == (RunModel {
                attempts: 0,
                visible_text: Seq::empty(),
                retry_events: 0,
                terminal: Err(Failure::Transient),
            }),
    {
        RequestRun {
            attempts: 0,
            visible_text: String::new(),
            retry_events: 0,
            terminal: Err(Failure::Transient),
        }
    }

    /// Takes in one attempt: counts it, shows its deltas, and decides on a retry.
    pub fn absorb(&mut self, attempt: Attempt, max_attempts: usize, retry_only_before_output: bool) -> (step:
        Step)
        requires
            old(self).attempts < usize::MAX,
            old(self).retry_events < usize::MAX,
        ensures
            (final(self)@, step == Step::Retry) == absorb_model(
                old(self)@,
                attempt.deltas@,
                attempt.terminal,
                max_attempts,
                retry_only_before_output,
            ),
    {
        let ghost text0 = self.visible_text@;
        self.attempts += 1;
        let emitted_output = attempt.deltas.len() > 0;
        let mut i: usize = 0;
        while i < attempt.deltas.len()
            invariant
                i <= attempt.deltas@.len(),
                self.attempts == old(self).attempts + 1,
                self.retry_events == old(self).retry_events,
                old(self).retry_events < usize::MAX,
                self.visible_text@ == text0 + concat(attempt.deltas@.take(i as int)),
            decreases attempt.deltas@.len() - i,
        {
            self.visible_text.append(attempt.deltas[i]);
            proof {
                assert(attempt.deltas@.take(i + 1).drop_last() =~= attempt.deltas@.take(i as int));
                assert(text0 + concat(attempt.deltas@.take(i as int)) + attempt.deltas@[i as int]@
                    =~= text0 + (concat(attempt.deltas@.take(i as int)) + attempt.deltas@[i as int]@));
            }
            i = i + 1;
        }
        assert(attempt.deltas@.take(attempt.deltas@.len() as int) =~= attempt.deltas@);
        let terminal = match attempt.terminal {
            Ok(Response::Empty) => Err(Failure::EmptyResponse),
            other => other,
        };
        match terminal {
            Ok(response) => {
                self.terminal = Ok(response);
                Step::Finished
            },
            Err(error) => {
                if self.attempts < max_attempts && can_retry(
                    error,
                    emitted_output,
                    retry_only_before_output,
                ) {
                    self.terminal = Err(error);
                    self.retry_events += 1;
                    Step::Retry
                } else {
                    self.terminal = Err(error);
                    Step::Finished
                }
            },
        }
    }
}

/// A failure after visible output is never retried when retries are restricted to before
/// output, and an authorization or context failure is never retried.
pub proof fn law_no_retry_after_output_or_for_session_failures(
    run: RunModel,
    deltas: Seq<&'static str>,
    terminal: Result<Response, Failure>,
    max_attempts: usize,
    retry_only_before_output: bool,
)
    requires
        (retry_only_before_output && deltas.len() > 0) || terminal == Err::<Response, Failure>(
            Failure::Auth,
        ) || terminal == Err::<Response, Failure>(Failure::ContextOverflow),
    ensures
        !absorb_model(run, deltas, terminal, max_attempts, retry_only_before_output).1,
{
}

/// Every attempt is counted, and a retried attempt is counted as one retry event.
pub proof fn law_attempts_and_retries_count(
    run: RunModel,
    deltas: Seq<&'static str>,
    terminal: Result<Response, Failure>,
    max_attempts: usize,
    retry_only_before_output: bool,
)
    ensures
        ({
            let (next, retry) = absorb_model(run, deltas, terminal, max_attempts, retry_only_before_output);
            &&& next.attempts == run.attempts + 1
            &&& next.retry_events == run.retry_events + if retry {
                1nat
            } else {
                0nat
            }
            &&& retry ==> next.attempts < max_attempts
        }),
{
}

/// A whole logical request: attempts are taken in turn until one does not call for a retry
/// or none are left.
pub open spec fn run_attempts(
    run: RunModel,
    attempts: Seq<(Seq<&'static str>, Result<Response, Failure>)>,
    max_attempts: usize,
    retry_only_before_output: bool,
) -> RunModel
    decreases attempts.len(),
{
    if attempts.len() == 0 {
        run
    } else {
        let (next, retry) = absorb_model(
            run,
            attempts[0].0,
            attempts[0].1,
            max_attempts,
            retry_only_before_output,
        );
        if retry {
            run_attempts(next, attempts.drop_first(), max_attempts, retry_only_before_output)
        } else {
            next
        }
    }
}

/// The most attempts a logical request makes: the maximum, but always at least one.
pub open spec fn attempt_bound(max_attempts: usize) -> nat {
    if max_attempts == 0 {
        1
    } else {
        max_attempts as nat
    }
}

/// Over a whole logical request that starts fresh, no more attempts run than the maximum
/// allows (at least one) nor than were supplied, and every retry event belongs to an attempt.
pub proof fn law_run_stays_within_attempts(
    attempts: Seq<(Seq<&'static str>, Result<Response, Failure>)>,
    max_attempts: usize,
    retry_only_before_output: bool,
)
    ensures
        ({
            let start = RunModel {
                attempts: 0,
                visible_text: Seq::empty(),
                retry_events: 0,
                terminal: Err(Failure::Transient),
            };
            let done = run_attempts(start, attempts, max_attempts, retry_only_before_output);
            &&& done.attempts <= attempt_bound(max_attempts)
            &&& done.attempts <= attempts.len()
            &&& done.retry_events <= done.attempts
        }),
{
    let start = RunModel {
        attempts: 0,
        visible_text: Seq::empty(),
        retry_events: 0,
        terminal: Err(Failure::Transient),
    };
    lemma_run_bounds(start, attempts, max_attempts, retry_only_before_output);
}

proof fn lemma_run_bounds(
    run: RunModel,
    attempts: Seq<(Seq<&'static str>, Result<Response, Failure>)>,
    max_attempts: usize,
    retry_only_before_output: bool,
)
    requires
        run.retry_events == run.attempts,
        run.attempts < attempt_bound(max_attempts),
    ensures
        ({
            let done = run_attempts(run, attempts, max_attempts, retry_only_before_output);
            &&& done.attempts <= attempt_bound(max_attempts)
            &&& done.attempts <= run.attempts + attempts.len()
            &&& done.retry_events <= done.attempts
        }),
    decreases attempts.len(),
{
    if attempts.len() > 0 {
        let (next, retry) = absorb_model(
            run,
            attempts[0].0,
            attempts[0].1,
            max_attempts,
            retry_only_before_output,
        );
        if retry {
            lemma_run_bounds(next, attempts.drop_first(), max_attempts, retry_only_before_output);
        }
    }
}

} // verus!
