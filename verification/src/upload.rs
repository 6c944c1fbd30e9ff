use vstd::prelude::*;

use crate::errors::Error;

verus! {

// ---------------------------------------------------------------------------
// The bounded wait for an asynchronous media upload
// ---------------------------------------------------------------------------

/// What one poll of the media-status endpoint yielded.
#[derive(Debug)]
pub enum PollOutcome {
    /// The attachment is ready; carries the resolved media id.
    Ready(String),
    /// The attachment is still being processed (the partial-content
    /// response kind); the wait goes on.
    Pending,
    /// Any other failure; carries the API detail.
    Failed(String),
}

/// The state of the wait: it starts `Pending` and ends in one of the three
/// terminal states.
#[derive(Debug)]
pub enum WaitState {
    Pending,
    Ready(String),
    TimedOut,
    Failed(String),
}

/// Where the wait stands after one more poll: a ready answer resolves it, a
/// failure ends it, and a still-processing answer keeps it pending until
/// the attempt bound is spent.
pub open spec fn wait_step_spec(attempts_made: u64, max_attempts: u64, outcome: PollOutcome) -> WaitState {
    match outcome {
        PollOutcome::Ready(id) => WaitState::Ready(id),
        PollOutcome::Failed(d) => WaitState::Failed(d),
        PollOutcome::Pending => if attempts_made + 1 >= max_attempts {
            WaitState::TimedOut
        } else {
            WaitState::Pending
        },
    }
}

/// One transition of the wait: `attempts_made` polls were already made, and
/// the next poll yielded `outcome`.
pub fn wait_step(attempts_made: u64, max_attempts: u64, outcome: PollOutcome) -> (s: WaitState)
    ensures
        s == wait_step_spec(attempts_made, max_attempts, outcome),
{
    match outcome {
        PollOutcome::Ready(id) => WaitState::Ready(id),
        PollOutcome::Failed(d) => WaitState::Failed(d),
        PollOutcome::Pending => {
            if max_attempts == 0 || attempts_made >= max_attempts - 1 {
                WaitState::TimedOut
            } else {
                WaitState::Pending
            }
        },
    }
}

/// The terminal state the wait reaches from `made` attempts already spent,
/// reading poll outcomes in order: the first decisive outcome within the
/// attempt bound wins, and a wait that spends the bound, or runs out of
/// outcomes, times out.  Also yields the total number of attempts made.
pub open spec fn wait_from(outcomes: Seq<PollOutcome>, made: u64, max: u64) -> (WaitState, u64)
    decreases outcomes.len(),
{
    if made >= max || outcomes.len() == 0 {
        (WaitState::TimedOut, made)
    } else {
        match outcomes[0] {
            PollOutcome::Ready(id) => (WaitState::Ready(id), (made + 1) as u64),
            PollOutcome::Failed(d) => (WaitState::Failed(d), (made + 1) as u64),
            PollOutcome::Pending => wait_from(outcomes.skip(1), (made + 1) as u64, max),
        }
    }
}

/// The wait never ends in a non-terminal state.
pub proof fn lemma_wait_resolves(outcomes: Seq<PollOutcome>, made: u64, max: u64)
    ensures
        !(wait_from(outcomes, made, max).0 is Pending),
    decreases outcomes.len(),
{
    if !(made >= max || outcomes.len() == 0) {
        if outcomes[0] is Pending {
            lemma_wait_resolves(outcomes.skip(1), (made + 1) as u64, max);
        }
    }
}

/// A wait that only ever hears "still processing" times out after exactly
/// the attempt bound.
pub proof fn lemma_wait_times_out(outcomes: Seq<PollOutcome>, made: u64, max: u64)
    requires
        made <= max,
        outcomes.len() >= max - made,
        forall|i: int| 0 <= i < outcomes.len() ==> #[trigger] outcomes[i] is Pending,
    ensures
        wait_from(outcomes, made, max) == (WaitState::TimedOut, max),
    decreases outcomes.len(),
{
    if made < max {
        assert forall|i: int| 0 <= i < outcomes.skip(1).len() implies #[trigger] outcomes.skip(1)[i] is Pending by {
            assert(outcomes.skip(1)[i] == outcomes[i + 1]);
        }
        lemma_wait_times_out(outcomes.skip(1), (made + 1) as u64, max);
    }
}

/// A ready answer on the `k + 1`-th poll, after `k` still-processing
/// answers, resolves the wait on exactly that attempt, provided the bound
/// is not spent first.
pub proof fn lemma_wait_succeeds(outcomes: Seq<PollOutcome>, made: u64, max: u64, k: int)
    requires
        0 <= k < outcomes.len(),
        made + k < max,
        forall|i: int| 0 <= i < k ==> #[trigger] outcomes[i] is Pending,
        outcomes[k] is Ready,
    ensures
        wait_from(outcomes, made, max) == (
            WaitState::Ready(outcomes[k]->Ready_0),
            (made + k + 1) as u64,
        ),
    decreases k,
{
    if k > 0 {
        assert forall|i: int| 0 <= i < k - 1 implies #[trigger] outcomes.skip(1)[i] is Pending by {
            assert(outcomes.skip(1)[i] == outcomes[i + 1]);
        }
        assert(outcomes.skip(1)[k - 1] == outcomes[k]);
        lemma_wait_succeeds(outcomes.skip(1), (made + 1) as u64, max, k - 1);
    }
}

/// Runs the wait over a sequence of poll outcomes, consuming at most
/// `max_attempts` of them: the terminal state and the number of polls made.
pub fn run_wait(outcomes: Vec<PollOutcome>, max_attempts: u64) -> (r: (WaitState, u64))
    ensures
        r == wait_from(outcomes@, 0, max_attempts),
{
    let mut v = outcomes;
    let mut attempts: u64 = 0;
    while attempts < max_attempts && v.len() > 0
        invariant
            attempts <= max_attempts,
            wait_from(outcomes@, 0, max_attempts) == wait_from(v@, attempts, max_attempts),
        decreases v@.len(),
    {
        let ghost oldv = v@;
        let out = v.remove(0);
        proof {
            assert(out == oldv[0]);
            assert(v@ =~= oldv.skip(1));
        }
        attempts = attempts + 1;
        match out {
            PollOutcome::Ready(id) => {
                return (WaitState::Ready(id), attempts);
            },
            PollOutcome::Failed(d) => {
                return (WaitState::Failed(d), attempts);
            },
            PollOutcome::Pending => {},
        }
    }
    (WaitState::TimedOut, attempts)
}

// ---------------------------------------------------------------------------
// Resolving an upload response
// ---------------------------------------------------------------------------

/// The posting instance's answer to a media upload: either the attachment
/// id at once, or the id of an attachment that is still being processed and
/// must be polled for.
#[derive(Debug)]
pub enum UploadResponse {
    Immediate(String),
    Queued(String),
}

/// Resolves an upload response to the media id to attach.  An immediate
/// attachment is its own answer; a queued one is waited for by reading
/// `polls` in order, at most `max_attempts` of them: a timeout carries the
/// pending media id, any other poll failure carries the API detail.  Also
/// yields the number of polls made.
pub fn resolve_upload(resp: UploadResponse, polls: Vec<PollOutcome>, max_attempts: u64) -> (r: (
    Result<String, Error>,
    u64,
))
    ensures
        resp matches UploadResponse::Immediate(id) ==> r.0 == Ok::<String, Error>(id) && r.1 == 0,
        resp matches UploadResponse::Queued(id) ==> {
            let w = wait_from(polls@, 0, max_attempts);
            &&& r.1 == w.1
            &&& match w.0 {
                WaitState::Ready(rid) => r.0 == Ok::<String, Error>(rid),
                WaitState::TimedOut => r.0 matches Err(Error::ImageTimeout(m)) && m == id,
                WaitState::Failed(d) => r.0 matches Err(Error::Megalodon(m)) && m == d,
                WaitState::Pending => false,
            }
        },
{
    match resp {
        UploadResponse::Immediate(id) => (Ok(id), 0),
        UploadResponse::Queued(id) => {
            proof {
                lemma_wait_resolves(polls@, 0, max_attempts);
            }
            let (state, attempts) = run_wait(polls, max_attempts);
            match state {
                WaitState::Ready(rid) => (Ok(rid), attempts),
                WaitState::TimedOut => (Err(Error::ImageTimeout(id)), attempts),
                WaitState::Failed(d) => (Err(Error::Megalodon(d)), attempts),
                WaitState::Pending => {
                    proof {
                        assert(false);
                    }
                    (Err(Error::ImageTimeout(id)), attempts)
                },
            }
        },
    }
}

} // verus!
