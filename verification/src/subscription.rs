//! How a conversation subscribes to the updates of its session.
use vstd::prelude::*;
use crate::text::str_eq;

verus! {

/// How long to wait before asking again for the message service, in milliseconds.
pub const MESSAGE_SERVICE_RETRY_DELAY_MS: u64 = 500;

/// How many times to ask again for the message service before giving up.
pub const MESSAGE_SERVICE_MAX_RETRIES: usize = 60;

/// Whether an event of session `session_id` reaches a subscriber that listens to
/// `filter` (every session when there is none).
pub fn passes_session_filter(filter: &Option<String>, session_id: &str) -> (r: bool)
    ensures
        r == match filter {
            Some(f) => f@ == session_id@,
            None => true,
        },
{
    match filter {
        Some(f) => str_eq(f.as_str(), session_id),
        None => true,
    }
}

/// What to do when subscribing to session updates.
#[derive(PartialEq, Eq, Structural, Clone, Copy, Debug)]
pub enum SubscribeStep {
    /// The message service is there: subscribe now.
    Subscribe,
    /// Wait, then try again with this many attempts left.
    RetryAfterDelay { remaining_attempts: usize },
    /// No attempt is left: give up.
    GiveUp,
}

/// The next step of a subscription, given whether the message service is ready and how
/// many attempts are left.
pub open spec fn next_step(service_ready: bool, remaining_attempts: usize) -> SubscribeStep {
    if service_ready {
        SubscribeStep::Subscribe
    } else if remaining_attempts == 0 {
        SubscribeStep::GiveUp
    } else {
        SubscribeStep::RetryAfterDelay { remaining_attempts: (remaining_attempts - 1) as usize }
    }
}

/// The next step of a subscription, given whether the message service is ready and how
/// many attempts are left.
pub fn subscribe_step(service_ready: bool, remaining_attempts: usize) -> (r: SubscribeStep)
    ensures
        r == next_step(service_ready, remaining_attempts),
{
    if service_ready {
        SubscribeStep::Subscribe
    } else if remaining_attempts == 0 {
        SubscribeStep::GiveUp
    } else {
        SubscribeStep::RetryAfterDelay { remaining_attempts: remaining_attempts - 1 }
    }
}

/// The step taken at the attempt after `waits` retries, starting with `remaining`
/// attempts, while the message service stays away.
pub open spec fn step_after(remaining: usize, waits: nat) -> SubscribeStep
    decreases waits,
{
    match next_step(false, remaining) {
        SubscribeStep::RetryAfterDelay { remaining_attempts } => if waits == 0 {
            next_step(false, remaining)
        } else {
            step_after(remaining_attempts, (waits - 1) as nat)
        },
        other => other,
    }
}

/// While the message service stays away, a subscription that starts with `remaining`
/// attempts waits and retries `remaining` times, then gives up.
pub proof fn lemma_retries_end(remaining: usize, waits: nat)
    ensures
        waits < remaining ==> step_after(remaining, waits) is RetryAfterDelay,
        waits >= remaining ==> step_after(remaining, waits) == SubscribeStep::GiveUp,
    decreases waits,
{
    if remaining > 0 && waits > 0 {
        lemma_retries_end((remaining - 1) as usize, (waits - 1) as nat);
    }
}

} // verus!
