//! The decisions of each site's recurring check: when the first check runs, and
//! what a finished check changes. The shell owns the timers and the tasks.

use vstd::prelude::*;

use crate::check::{spec_first_probe, CheckOutcome, Probe};
use crate::model::{Method, StatusEvent};

verus! {

/// Upper bound on the startup offset. Keeps sites on a shared interval from
/// all firing on the same second without delaying the first result much.
pub const MAX_JITTER_SECS: u64 = 10;

/// The largest startup offset, in milliseconds, for a site checked every
/// `interval_secs` seconds.
pub open spec fn jitter_ceiling(interval_secs: u64) -> nat {
    (if interval_secs < MAX_JITTER_SECS { interval_secs } else { MAX_JITTER_SECS }) as nat * 1000
}

/// The largest startup offset, in milliseconds: the interval, but at most
/// `MAX_JITTER_SECS`.
pub fn jitter_ceiling_ms(interval_secs: u64) -> (res: u64)
    ensures
        res == jitter_ceiling(interval_secs),
        res == (if interval_secs < 10 { interval_secs } else { 10 }) * 1000,
{
    let secs = if interval_secs < MAX_JITTER_SECS { interval_secs } else { MAX_JITTER_SECS };
    secs * 1000
}

/// `rand::random_range(0..=ceiling)`: a value drawn from the thread-local
/// generator. Claims only that it lies in the range; which value is left open.
#[verifier::external_body]
fn random_up_to(ceiling: u64) -> (res: u64)
    ensures
        res <= ceiling,
{
    rand::random_range(0..=ceiling)
}

/// The offset applied once, before a site's first check. Because the loop
/// sleeps a full interval after each check, every later check keeps it.
pub fn startup_jitter_ms(interval_secs: u64) -> (res: u64)
    ensures
        res <= jitter_ceiling(interval_secs),
{
    random_up_to(jitter_ceiling_ms(interval_secs))
}

/// The startup offset is never more than ten seconds, never more than one
/// interval, and is exactly one of the two.
pub proof fn law_jitter_ceiling_is_min_of_interval_and_ten_seconds(interval_secs: u64)
    ensures
        jitter_ceiling(interval_secs) <= 10000,
        jitter_ceiling(interval_secs) <= interval_secs * 1000,
        jitter_ceiling(interval_secs) == 10000 || jitter_ceiling(interval_secs) == interval_secs
            * 1000,
{
}

/// What a finished check changes.
#[derive(Debug, PartialEq, Eq)]
pub struct CheckReport {
    /// The request method to use from now on.
    pub method_override: Option<Method>,
    /// Whether to record in the site list that this site needs GET.
    pub persist_get_fallback: bool,
    /// The event to send to the window.
    pub event: StatusEvent,
    /// How long to wait, in seconds, before the next check: a full interval
    /// after each check, so every check keeps the startup offset.
    pub pause_secs: u64,
}

/// The request method a site uses after a check that did (or did not)
/// discover that HEAD is unsupported.
pub open spec fn next_override(method_override: Option<Method>, used_get_fallback: bool) -> Option<
    Method,
> {
    if used_get_fallback {
        Some(Method::Get)
    } else {
        method_override
    }
}

/// The request method check number `fallbacks.len()` of a site's task is made
/// with, starting from `initial`, when the earlier checks reported
/// `fallbacks` (each check's `used_get_fallback`, in order).
pub open spec fn override_for_check(initial: Option<Method>, fallbacks: Seq<bool>) -> Option<Method>
    decreases fallbacks.len(),
{
    if fallbacks.len() == 0 {
        initial
    } else {
        next_override(override_for_check(initial, fallbacks.drop_last()), fallbacks.last())
    }
}

/// Fold a check's outcome into the site's loop state: a check that discovered
/// HEAD is unsupported switches the site to GET and asks for that to be
/// recorded; every check produces exactly one status event, and is followed by
/// a pause of one full interval.
pub fn record_outcome(
    id: &str,
    interval_secs: u64,
    method_override: Option<Method>,
    outcome: CheckOutcome,
    checked_at: u64,
) -> (res: CheckReport)
    ensures
        res.method_override == next_override(method_override, outcome.used_get_fallback),
        res.persist_get_fallback == outcome.used_get_fallback,
        res.event.id@ == id@,
        res.event.state == outcome.state,
        res.event.reason == outcome.reason,
        res.event.checked_at == checked_at,
        res.pause_secs == interval_secs,
{
    let next = if outcome.used_get_fallback {
        Some(Method::Get)
    } else {
        method_override
    };
    CheckReport {
        method_override: next,
        persist_get_fallback: outcome.used_get_fallback,
        event: StatusEvent {
            id: String::from_str(id),
            state: outcome.state,
            checked_at,
            reason: outcome.reason,
        },
        pause_secs: interval_secs,
    }
}

/// GET from then on: once any check of a site's task has discovered that the
/// site does not do HEAD, every later check of that task is made with GET and
/// sends no HEAD; until then, every check uses the site's stored method.
pub proof fn law_get_from_then_on(initial: Option<Method>, fallbacks: Seq<bool>)
    ensures
        (exists|j: int| 0 <= j < fallbacks.len() && #[trigger] fallbacks[j]) ==> {
            &&& override_for_check(initial, fallbacks) == Some(Method::Get)
            &&& spec_first_probe(override_for_check(initial, fallbacks)) == (Probe::Get {
                after_head: false,
            })
        },
        (forall|j: int| 0 <= j < fallbacks.len() ==> !#[trigger] fallbacks[j])
            ==> override_for_check(initial, fallbacks) == initial,
    decreases fallbacks.len(),
{
    if fallbacks.len() > 0 {
        let p = fallbacks.drop_last();
        law_get_from_then_on(initial, p);
        if exists|j: int| 0 <= j < fallbacks.len() && #[trigger] fallbacks[j] {
            if !fallbacks.last() {
                let j = choose|j: int| 0 <= j < fallbacks.len() && #[trigger] fallbacks[j];
                assert(p[j] == fallbacks[j]);
            }
        }
        if forall|j: int| 0 <= j < fallbacks.len() ==> !#[trigger] fallbacks[j] {
            assert forall|j: int| 0 <= j < p.len() implies !#[trigger] p[j] by {
                assert(p[j] == fallbacks[j]);
            }
            assert(!fallbacks[fallbacks.len() - 1]);
        }
    }
}

/// Once a check has discovered that a site does not do HEAD, every later check
/// of it goes straight to GET, and is not itself reported as a new discovery.
pub proof fn law_learned_get_skips_head(method_override: Option<Method>, used_get_fallback: bool)
    requires
        used_get_fallback || method_override is Some,
    ensures
        spec_first_probe(next_override(method_override, used_get_fallback)) == (Probe::Get {
            after_head: false,
        }),
{
}

} // verus!
