//! One check of one site: which requests to send, in which order, and what the
//! replies mean. The shell sends the requests and hands back what came back.

use vstd::prelude::*;

use crate::model::{CheckState, Method};
use crate::text::{decimal, decimal_string};

verus! {

/// The outcome of one check.
#[derive(Debug, PartialEq, Eq)]
pub struct CheckOutcome {
    pub state: CheckState,
    /// Short, tooltip-sized explanation. `None` when the site is Up.
    pub reason: Option<String>,
    /// True only when this check discovered that HEAD is unsupported. The
    /// caller persists `method_override = GET` when it sees this.
    pub used_get_fallback: bool,
}

/// "Is my app working", not "is the box alive": 200-399 is Up.
pub open spec fn status_is_up(status: u16) -> bool {
    200 <= status <= 399
}

/// 200-399 is Up, everything else is Down. A final 3xx only appears when the
/// redirect limit is hit, and that still counts as Up.
pub fn classify_status(status: u16) -> (res: CheckState)
    ensures
        res == (if status_is_up(status) {
            CheckState::Up
        } else {
            CheckState::Down
        }),
        (res == CheckState::Up) <==> (200 <= status && status <= 399),
{
    if 200 <= status && status <= 399 {
        CheckState::Up
    } else {
        CheckState::Down
    }
}

/// What a transport failure was, as far as the reason text cares.
#[derive(Debug, Clone, Copy, PartialEq, Eq, Structural)]
pub struct TransportError {
    pub timeout: bool,
    pub connect: bool,
    pub redirect: bool,
    pub body: bool,
    pub decode: bool,
}

/// The short reason shown for a transport failure.
pub open spec fn transport_reason(e: TransportError) -> Seq<char> {
    if e.timeout {
        "Timed out after 10s"@
    } else if e.connect {
        "Could not connect"@
    } else if e.redirect {
        "Too many redirects"@
    } else if e.body || e.decode {
        "Bad response"@
    } else {
        "Request failed"@
    }
}

/// The outcome of a check that got an HTTP status back.
pub open spec fn status_outcome(o: CheckOutcome, status: u16, used_get_fallback: bool) -> bool {
    &&& o.used_get_fallback == used_get_fallback
    &&& if status_is_up(status) {
        o.state == CheckState::Up && o.reason is None
    } else {
        o.state == CheckState::Down && (o.reason matches Some(r) && r@ == "HTTP "@ + decimal(
            status as nat,
        ))
    }
}

/// The outcome of a check whose request did not complete.
pub open spec fn failure_outcome(o: CheckOutcome, e: TransportError, used_get_fallback: bool) -> bool {
    &&& o.used_get_fallback == used_get_fallback
    &&& o.state == CheckState::Down
    &&& o.reason matches Some(r) && r@ == transport_reason(e)
}

fn outcome_from_status(status: u16, used_get_fallback: bool) -> (res: CheckOutcome)
    ensures
        status_outcome(res, status, used_get_fallback),
{
    let state = classify_status(status);
    let reason = match state {
        CheckState::Up => None,
        CheckState::Down => Some(
            String::from_str("HTTP ").concat(decimal_string(status as u64).as_str()),
        ),
    };
    CheckOutcome { reason, state, used_get_fallback }
}

/// A transport error's own rendering chains every source, far too long for a
/// hover tooltip; this collapses it to a category.
fn transport_failure(error: TransportError, used_get_fallback: bool) -> (res: CheckOutcome)
    ensures
        failure_outcome(res, error, used_get_fallback),
{
    let reason = if error.timeout {
        String::from_str("Timed out after 10s")
    } else if error.connect {
        String::from_str("Could not connect")
    } else if error.redirect {
        String::from_str("Too many redirects")
    } else if error.body || error.decode {
        String::from_str("Bad response")
    } else {
        String::from_str("Request failed")
    };
    CheckOutcome { state: CheckState::Down, reason: Some(reason), used_get_fallback }
}

// ---------------------------------------------------------------------------
// The check as a sequence of requests

/// The request a check sends next.
#[derive(Debug, Clone, Copy, PartialEq, Eq, Structural)]
pub enum Probe {
    /// The default first request.
    Head,
    /// A GET; `after_head` when it retries a HEAD the server refused.
    Get { after_head: bool },
}

/// What came back for a request.
#[derive(Debug, Clone, Copy, PartialEq, Eq, Structural)]
pub enum Reply {
    /// The final HTTP status, after any redirects were followed.
    Status(u16),
    /// The request did not complete.
    Failed(TransportError),
}

/// What a check does after a reply.
#[derive(Debug, PartialEq, Eq)]
pub enum CheckStep {
    /// Send this request next.
    Send(Probe),
    /// The check is over.
    Done(CheckOutcome),
}

/// Whether a HEAD reply tells us the server does not do HEAD.
pub open spec fn head_refused(status: u16) -> bool {
    status == 405 || status == 501
}

/// The first request of a check: HEAD, unless the site is already known to
/// need GET.
pub open spec fn spec_first_probe(method_override: Option<Method>) -> Probe {
    if method_override matches Some(Method::Get) {
        Probe::Get { after_head: false }
    } else {
        Probe::Head
    }
}

/// The first request of a check: HEAD, unless the site is already known to
/// need GET.
pub fn first_probe(method_override: Option<Method>) -> (res: Probe)
    ensures
        res == spec_first_probe(method_override),
{
    match method_override {
        Some(Method::Get) => Probe::Get { after_head: false },
        None => Probe::Head,
    }
}

/// Whether `step` is the right reaction to `reply` for request `probe`:
/// a HEAD refused with 405 or 501 is retried once with GET; every other reply
/// ends the check, reporting whether this check was the one that fell back.
pub open spec fn is_next_step(probe: Probe, reply: Reply, step: CheckStep) -> bool {
    match (probe, reply) {
        (Probe::Head, Reply::Status(s)) => if head_refused(s) {
            step == CheckStep::Send(Probe::Get { after_head: true })
        } else {
            step matches CheckStep::Done(o) && status_outcome(o, s, false)
        },
        (Probe::Head, Reply::Failed(e)) => step matches CheckStep::Done(o) && failure_outcome(
            o,
            e,
            false,
        ),
        (Probe::Get { after_head }, Reply::Status(s)) => step matches CheckStep::Done(o)
            && status_outcome(o, s, after_head),
        (Probe::Get { after_head }, Reply::Failed(e)) => step matches CheckStep::Done(o)
            && failure_outcome(o, e, after_head),
    }
}

/// React to the reply to `probe`. On a 405 or 501 from HEAD the check retries
/// once with GET against the same address, and the outcome of that GET tells
/// the caller to remember that the site needs GET.
pub fn next_step(probe: Probe, reply: Reply) -> (res: CheckStep)
    ensures
        is_next_step(probe, reply, res),
        res is Send <==> (probe == Probe::Head && (reply == Reply::Status(405) || reply
            == Reply::Status(501))),
{
    match probe {
        Probe::Head => match reply {
            Reply::Status(s) => {
                if s == 405 || s == 501 {
                    CheckStep::Send(Probe::Get { after_head: true })
                } else {
                    CheckStep::Done(outcome_from_status(s, false))
                }
            },
            Reply::Failed(e) => CheckStep::Done(transport_failure(e, false)),
        },
        Probe::Get { after_head } => match reply {
            Reply::Status(s) => CheckStep::Done(outcome_from_status(s, after_head)),
            Reply::Failed(e) => CheckStep::Done(transport_failure(e, after_head)),
        },
    }
}

/// A status is Up exactly when it lies in 200-399: every 1xx, 4xx and 5xx
/// status is Down.
pub proof fn law_up_is_exactly_200_to_399(status: u16)
    ensures
        status_is_up(status) <==> (200 <= status && status <= 399),
        400 <= status ==> !status_is_up(status),
        status < 200 ==> !status_is_up(status),
{
}

/// After a HEAD, a second request is sent only for a 405 or a 501. Any other
/// status ends the check at once with that status's verdict and reason, and no
/// fallback is reported.
pub proof fn law_head_retried_only_on_405_or_501(status: u16, step: CheckStep)
    requires
        is_next_step(Probe::Head, Reply::Status(status), step),
    ensures
        step is Send <==> (status == 405 || status == 501),
        step is Send ==> step == CheckStep::Send(Probe::Get { after_head: true }),
        !(status == 405 || status == 501) ==> (step matches CheckStep::Done(o) && {
            &&& !o.used_get_fallback
            &&& (o.state == CheckState::Up) <==> (200 <= status && status <= 399)
            &&& (o.state == CheckState::Up) ==> o.reason is None
            &&& (o.state == CheckState::Down) ==> (o.reason matches Some(r) && r@ == "HTTP "@
                + decimal(status as nat))
        }),
{
}

/// A check sends at most two requests: whatever the replies, the step after a
/// second request ends the check, and a second request is only ever a GET that
/// follows a refused HEAD on a site not already known to need GET.
pub proof fn law_at_most_two_requests(
    method_override: Option<Method>,
    first: Reply,
    second: Reply,
    step1: CheckStep,
    step2: CheckStep,
)
    requires
        is_next_step(spec_first_probe(method_override), first, step1),
        step1 matches CheckStep::Send(p) && is_next_step(p, second, step2),
    ensures
        step2 is Done,
        method_override is None,
        first matches Reply::Status(s) && head_refused(s),
        step2 matches CheckStep::Done(o) && o.used_get_fallback,
{
}

/// A check reports that it fell back to GET exactly when its first request was
/// a HEAD that the server refused with 405 or 501.
pub proof fn law_fallback_only_after_refused_head(
    method_override: Option<Method>,
    first: Reply,
    step1: CheckStep,
    second: Reply,
    step2: CheckStep,
)
    requires
        is_next_step(spec_first_probe(method_override), first, step1),
        step1 is Send ==> (step1 matches CheckStep::Send(p) && is_next_step(p, second, step2)),
    ensures
        ({
            let last = if step1 is Send { step2 } else { step1 };
            last matches CheckStep::Done(o) && (o.used_get_fallback <==> (method_override is None
                && (first matches Reply::Status(s) && head_refused(s))))
        }),
{
}

/// The verdict of a finished check is Up exactly when the last reply was a
/// status in 200-399; a transport failure is always Down with a reason.
pub proof fn law_up_iff_last_status_is_up(probe: Probe, reply: Reply, o: CheckOutcome)
    requires
        is_next_step(probe, reply, CheckStep::Done(o)),
    ensures
        (o.state == CheckState::Up) <==> (reply matches Reply::Status(s) && status_is_up(s)),
        (o.state == CheckState::Up) <==> o.reason is None,
{
}

} // verus!
