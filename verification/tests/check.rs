use site_checker::check::{
    classify_status, first_probe, next_step, CheckOutcome, CheckStep, Probe, Reply, TransportError,
};
use site_checker::model::{CheckState, Method};

#[test]
fn classifies_2xx_and_3xx_as_up() {
    assert_eq!(classify_status(200), CheckState::Up);
    assert_eq!(classify_status(204), CheckState::Up);
    assert_eq!(classify_status(301), CheckState::Up);
    assert_eq!(classify_status(399), CheckState::Up);
}

#[test]
fn classifies_everything_else_as_down() {
    assert_eq!(classify_status(400), CheckState::Down);
    assert_eq!(classify_status(404), CheckState::Down);
    assert_eq!(classify_status(429), CheckState::Down);
    assert_eq!(classify_status(500), CheckState::Down);
    assert_eq!(classify_status(503), CheckState::Down);
    assert_eq!(classify_status(199), CheckState::Down);
}

fn no_error() -> TransportError {
    TransportError { timeout: false, connect: false, redirect: false, body: false, decode: false }
}

fn done(step: CheckStep) -> CheckOutcome {
    match step {
        CheckStep::Done(o) => o,
        CheckStep::Send(p) => panic!("expected the check to end, it sends {p:?}"),
    }
}

#[test]
fn a_200_on_head_is_up() {
    let probe = first_probe(None);
    assert_eq!(probe, Probe::Head);
    let outcome = done(next_step(probe, Reply::Status(200)));
    assert_eq!(outcome.state, CheckState::Up);
    assert_eq!(outcome.reason, None);
    assert!(!outcome.used_get_fallback);
}

#[test]
fn a_404_is_down_with_the_status_as_the_reason() {
    let outcome = done(next_step(Probe::Head, Reply::Status(404)));
    assert_eq!(outcome.state, CheckState::Down);
    assert_eq!(outcome.reason.as_deref(), Some("HTTP 404"));
}

#[test]
fn head_405_falls_back_to_get_and_reports_the_fallback() {
    let step = next_step(Probe::Head, Reply::Status(405));
    assert_eq!(step, CheckStep::Send(Probe::Get { after_head: true }));
    let outcome = done(next_step(Probe::Get { after_head: true }, Reply::Status(200)));
    assert_eq!(outcome.state, CheckState::Up);
    assert!(
        outcome.used_get_fallback,
        "the caller needs this to persist method_override = GET"
    );
}

#[test]
fn head_501_also_falls_back_to_get() {
    let step = next_step(Probe::Head, Reply::Status(501));
    assert_eq!(step, CheckStep::Send(Probe::Get { after_head: true }));
    let outcome = done(next_step(Probe::Get { after_head: true }, Reply::Status(200)));
    assert_eq!(outcome.state, CheckState::Up);
    assert!(outcome.used_get_fallback);
}

#[test]
fn a_known_get_only_site_skips_head_entirely() {
    let probe = first_probe(Some(Method::Get));
    assert_eq!(probe, Probe::Get { after_head: false });
    let outcome = done(next_step(probe, Reply::Status(200)));
    assert_eq!(outcome.state, CheckState::Up);
    assert!(!outcome.used_get_fallback, "already persisted; nothing new to write");
}

#[test]
fn a_get_fallback_that_also_fails_is_down() {
    let outcome = done(next_step(Probe::Get { after_head: true }, Reply::Status(500)));
    assert_eq!(outcome.state, CheckState::Down);
    assert_eq!(outcome.reason.as_deref(), Some("HTTP 500"));
}

#[test]
fn a_get_that_answers_405_is_not_retried() {
    let outcome = done(next_step(Probe::Get { after_head: false }, Reply::Status(405)));
    assert_eq!(outcome.state, CheckState::Down);
    assert_eq!(outcome.reason.as_deref(), Some("HTTP 405"));
}

#[test]
fn a_connection_failure_is_down_with_a_short_reason() {
    let outcome = done(next_step(
        Probe::Head,
        Reply::Failed(TransportError { connect: true, ..no_error() }),
    ));
    assert_eq!(outcome.state, CheckState::Down);
    let reason = outcome.reason.expect("a transport failure must explain itself");
    assert_eq!(reason, "Could not connect");
    assert!(reason.len() <= 80);
}

#[test]
fn each_transport_failure_has_its_own_reason() {
    let reason = |e: TransportError| done(next_step(Probe::Head, Reply::Failed(e))).reason.unwrap();
    assert_eq!(reason(TransportError { timeout: true, ..no_error() }), "Timed out after 10s");
    assert_eq!(reason(TransportError { redirect: true, ..no_error() }), "Too many redirects");
    assert_eq!(reason(TransportError { body: true, ..no_error() }), "Bad response");
    assert_eq!(reason(TransportError { decode: true, ..no_error() }), "Bad response");
    assert_eq!(reason(no_error()), "Request failed");
    assert_eq!(
        reason(TransportError { timeout: true, connect: true, ..no_error() }),
        "Timed out after 10s"
    );
}

#[test]
fn a_failed_fallback_get_still_reports_the_fallback() {
    let outcome = done(next_step(
        Probe::Get { after_head: true },
        Reply::Failed(TransportError { timeout: true, ..no_error() }),
    ));
    assert_eq!(outcome.state, CheckState::Down);
    assert!(outcome.used_get_fallback);
}
