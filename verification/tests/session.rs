use pg_starttls::config::{Config, Span};
use pg_starttls::error::{ctx, ordinary_close, Error, ErrorKind};
use pg_starttls::negotiation::Outcome;
use pg_starttls::response::write_fatal;
use pg_starttls::service::{report, Occurrence, Response, Service};
use pg_starttls::session::{Action, Event, Negotiated, Session, Turn};

fn config() -> Config {
    Config::new(
        "gateway:5432".to_string(),
        Span::from_secs(10),
        Span::from_secs(7),
        Span::from_secs(20),
    )
}

/// Runs a session on the given events: what it did, and how it ended if it did.
fn run(negotiated: Negotiated, events: Vec<Event>) -> (Vec<String>, Option<Result<(), Error>>) {
    let mut deeds = vec![];
    let opening = Session::start(&config());
    match opening.action {
        Action::Negotiate { limit } => assert_eq!(limit, Span { secs: 10, nanos: 0 }),
        _ => panic!("no negotiation"),
    }
    let mut turn = opening.session.unwrap().negotiated(negotiated);
    let mut events = events.into_iter();
    loop {
        let Turn { action, session } = turn;
        match action {
            Action::Negotiate { .. } => panic!("negotiated twice"),
            Action::Dial { addr, limit } => deeds.push(format!("dial {addr} {}", limit.secs)),
            Action::Forward { bytes } => deeds.push(format!("forward {bytes:?}")),
            Action::KeepAlive { time, interval } => {
                deeds.push(format!("keepalive {} {}", time.secs, interval.secs))
            }
            Action::Relay => deeds.push("relay".to_string()),
            Action::Reply { bytes } => {
                assert_eq!(bytes, refusal());
                deeds.push("reply".to_string());
            }
            Action::Shutdown => deeds.push("shutdown".to_string()),
            Action::Discard { limit } => deeds.push(format!("discard {}", limit.secs)),
            Action::Finish(end) => {
                assert!(session.is_none());
                assert!(events.next().is_none());
                return (deeds, Some(end));
            }
        }
        turn = match events.next() {
            Some(event) => session.unwrap().resume(event),
            None => return (deeds, None),
        };
    }
}

fn refusal() -> Vec<u8> {
    let mut msg = b"E\0\0\0\x36".to_vec();
    msg.extend_from_slice(b"SFATAL\0VFATAL\0C28000\0MSSL connection is required\0\0");
    msg
}

fn reset() -> Error {
    Error::new(ErrorKind::ConnectionReset, "connection reset")
}

fn refused() -> Error {
    Error::new(ErrorKind::ConnectionRefused, "connection refused")
}

fn error(end: Option<Result<(), Error>>) -> (ErrorKind, String) {
    match end {
        Some(Err(err)) => (err.kind, err.message),
        _ => panic!("no error"),
    }
}

fn splice(header: Option<Vec<u8>>) -> Negotiated {
    Negotiated::Outcome(Outcome::Splice(header))
}

#[test]
fn fatal_response_bytes() {
    assert_eq!(write_fatal("28000", "SSL connection is required"), refusal());
    assert_eq!(write_fatal("", ""), b"E\0\0\0\x17SFATAL\0VFATAL\0C\0M\0\0".to_vec());
    assert_eq!(
        write_fatal("X", "\u{e9}"),
        b"E\0\0\0\x1aSFATAL\0VFATAL\0CX\0M\xc3\xa9\0\0".to_vec()
    );
}

#[test]
fn long_fatal_response_has_its_length() {
    let msg = write_fatal("28000", &"x".repeat(70_000));
    assert_eq!(msg.len(), 1 + 4 + 7 + 7 + 7 + 70_002 + 1);
    assert_eq!(msg[1..5].to_vec(), ((msg.len() - 1) as u32).to_be_bytes().to_vec());
}

#[test]
fn spliced_session_announces_the_client_first() {
    let (deeds, end) = run(
        splice(Some(vec![1, 2, 3])),
        vec![Event::Done, Event::Done, Event::Done, Event::Done],
    );
    assert_eq!(
        deeds,
        vec!["dial gateway:5432 7", "forward [1, 2, 3]", "keepalive 30 30", "relay"]
    );
    assert!(matches!(end, Some(Ok(()))));
}

#[test]
fn spliced_session_without_header() {
    let (deeds, end) = run(splice(None), vec![Event::Done, Event::Done, Event::Done]);
    assert_eq!(deeds, vec!["dial gateway:5432 7", "keepalive 30 30", "relay"]);
    assert!(matches!(end, Some(Ok(()))));
}

#[test]
fn failed_keepalive_is_ignored() {
    let (deeds, end) = run(splice(None), vec![Event::Done, Event::Failed(refused()), Event::Done]);
    assert_eq!(deeds, vec!["dial gateway:5432 7", "keepalive 30 30", "relay"]);
    assert!(matches!(end, Some(Ok(()))));
}

#[test]
fn failed_dial_names_the_upstream() {
    let (deeds, end) = run(splice(Some(vec![1])), vec![Event::Failed(refused())]);
    assert_eq!(deeds, vec!["dial gateway:5432 7"]);
    assert_eq!(
        error(end),
        (ErrorKind::ConnectionRefused, "dialing gateway:5432: connection refused".to_string())
    );
}

#[test]
fn slow_dial_times_out() {
    let (_, end) = run(splice(None), vec![Event::TimedOut]);
    assert_eq!(
        error(end),
        (ErrorKind::TimedOut, "dialing gateway:5432: timed out".to_string())
    );
}

#[test]
fn failed_announcement_ends_the_session() {
    let (deeds, end) = run(splice(Some(vec![9])), vec![Event::Done, Event::Failed(reset())]);
    assert_eq!(deeds, vec!["dial gateway:5432 7", "forward [9]"]);
    assert_eq!(
        error(end),
        (
            ErrorKind::ConnectionReset,
            "replaying proxy protocol header: connection reset".to_string()
        )
    );
}

#[test]
fn failed_relay_is_passed_on() {
    let (_, end) = run(splice(None), vec![Event::Done, Event::Done, Event::Failed(reset())]);
    assert_eq!(error(end), (ErrorKind::ConnectionReset, "connection reset".to_string()));
}

#[test]
fn routing_loop_is_hung_up_on() {
    let (deeds, end) = run(
        Negotiated::Outcome(Outcome::RoutingLoop),
        vec![Event::Failed(reset()), Event::TimedOut],
    );
    assert_eq!(deeds, vec!["shutdown", "discard 2"]);
    assert_eq!(
        error(end),
        (
            ErrorKind::Other,
            "direct TLS with unroutable SNI: refusing to avoid a routing loop".to_string()
        )
    );
}

#[test]
fn plaintext_client_is_told_why() {
    let (deeds, end) = run(
        Negotiated::Outcome(Outcome::PlaintextStartup),
        vec![Event::Done, Event::Done, Event::Done],
    );
    assert_eq!(deeds, vec!["reply", "shutdown", "discard 2"]);
    assert_eq!(
        error(end),
        (ErrorKind::Other, "plaintext startup packet rejected: SSL is required".to_string())
    );
}

#[test]
fn plaintext_client_that_left_is_hung_up_on_too() {
    let (deeds, end) = run(
        Negotiated::Outcome(Outcome::PlaintextStartup),
        vec![Event::Failed(reset()), Event::Done, Event::Done],
    );
    assert_eq!(deeds, vec!["reply", "shutdown", "discard 2"]);
    assert_eq!(
        error(end),
        (ErrorKind::ConnectionReset, "writing error response: connection reset".to_string())
    );
}

#[test]
fn failed_negotiation_ends_the_session() {
    let (deeds, end) = run(Negotiated::Failed(reset()), vec![]);
    assert!(deeds.is_empty());
    assert_eq!(error(end), (ErrorKind::ConnectionReset, "connection reset".to_string()));
}

#[test]
fn slow_negotiation_ends_the_session() {
    let (deeds, end) = run(Negotiated::TimedOut, vec![]);
    assert!(deeds.is_empty());
    assert_eq!(error(end), (ErrorKind::TimedOut, "negotiation timed out".to_string()));
}

#[test]
fn ordinary_closes() {
    for kind in [
        ErrorKind::UnexpectedEof,
        ErrorKind::ConnectionReset,
        ErrorKind::ConnectionAborted,
        ErrorKind::BrokenPipe,
        ErrorKind::NotConnected,
    ] {
        assert!(ordinary_close(&Error::new(kind, "x")));
        assert!(ordinary_close(&ctx("y", Error::new(kind, "x"))));
    }
    for kind in [
        ErrorKind::TimedOut,
        ErrorKind::Other,
        ErrorKind::ConnectionRefused,
        ErrorKind::Uncategorized,
        ErrorKind::InvalidData,
    ] {
        assert!(!ordinary_close(&Error::new(kind, "x")));
        assert!(!ordinary_close(&ctx("y", Error::new(kind, "x"))));
    }
}

#[test]
fn context_goes_in_front() {
    let err = ctx("outer", ctx("inner", Error::other("cause")));
    assert_eq!(err.message, "outer: inner: cause");
    assert_eq!(err.kind, ErrorKind::Other);
}

#[test]
fn only_real_failures_are_reported() {
    assert_eq!(report("10.0.0.1:99", &Ok(())), None);
    assert_eq!(report("10.0.0.1:99", &Err(reset())), None);
    assert_eq!(
        report("10.0.0.1:99", &Err(refused())),
        Some("10.0.0.1:99: connection refused".to_string())
    );
}

#[test]
fn service_drains_on_a_signal() {
    let cfg = config();
    let mut service = Service::Accepting;
    assert!(matches!(service.answer(Occurrence::Accepted, &cfg), Response::Serve));
    match service.answer(Occurrence::AcceptFailed(refused()), &cfg) {
        Response::Complain(line) => assert_eq!(line, "accept: connection refused"),
        _ => panic!("no complaint"),
    }
    assert_eq!(service, Service::Accepting);
    match service.answer(Occurrence::Signal, &cfg) {
        Response::Drain { limit } => assert_eq!(limit, Span { secs: 20, nanos: 0 }),
        _ => panic!("no drain"),
    }
    assert_eq!(service, Service::Draining);
    assert!(matches!(
        service.answer(Occurrence::Drained, &cfg),
        Response::Exit { all_closed: true }
    ));
    assert_eq!(service, Service::Stopped);
    let mut service = Service::Draining;
    assert!(matches!(
        service.answer(Occurrence::DrainExpired, &cfg),
        Response::Exit { all_closed: false }
    ));
}
