//! What becomes of a connection: its negotiation, and what follows from it.

use crate::config::{Config, Span};
use crate::error::{ctx, Error, ErrorKind, Fault};
use crate::negotiation::{Decision, Outcome};
use crate::response::write_fatal;
use crate::text::join3;
use vstd::pervasive::unreached;
use vstd::prelude::*;
use vstd::string::*;

verus! {

/// How a negotiation ended.
pub enum Negotiated {
    /// The client's wish is known.
    Outcome(Outcome),
    /// The negotiation failed.
    Failed(Error),
    /// The handshake budget ran out first.
    TimedOut,
}

/// The mathematical content of a [`Negotiated`].
pub enum Verdict {
    Decided(Decision),
    Failed(Fault),
    TimedOut,
}

impl View for Negotiated {
    type V = Verdict;

    open spec fn view(&self) -> Verdict {
        match *self {
            Negotiated::Outcome(outcome) => Verdict::Decided(outcome@),
            Negotiated::Failed(err) => Verdict::Failed(err@),
            Negotiated::TimedOut => Verdict::TimedOut,
        }
    }
}

/// What to do for a session. The negotiation is answered with how it ended, each other
/// action but the end with an [`Event`].
pub enum Action {
    /// Negotiate with the client within `limit`: one budget for all that is read and
    /// replied, the way a socket read deadline works, so a client that dribbles bytes
    /// cannot hold the connection open indefinitely. Turning a client away gets its own
    /// budget, because a client that spent this one still deserves to hear why.
    Negotiate { limit: Span },
    /// Connect to `addr` within `limit`.
    Dial { addr: String, limit: Span },
    /// Send `bytes` upstream.
    Forward { bytes: Vec<u8> },
    /// Probe both connections when they have been idle for `time`, and then at every
    /// `interval`.
    KeepAlive { time: Span, interval: Span },
    /// Copy both directions until both have ended. Each direction ends on its own: an
    /// EOF on one is passed along as a FIN on the other and the remaining direction
    /// keeps going, so a client that half-closes still receives the server's last
    /// bytes.
    Relay,
    /// Send `bytes` to the client.
    Reply { bytes: Vec<u8> },
    /// Send the client a FIN.
    Shutdown,
    /// Read what the client still sends, and drop it, until it ends or for `limit`.
    Discard { limit: Span },
    /// End the session.
    Finish(Result<(), Error>),
}

/// The mathematical content of an [`Action`].
pub enum Deed {
    Negotiate(Span),
    Dial(Seq<char>, Span),
    Forward(Seq<u8>),
    KeepAlive(Span, Span),
    Relay,
    Reply(Seq<u8>),
    Shutdown,
    Discard(Span),
    Finish(Option<Fault>),
}

impl View for Action {
    type V = Deed;

    open spec fn view(&self) -> Deed {
        match *self {
            Action::Negotiate { limit } => Deed::Negotiate(limit),
            Action::Dial { addr, limit } => Deed::Dial(addr@, limit),
            Action::Forward { bytes } => Deed::Forward(bytes@),
            Action::KeepAlive { time, interval } => Deed::KeepAlive(time, interval),
            Action::Relay => Deed::Relay,
            Action::Reply { bytes } => Deed::Reply(bytes@),
            Action::Shutdown => Deed::Shutdown,
            Action::Discard { limit } => Deed::Discard(limit),
            Action::Finish(Ok(_)) => Deed::Finish(None),
            Action::Finish(Err(err)) => Deed::Finish(Some(err@)),
        }
    }
}

/// How an action went.
pub enum Event {
    Done,
    Failed(Error),
    /// The limit of a [`Action::Dial`] or [`Action::Discard`] ran out.
    TimedOut,
}

/// The mathematical content of an [`Event`].
pub enum Report {
    Done,
    Failed(Fault),
    TimedOut,
}

impl View for Event {
    type V = Report;

    open spec fn view(&self) -> Report {
        match *self {
            Event::Done => Report::Done,
            Event::Failed(err) => Report::Failed(err@),
            Event::TimedOut => Report::TimedOut,
        }
    }
}

/// How long a client that is turned away may go on sending.
pub const LINGER_SECS: u64 = 2;

/// The settings that a session goes by.
pub struct Terms {
    pub handshake_timeout: Span,
    pub upstream_addr: Seq<char>,
    pub dial_timeout: Span,
    pub keepalive_period: Span,
}

/// The settings of a session under `cfg`.
pub open spec fn terms(cfg: Config) -> Terms {
    Terms {
        handshake_timeout: cfg.handshake_timeout,
        upstream_addr: cfg.upstream_addr@,
        dial_timeout: cfg.dial_timeout,
        keepalive_period: cfg.keepalive_period,
    }
}

/// The failure of a client whose negotiation took too long.
pub open spec fn negotiation_timed_out() -> Fault {
    Fault { kind: ErrorKind::TimedOut, message: "negotiation timed out"@ }
}

/// The failure of a client that came back to where it was sent from.
pub open spec fn routing_loop() -> Fault {
    Fault {
        kind: ErrorKind::Other,
        message: "direct TLS with unroutable SNI: refusing to avoid a routing loop"@,
    }
}

/// The failure of a client that does without encryption.
pub open spec fn ssl_required() -> Fault {
    Fault {
        kind: ErrorKind::Other,
        message: "plaintext startup packet rejected: SSL is required"@,
    }
}

/// The failure of an upstream that does not answer.
pub open spec fn dial_timed_out(addr: Seq<char>) -> Fault {
    Fault { kind: ErrorKind::TimedOut, message: "dialing "@ + addr + ": timed out"@ }
}

/// What a client that does without encryption is told.
pub open spec fn refusal() -> Seq<u8> {
    crate::response::fatal_response("28000"@, "SSL connection is required"@)
}

/// What follows on `history` once both sides are there and nothing of the payload has
/// been sent.
pub open spec fn relaying(on: Terms, history: Seq<Report>) -> Deed {
    if history.len() == 0 {
        Deed::KeepAlive(on.keepalive_period, on.keepalive_period)
    } else if history.len() == 1 {
        Deed::Relay
    } else {
        match history[1] {
            Report::Failed(fault) => Deed::Finish(Some(fault)),
            _ => Deed::Finish(None),
        }
    }
}

/// What follows on `history` for a client whose TLS stream is handed back to the
/// gateway.
pub open spec fn splicing(on: Terms, header: Option<Seq<u8>>, history: Seq<Report>) -> Deed {
    if history.len() == 0 {
        Deed::Dial(on.upstream_addr, on.dial_timeout)
    } else {
        match history[0] {
            Report::Failed(fault) => Deed::Finish(
                Some(crate::error::described("dialing "@ + on.upstream_addr, fault)),
            ),
            Report::TimedOut => Deed::Finish(Some(dial_timed_out(on.upstream_addr))),
            Report::Done => match header {
                None => relaying(on, history.skip(1)),
                Some(bytes) => if history.len() == 1 {
                    Deed::Forward(bytes)
                } else {
                    match history[1] {
                        Report::Failed(fault) => Deed::Finish(
                            Some(
                                crate::error::described("replaying proxy protocol header"@, fault),
                            ),
                        ),
                        _ => relaying(on, history.skip(2)),
                    }
                },
            },
        }
    }
}

/// What follows on `history` for a client that is turned away with `fault`.
pub open spec fn hanging_up(fault: Fault, history: Seq<Report>) -> Deed {
    if history.len() == 0 {
        Deed::Shutdown
    } else if history.len() == 1 {
        Deed::Discard(Span { secs: LINGER_SECS, nanos: 0 })
    } else {
        Deed::Finish(Some(fault))
    }
}

/// What follows on `history` for a client that does without encryption.
pub open spec fn refusing(history: Seq<Report>) -> Deed {
    if history.len() == 0 {
        Deed::Reply(refusal())
    } else {
        hanging_up(
            match history[0] {
                Report::Failed(fault) => crate::error::described(
                    "writing error response"@,
                    fault,
                ),
                _ => ssl_required(),
            },
            history.skip(1),
        )
    }
}

/// A session so far: its settings, how its negotiation ended if it has, and how its
/// actions went since.
pub struct Course {
    pub on: Terms,
    pub verdict: Option<Verdict>,
    pub history: Seq<Report>,
}

/// What a session does next.
pub open spec fn next_deed(course: Course) -> Deed {
    match course.verdict {
        None => Deed::Negotiate(course.on.handshake_timeout),
        Some(Verdict::Failed(fault)) => Deed::Finish(Some(fault)),
        Some(Verdict::TimedOut) => Deed::Finish(Some(negotiation_timed_out())),
        Some(Verdict::Decided(Decision::Splice(header))) => splicing(
            course.on,
            header,
            course.history,
        ),
        Some(Verdict::Decided(Decision::RoutingLoop)) => hanging_up(
            routing_loop(),
            course.history,
        ),
        Some(Verdict::Decided(Decision::PlaintextStartup)) => refusing(course.history),
    }
}

/// Whether an action can be reported so: only those with a limit can run out of time.
/// The negotiation is answered otherwise, and the end not at all.
pub open spec fn can_end(deed: Deed, report: Report) -> bool {
    match deed {
        Deed::Negotiate(_) | Deed::Finish(_) => false,
        Deed::Dial(..) | Deed::Discard(_) => true,
        _ => report !is TimedOut,
    }
}

/// The course after one more action.
pub open spec fn after(course: Course, report: Report) -> Course {
    Course { history: course.history.push(report), ..course }
}

/// The course when the negotiation has ended.
pub open spec fn decided(course: Course, verdict: Verdict) -> Course {
    Course { verdict: Some(verdict), ..course }
}

/// The course when `n` actions had been done.
pub open spec fn at(course: Course, n: int) -> Course {
    Course { history: course.history.take(n), ..course }
}

/// Whether a course is one that a session can take: each report is of the action that
/// was due, and none comes after the end.
pub open spec fn possible(course: Course) -> bool {
    forall|i: int|
        0 <= i < course.history.len() ==> can_end(
            next_deed(#[trigger] at(course, i)),
            course.history[i],
        )
}

enum Stage {
    Negotiating,
    Dialing(Option<Vec<u8>>),
    Forwarding,
    KeepingAlive,
    Relaying,
    Replying,
    Closing(Error),
    Discarding(Error),
}

/// A session under way.
pub struct Session {
    stage: Stage,
    upstream_addr: String,
    dial_timeout: Span,
    keepalive_period: Span,
    course: Ghost<Course>,
}

/// What to do next, and the session that awaits how it went, if it goes on.
pub struct Turn {
    pub action: Action,
    pub session: Option<Session>,
}

impl View for Session {
    type V = Course;

    closed spec fn view(&self) -> Course {
        self.course@
    }
}

/// Whether `turn` is what follows on `course`.
pub open spec fn is_turn(turn: Turn, course: Course) -> bool {
    &&& turn.action@ == next_deed(course)
    &&& turn.session is None <==> next_deed(course) is Finish
    &&& turn.session matches Some(session) ==> session@ == course
}

impl Session {
    #[verifier::type_invariant]
    spec fn consistent(self) -> bool {
        let course = self.course@;
        &&& possible(course)
        &&& course.on.upstream_addr == self.upstream_addr@
        &&& course.on.dial_timeout == self.dial_timeout
        &&& course.on.keepalive_period == self.keepalive_period
        &&& match self.stage {
            Stage::Negotiating => {
                &&& course.verdict is None
                &&& course.history.len() == 0
            },
            Stage::Dialing(header) => {
                &&& course.history.len() == 0
                &&& course.verdict == Some(
                    Verdict::Decided(Decision::Splice(crate::opening::header_bytes(header))),
                )
            },
            Stage::Forwarding => {
                &&& course.verdict matches Some(Verdict::Decided(Decision::Splice(Some(_))))
                &&& course.history.len() == 1
                &&& course.history[0] is Done
            },
            Stage::KeepingAlive => {
                &&& course.verdict matches Some(Verdict::Decided(Decision::Splice(_)))
                &&& next_deed(course) == Deed::KeepAlive(
                    self.keepalive_period,
                    self.keepalive_period,
                )
            },
            Stage::Relaying => {
                &&& course.verdict matches Some(Verdict::Decided(Decision::Splice(_)))
                &&& next_deed(course) == Deed::Relay
            },
            Stage::Replying => {
                &&& course.verdict == Some(Verdict::Decided(Decision::PlaintextStartup))
                &&& course.history.len() == 0
            },
            Stage::Closing(err) => {
                &&& next_deed(course) == Deed::Shutdown
                &&& forall|x: Report, y: Report|
                    next_deed(#[trigger] after(#[trigger] after(course, x), y)) == Deed::Finish(
                        Some(err@),
                    )
            },
            Stage::Discarding(err) => {
                &&& next_deed(course) == Deed::Discard(Span { secs: LINGER_SECS, nanos: 0 })
                &&& forall|x: Report|
                    next_deed(#[trigger] after(course, x)) == Deed::Finish(Some(err@))
            },
        }
    }

    /// Starts a session with its negotiation.
    pub fn start(cfg: &Config) -> (r: Turn)
        ensures
            is_turn(r, Course { on: terms(*cfg), verdict: None, history: Seq::empty() }),
    {
        let ghost course = Course { on: terms(*cfg), verdict: None, history: Seq::empty() };
        Turn {
            action: Action::Negotiate { limit: cfg.handshake_timeout },
            session: Some(
                Session {
                    stage: Stage::Negotiating,
                    upstream_addr: cfg.upstream_addr.clone(),
                    dial_timeout: cfg.dial_timeout,
                    keepalive_period: cfg.keepalive_period,
                    course: Ghost(course),
                },
            ),
        }
    }

    /// Takes how the negotiation ended.
    pub fn negotiated(self, negotiated: Negotiated) -> (r: Turn)
        requires
            next_deed(self@) is Negotiate,
        ensures
            is_turn(r, decided(self@, negotiated@)),
            possible(decided(self@, negotiated@)),
    {
        proof {
            use_type_invariant(&self);
            negotiation_comes_first(self@);
        }
        let ghost course = decided(self@, negotiated@);
        let upstream_addr = self.upstream_addr;
        let dial_timeout = self.dial_timeout;
        let keepalive_period = self.keepalive_period;
        match negotiated {
            Negotiated::Failed(err) => Turn { action: Action::Finish(Err(err)), session: None },
            Negotiated::TimedOut => Turn {
                action: Action::Finish(
                    Err(Error::new(ErrorKind::TimedOut, "negotiation timed out")),
                ),
                session: None,
            },
            Negotiated::Outcome(Outcome::Splice(header)) => Turn {
                action: Action::Dial { addr: upstream_addr.clone(), limit: dial_timeout },
                session: Some(
                    Session {
                        stage: Stage::Dialing(header),
                        upstream_addr,
                        dial_timeout,
                        keepalive_period,
                        course: Ghost(course),
                    },
                ),
            },
            Negotiated::Outcome(Outcome::RoutingLoop) => Turn {
                action: Action::Shutdown,
                session: Some(
                    Session {
                        stage: Stage::Closing(
                            Error::other(
                                "direct TLS with unroutable SNI: refusing to avoid a routing loop",
                            ),
                        ),
                        upstream_addr,
                        dial_timeout,
                        keepalive_period,
                        course: Ghost(course),
                    },
                ),
            },
            // Say why in the wire protocol, so the client prints a real error.
            Negotiated::Outcome(Outcome::PlaintextStartup) => Turn {
                action: Action::Reply {
                    bytes: write_fatal("28000", "SSL connection is required"),
                },
                session: Some(
                    Session {
                        stage: Stage::Replying,
                        upstream_addr,
                        dial_timeout,
                        keepalive_period,
                        course: Ghost(course),
                    },
                ),
            },
        }
    }

    /// Takes how the action went.
    pub fn resume(self, event: Event) -> (r: Turn)
        requires
            can_end(next_deed(self@), event@),
        ensures
            is_turn(r, after(self@, event@)),
            possible(after(self@, event@)),
    {
        proof {
            use_type_invariant(&self);
        }
        let ghost before = self@;
        let ghost course = after(before, event@);
        proof {
            course_goes_on(before, event@);
        }
        let upstream_addr = self.upstream_addr;
        let dial_timeout = self.dial_timeout;
        let keepalive_period = self.keepalive_period;
        match self.stage {
            Stage::Negotiating => unreached(),
            Stage::Dialing(header) => match event {
                Event::Done => match header {
                    // Re-announce the original client before any payload, so the gateway
                    // attributes this connection to them rather than to this pod.
                    Some(bytes) => Turn {
                        action: Action::Forward { bytes },
                        session: Some(
                            Session {
                                stage: Stage::Forwarding,
                                upstream_addr,
                                dial_timeout,
                                keepalive_period,
                                course: Ghost(course),
                            },
                        ),
                    },
                    None => Turn {
                        action: Action::KeepAlive {
                            time: keepalive_period,
                            interval: keepalive_period,
                        },
                        session: Some(
                            Session {
                                stage: Stage::KeepingAlive,
                                upstream_addr,
                                dial_timeout,
                                keepalive_period,
                                course: Ghost(course),
                            },
                        ),
                    },
                },
                Event::Failed(err) => {
                    let mut what = String::from_str("dialing ");
                    what.append(upstream_addr.as_str());
                    Turn { action: Action::Finish(Err(ctx(what.as_str(), err))), session: None }
                },
                Event::TimedOut => Turn {
                    action: Action::Finish(
                        Err(
                            Error {
                                kind: ErrorKind::TimedOut,
                                message: join3("dialing ", upstream_addr.as_str(), ": timed out"),
                            },
                        ),
                    ),
                    session: None,
                },
            },
            Stage::Forwarding => match event {
                Event::Failed(err) => Turn {
                    action: Action::Finish(Err(ctx("replaying proxy protocol header", err))),
                    session: None,
                },
                _ => Turn {
                    action: Action::KeepAlive { time: keepalive_period, interval: keepalive_period },
                    session: Some(
                        Session {
                            stage: Stage::KeepingAlive,
                            upstream_addr,
                            dial_timeout,
                            keepalive_period,
                            course: Ghost(course),
                        },
                    ),
                },
            },
            // Idle Postgres sessions are legitimately long-lived, so lean on keepalives
            // rather than a timeout to reap connections whose peer disappeared. A
            // connection that cannot be probed is used all the same.
            Stage::KeepingAlive => Turn {
                action: Action::Relay,
                session: Some(
                    Session {
                        stage: Stage::Relaying,
                        upstream_addr,
                        dial_timeout,
                        keepalive_period,
                        course: Ghost(course),
                    },
                ),
            },
            Stage::Relaying => match event {
                Event::Failed(err) => Turn { action: Action::Finish(Err(err)), session: None },
                _ => Turn { action: Action::Finish(Ok(())), session: None },
            },
            Stage::Replying => {
                let err = match event {
                    Event::Failed(err) => ctx("writing error response", err),
                    _ => Error::other("plaintext startup packet rejected: SSL is required"),
                };
                Turn {
                    action: Action::Shutdown,
                    session: Some(
                        Session {
                            stage: Stage::Closing(err),
                            upstream_addr,
                            dial_timeout,
                            keepalive_period,
                            course: Ghost(course),
                        },
                    ),
                }
            },
            Stage::Closing(err) => Turn {
                action: Action::Discard { limit: Span::from_secs(LINGER_SECS) },
                session: Some(
                    Session {
                        stage: Stage::Discarding(err),
                        upstream_addr,
                        dial_timeout,
                        keepalive_period,
                        course: Ghost(course),
                    },
                ),
            },
            Stage::Discarding(err) => Turn { action: Action::Finish(Err(err)), session: None },
        }
    }
}

/// Nothing is done before the negotiation.
proof fn negotiation_comes_first(course: Course)
    requires
        possible(course),
        course.verdict is None,
    ensures
        course.history.len() == 0,
{
    if course.history.len() > 0 {
        assert(can_end(next_deed(at(course, 0)), course.history[0]));
    }
}

/// A session negotiates once, before anything else, and within the handshake budget: it
/// does so until the negotiation has ended and never after, so the budget is one for
/// the whole negotiation and is not renewed.
pub proof fn negotiation_has_one_budget(course: Course)
    requires
        possible(course),
    ensures
        course.verdict is None ==> course.history.len() == 0 && next_deed(course)
            == Deed::Negotiate(course.on.handshake_timeout),
        course.verdict is Some ==> next_deed(course) !is Negotiate,
{
    if course.verdict is None {
        negotiation_comes_first(course);
    }
}

/// A client that has not finished negotiating when the budget runs out is dropped: the
/// session ends there and then, with a failure that says so, and does nothing else.
pub proof fn slow_negotiation_is_dropped(course: Course)
    requires
        possible(course),
        course.verdict == Some(Verdict::TimedOut),
    ensures
        course.history.len() == 0,
        next_deed(course) == Deed::Finish(Some(negotiation_timed_out())),
{
    if course.history.len() > 0 {
        assert(can_end(next_deed(at(course, 0)), course.history[0]));
    }
}

/// A course to which the report of the action due is added remains possible.
pub proof fn course_goes_on(course: Course, report: Report)
    requires
        possible(course),
        can_end(next_deed(course), report),
    ensures
        possible(after(course, report)),
{
    let longer = after(course, report);
    assert forall|i: int| 0 <= i < longer.history.len() implies can_end(
        next_deed(#[trigger] at(longer, i)),
        longer.history[i],
    ) by {
        if i < course.history.len() {
            assert(longer.history.take(i) =~= course.history.take(i));
            assert(at(longer, i) == at(course, i));
        } else {
            assert(longer.history.take(i) =~= course.history);
            assert(at(longer, i) == course);
        }
    }
}

/// A client that does without encryption is told why before anything else happens: it
/// is sent an error response that delimits itself and reads as a FATAL error, SQLSTATE
/// 28000, "SSL connection is required".
pub proof fn refusal_says_why(on: Terms)
    ensures
        next_deed(
            Course {
                on,
                verdict: Some(Verdict::Decided(Decision::PlaintextStartup)),
                history: Seq::empty(),
            },
        ) == Deed::Reply(refusal()),
        refusal()[0] == 'E' as u8,
        crate::packet::be_u32_value(refusal().skip(1)) + 1 == refusal().len(),
        crate::response::fields_of(refusal().skip(5)) == Some(
            seq![
                ('S' as u8, vstd::utf8::encode_utf8("FATAL"@)),
                ('V' as u8, vstd::utf8::encode_utf8("FATAL"@)),
                ('C' as u8, vstd::utf8::encode_utf8("28000"@)),
                ('M' as u8, vstd::utf8::encode_utf8("SSL connection is required"@)),
            ],
        ),
{
    reveal_strlit("28000");
    reveal_strlit("SSL connection is required");
    reveal_strlit("FATAL");
    crate::response::fatal_fields_read_back("28000"@, "SSL connection is required"@);
    vstd::utf8::is_ascii_chars_encode_utf8("28000"@);
    vstd::utf8::is_ascii_chars_encode_utf8("SSL connection is required"@);
    vstd::utf8::is_ascii_chars_encode_utf8("FATAL"@);
    crate::response::fatal_response_delimits_itself("28000"@, "SSL connection is required"@);
}

/// Nobody is turned away without being hung up on: whatever fails on the way, the end
/// comes after the FIN and after what the client still sent has been drained, and it
/// is a failure.
pub proof fn rejections_hang_up(course: Course)
    requires
        possible(course),
        course.verdict == Some(Verdict::Decided(Decision::RoutingLoop)) || course.verdict == Some(
            Verdict::Decided(Decision::PlaintextStartup),
        ),
        next_deed(course) is Finish,
    ensures
        next_deed(course)->Finish_0 is Some,
        course.history.len() >= 2,
        next_deed(at(course, course.history.len() - 2)) == Deed::Shutdown,
        next_deed(at(course, course.history.len() - 1)) == Deed::Discard(
            Span { secs: LINGER_SECS, nanos: 0 },
        ),
{
    let n = course.history.len() as int;
    assert(n > 0 ==> can_end(next_deed(at(course, n - 1)), course.history[n - 1]));
    assert(n > 1 ==> can_end(next_deed(at(course, n - 2)), course.history[n - 2]));
}

/// Only a client whose SSLRequest was accepted reaches the upstream: for any other
/// the upstream is neither dialed nor sent anything, so a ClientHello that came back
/// is not sent round again.
pub proof fn only_splices_reach_the_upstream(course: Course)
    requires
        next_deed(course) is Dial || next_deed(course) is Forward || next_deed(course) is Relay,
    ensures
        course.verdict matches Some(Verdict::Decided(Decision::Splice(_))),
{
}

/// The client is announced before any payload: when the streams are joined, the
/// upstream has been reached, and if the gateway sent a header, that header has been
/// sent upstream first, byte for byte.
pub proof fn header_comes_before_payload(course: Course, header: Option<Seq<u8>>)
    requires
        possible(course),
        course.verdict == Some(Verdict::Decided(Decision::Splice(header))),
        next_deed(course) == Deed::Relay,
    ensures
        course.history.len() >= 2,
        next_deed(at(course, 0)) == Deed::Dial(course.on.upstream_addr, course.on.dial_timeout),
        course.history[0] == Report::Done,
        header matches Some(bytes) ==> {
            &&& next_deed(at(course, 1)) == Deed::Forward(bytes)
            &&& course.history[1] == Report::Done
        },
{
    assert(at(course, 0).history.len() == 0);
    assert(can_end(next_deed(at(course, 1)), course.history[1]));
    if header is Some {
        assert(at(course, 1).history.len() == 1);
        assert(at(course, 1).history[0] == course.history[0]);
    }
}

/// The gateway gets back the header that it sent: when the streams are joined after the
/// negotiation `t`, a header that `t` starts with has been sent upstream byte for byte,
/// and if `t` starts with none, nothing has been sent upstream.
pub proof fn gateway_header_is_replayed(
    t: crate::negotiation::Transcript,
    course: Course,
)
    requires
        crate::negotiation::next(t) is Done,
        course.verdict == Some(Verdict::Decided(crate::negotiation::next(t)->Done_0)),
        possible(course),
        next_deed(course) == Deed::Relay,
    ensures
        crate::opening::starts_header(t.received) ==> course.history.len() >= 2 && next_deed(
            at(course, 1),
        ) == Deed::Forward(t.received.take(crate::opening::header_len(t.received)))
            && course.history[1] == Report::Done,
        !crate::opening::starts_header(t.received) ==> forall|i: int|
            0 <= i < course.history.len() ==> next_deed(#[trigger] at(course, i)) !is Forward,
{
    let header = crate::opening::progress(t.received)->Complete_0;
    header_comes_before_payload(course, header);
    if !crate::opening::starts_header(t.received) {
        assert forall|i: int| 0 <= i < course.history.len() implies next_deed(
            #[trigger] at(course, i),
        ) !is Forward by {
            if i > 0 {
                assert(at(course, i).history[0] == course.history[0]);
            }
        }
    }
}

/// There is no routing loop: a client whose first packet is a TLS record, behind a
/// header or none, is answered with nothing, and the session that follows never
/// reaches for the upstream.
pub proof fn client_hello_is_not_sent_round(
    header: Option<Seq<u8>>,
    packet: Seq<u8>,
    rest: Seq<u8>,
    course: Course,
)
    requires
        header matches Some(h) ==> crate::opening::is_proxy_header(h),
        packet.len() == crate::packet::PACKET_LEN,
        packet[0] == crate::packet::TLS_HANDSHAKE,
        ({
            let client = crate::opening::header_or_empty(header) + packet + rest;
            let start = crate::negotiation::Transcript {
                received: Seq::empty(),
                sent: Seq::empty(),
            };
            let end = crate::negotiation::converse(client, start).1;
            end is Done ==> course.verdict == Some(Verdict::Decided(end->Done_0))
        }),
    ensures
        ({
            let negotiated = crate::opening::header_or_empty(header) + packet;
            let start = crate::negotiation::Transcript {
                received: Seq::empty(),
                sent: Seq::empty(),
            };
            crate::negotiation::converse(negotiated + rest, start) == (
                crate::negotiation::Transcript { received: negotiated, sent: Seq::empty() },
                crate::negotiation::Next::Done(Decision::RoutingLoop),
            )
        }),
        next_deed(course) !is Dial,
        next_deed(course) !is Forward,
        next_deed(course) !is Relay,
{
    let base = crate::opening::header_or_empty(header);
    crate::packet::tls_record_is_client_hello(packet);
    crate::opening::four_bytes_decide(packet);
    crate::negotiation::negotiation_ends_as_asked(header, 0, packet, rest);
    assert(base + crate::negotiation::repeated(crate::packet::gss_enc_request(), 0) =~= base);
    assert(crate::negotiation::declines(0) =~= Seq::<u8>::empty());
}

/// A session ends well only when the streams were joined and ended by themselves.
pub proof fn success_means_relayed(course: Course)
    requires
        possible(course),
        next_deed(course) == Deed::Finish(None),
    ensures
        course.history.len() > 0,
        next_deed(at(course, course.history.len() - 1)) == Deed::Relay,
        course.history.last() == Report::Done,
{
    let n = course.history.len() as int;
    let header = course.verdict->0->Decided_0->Splice_0;
    let skipped: int = if header is Some {
        2
    } else {
        1
    };
    assert(course.history.skip(skipped)[1] == course.history[skipped + 1]);
    assert(n > 0);
    let last = at(course, n - 1);
    assert(can_end(next_deed(last), course.history[n - 1]));
    assert(last.history[0] == course.history[0]);
    if n - 1 > skipped {
        if header is Some {
            assert(last.history[1] == course.history[1]);
        }
        if n - 1 >= skipped + 2 {
            assert(last.history.skip(skipped)[1] == course.history[skipped + 1]);
        }
    }
}

/// No session does more than four things between its negotiation and its end.
pub proof fn sessions_end(course: Course)
    requires
        possible(course),
        next_deed(course) !is Finish,
    ensures
        course.history.len() < 4,
{
    if course.verdict is None {
        negotiation_comes_first(course);
    }
}

/// A disconnect stays recognisable however far the session had come: a failure to
/// dial, to announce the client, to relay or to send the refusal ends the session with
/// a failure of the same category.
pub proof fn failures_keep_their_kind(course: Course, i: int, fault: Fault)
    requires
        possible(course),
        0 <= i < course.history.len(),
        course.history[i] == Report::Failed(fault),
        next_deed(at(course, i)) is Dial || next_deed(at(course, i)) is Forward || next_deed(
            at(course, i),
        ) is Relay || next_deed(at(course, i)) is Reply,
        next_deed(course) is Finish,
    ensures
        next_deed(course)->Finish_0 is Some,
        next_deed(course)->Finish_0->0.kind == fault.kind,
{
    let early = at(course, i);
    assert(i > 0 ==> early.history[0] == course.history[0]);
    assert(i > 1 ==> early.history[1] == course.history[1]);
    if course.verdict->0 is Decided && course.verdict->0->Decided_0 is Splice {
        let header = course.verdict->0->Decided_0->Splice_0;
        let skipped: int = if header is Some {
            2
        } else {
            1
        };
        if i >= skipped {
            assert(early.history.skip(skipped).len() == i - skipped);
            assert(course.history.skip(skipped)[1] == course.history[skipped + 1]);
        }
    }
}

/// A client that is turned away is always worth a log line, unless the refusal could
/// not be sent to it; and so is whatever takes too long, the negotiation or the dial.
pub proof fn rejections_are_logged(course: Course)
    requires
        possible(course),
        next_deed(course) is Finish,
        match course.verdict {
            Some(Verdict::Decided(Decision::RoutingLoop)) => true,
            Some(Verdict::Decided(Decision::PlaintextStartup)) => course.history[0]
                == Report::Done,
            Some(Verdict::Decided(Decision::Splice(_))) => course.history[0] == Report::TimedOut,
            Some(Verdict::Failed(_)) => false,
            Some(Verdict::TimedOut) => true,
            None => false,
        },
    ensures
        next_deed(course)->Finish_0 is Some,
        !crate::error::is_ordinary_close(next_deed(course)->Finish_0->0.kind),
{
}

/// A session begins with a negotiation that may take as long as the settings say, to the
/// nanosecond, and it can be told however that ends.
pub proof fn negotiation_gets_the_configured_time(cfg: Config, begun: Turn, ended: Negotiated)
    requires
        call_ensures(Session::start, (&cfg,), begun),
    ensures
        begun.action == (Action::Negotiate { limit: cfg.handshake_timeout }),
        begun.session matches Some(session) && call_requires(Session::negotiated, (session, ended)),
{
}

/// What a session goes by is what the settings hold.
pub proof fn terms_are_those_of_the_settings(cfg: Config)
    ensures
        terms(cfg).handshake_timeout == cfg.handshake_timeout,
        terms(cfg).upstream_addr == cfg.upstream_addr@,
        terms(cfg).dial_timeout == cfg.dial_timeout,
        terms(cfg).keepalive_period == cfg.keepalive_period,
{
}

/// A negotiation that failed ends the session with its own failure, and one that took too
/// long with a failure that says so.
pub proof fn failed_negotiations_end_the_session(
    cfg: Config,
    err: Error,
    begun: Turn,
    failed: Turn,
    late: Turn,
)
    requires
        call_ensures(Session::start, (&cfg,), begun),
        call_ensures(Session::negotiated, (begun.session->0, Negotiated::Failed(err)), failed),
        call_ensures(Session::negotiated, (begun.session->0, Negotiated::TimedOut), late),
    ensures
        failed.session is None,
        failed.action matches Action::Finish(Err(e)) && e.kind == err.kind && e.message@
            == err.message@,
        late.session is None,
        late.action matches Action::Finish(Err(e)) && e.kind == ErrorKind::TimedOut && e.message@
            == "negotiation timed out"@,
{
}

/// An accepted client is handed back to the gateway: whatever header it came with, the
/// upstream of the settings is dialed, for as long as the settings say. If that fails or
/// takes too long, the session ends with a failure that names the upstream.
pub proof fn splices_dial_the_upstream(
    cfg: Config,
    header: Option<Vec<u8>>,
    err: Error,
    begun: Turn,
    dialing: Turn,
    failed: Turn,
    late: Turn,
)
    requires
        call_ensures(Session::start, (&cfg,), begun),
        call_ensures(
            Session::negotiated,
            (begun.session->0, Negotiated::Outcome(Outcome::Splice(header))),
            dialing,
        ),
        call_ensures(Session::resume, (dialing.session->0, Event::Failed(err)), failed),
        call_ensures(Session::resume, (dialing.session->0, Event::TimedOut), late),
    ensures
        dialing.action matches Action::Dial { addr, limit } && addr@ == cfg.upstream_addr@ && limit
            == cfg.dial_timeout,
        dialing.session matches Some(session) && forall|event: Event| #[trigger]
            call_requires(Session::resume, (session, event)),
        failed.session is None,
        failed.action matches Action::Finish(Err(e)) && e.kind == err.kind && e.message@
            == "dialing "@ + cfg.upstream_addr@ + ": "@ + err.message@,
        late.session is None,
        late.action matches Action::Finish(Err(e)) && e.kind == ErrorKind::TimedOut && e.message@
            == "dialing "@ + cfg.upstream_addr@ + ": timed out"@,
{
}

/// A splice behind a header gets through. Once the upstream has answered, the header is
/// sent to it byte for byte, whatever its bytes are; then both connections are set to be
/// probed at the configured period; then, whether that worked or not, the streams are
/// joined; and when they have ended by themselves, the session has succeeded.
pub proof fn splice_with_header_gets_through(
    cfg: Config,
    header: Vec<u8>,
    probed: Event,
    begun: Turn,
    dialing: Turn,
    forwarding: Turn,
    keeping: Turn,
    relaying: Turn,
    ended: Turn,
)
    requires
        call_ensures(Session::start, (&cfg,), begun),
        call_ensures(
            Session::negotiated,
            (begun.session->0, Negotiated::Outcome(Outcome::Splice(Some(header)))),
            dialing,
        ),
        call_ensures(Session::resume, (dialing.session->0, Event::Done), forwarding),
        call_ensures(Session::resume, (forwarding.session->0, Event::Done), keeping),
        probed !is TimedOut,
        call_ensures(Session::resume, (keeping.session->0, probed), relaying),
        call_ensures(Session::resume, (relaying.session->0, Event::Done), ended),
    ensures
        dialing.action is Dial,
        forwarding.action matches Action::Forward { bytes } && bytes@ == header@,
        forwarding.session matches Some(session) && call_requires(
            Session::resume,
            (session, Event::Done),
        ),
        keeping.action == (Action::KeepAlive {
            time: cfg.keepalive_period,
            interval: cfg.keepalive_period,
        }),
        keeping.session matches Some(session) && call_requires(Session::resume, (session, probed)),
        relaying.action == Action::Relay,
        relaying.session matches Some(session) && call_requires(
            Session::resume,
            (session, Event::Done),
        ),
        ended.action matches Action::Finish(Ok(_)),
        ended.session is None,
{
}

/// A splice without a header gets through likewise, and sends the upstream nothing before
/// the streams are joined.
pub proof fn splice_without_header_gets_through(
    cfg: Config,
    probed: Event,
    begun: Turn,
    dialing: Turn,
    keeping: Turn,
    relaying: Turn,
    ended: Turn,
)
    requires
        call_ensures(Session::start, (&cfg,), begun),
        call_ensures(
            Session::negotiated,
            (begun.session->0, Negotiated::Outcome(Outcome::Splice(None))),
            dialing,
        ),
        call_ensures(Session::resume, (dialing.session->0, Event::Done), keeping),
        probed !is TimedOut,
        call_ensures(Session::resume, (keeping.session->0, probed), relaying),
        call_ensures(Session::resume, (relaying.session->0, Event::Done), ended),
    ensures
        dialing.action is Dial,
        keeping.action == (Action::KeepAlive {
            time: cfg.keepalive_period,
            interval: cfg.keepalive_period,
        }),
        keeping.session matches Some(session) && call_requires(Session::resume, (session, probed)),
        relaying.action == Action::Relay,
        relaying.session matches Some(session) && call_requires(
            Session::resume,
            (session, Event::Done),
        ),
        ended.action matches Action::Finish(Ok(_)),
        ended.session is None,
{
}

/// A splice that breaks off ends with the failure that broke it: a header that could not
/// be sent is named, a stream that broke is not described any further.
pub proof fn broken_splices_end_with_their_failure(
    cfg: Config,
    header: Vec<u8>,
    probed: Event,
    err: Error,
    begun: Turn,
    dialing: Turn,
    forwarding: Turn,
    unsent: Turn,
    keeping: Turn,
    relaying: Turn,
    broken: Turn,
)
    requires
        call_ensures(Session::start, (&cfg,), begun),
        call_ensures(
            Session::negotiated,
            (begun.session->0, Negotiated::Outcome(Outcome::Splice(Some(header)))),
            dialing,
        ),
        call_ensures(Session::resume, (dialing.session->0, Event::Done), forwarding),
        call_ensures(Session::resume, (forwarding.session->0, Event::Failed(err)), unsent),
        call_ensures(Session::resume, (forwarding.session->0, Event::Done), keeping),
        probed !is TimedOut,
        call_ensures(Session::resume, (keeping.session->0, probed), relaying),
        call_ensures(Session::resume, (relaying.session->0, Event::Failed(err)), broken),
    ensures
        call_requires(Session::resume, (forwarding.session->0, Event::Failed(err))),
        unsent.session is None,
        unsent.action matches Action::Finish(Err(e)) && e.kind == err.kind && e.message@
            == "replaying proxy protocol header"@ + ": "@ + err.message@,
        call_requires(Session::resume, (relaying.session->0, Event::Failed(err))),
        broken.session is None,
        broken.action matches Action::Finish(Err(e)) && e.kind == err.kind && e.message@
            == err.message@,
{
}

/// The same of a splice without a header.
pub proof fn broken_streams_end_the_session(
    cfg: Config,
    probed: Event,
    err: Error,
    begun: Turn,
    dialing: Turn,
    keeping: Turn,
    relaying: Turn,
    broken: Turn,
)
    requires
        call_ensures(Session::start, (&cfg,), begun),
        call_ensures(
            Session::negotiated,
            (begun.session->0, Negotiated::Outcome(Outcome::Splice(None))),
            dialing,
        ),
        call_ensures(Session::resume, (dialing.session->0, Event::Done), keeping),
        probed !is TimedOut,
        call_ensures(Session::resume, (keeping.session->0, probed), relaying),
        call_ensures(Session::resume, (relaying.session->0, Event::Failed(err)), broken),
    ensures
        call_requires(Session::resume, (relaying.session->0, Event::Failed(err))),
        broken.session is None,
        broken.action matches Action::Finish(Err(e)) && e.kind == err.kind && e.message@
            == err.message@,
{
}

/// A session whose client was accepted ends for one of these reasons and no other: the
/// dial failed or took too long, the header could not be sent, or the joined streams
/// ended.
pub proof fn splices_end_for_a_reason(course: Course, header: Option<Seq<u8>>)
    requires
        possible(course),
        course.verdict == Some(Verdict::Decided(Decision::Splice(header))),
    ensures
        next_deed(course) is Finish <==> {
            ||| course.history.len() == 1 && course.history[0] !is Done
            ||| course.history.len() == 2 && header is Some && course.history[1] is Failed
            ||| course.history.len() == 3 && header is None
            ||| course.history.len() == 4
        },
        course.history.len() == 0 ==> next_deed(course) is Dial,
        course.history.len() == 1 && course.history[0] is Done ==> (match header {
            Some(bytes) => next_deed(course) == Deed::Forward(bytes),
            None => next_deed(course) is KeepAlive,
        }),
        course.history.len() == 2 && course.history[1] is Done ==> (match header {
            Some(_) => next_deed(course) is KeepAlive,
            None => next_deed(course) == Deed::Relay,
        }),
        course.history.len() == 3 && header is Some ==> next_deed(course) == Deed::Relay,
{
    let h = course.history;
    let n = h.len() as int;
    assert(at(course, n).history =~= h);
    if n > 0 {
        assert(can_end(next_deed(at(course, 0)), h[0]));
    }
    if n > 1 {
        assert(can_end(next_deed(at(course, 1)), h[1]));
        assert(at(course, 1).history[0] == h[0]);
    }
    if n > 2 {
        assert(can_end(next_deed(at(course, 2)), h[2]));
        assert(at(course, 2).history[0] == h[0]);
        assert(at(course, 2).history[1] == h[1]);
    }
    if n > 3 {
        assert(can_end(next_deed(at(course, 3)), h[3]));
        assert(at(course, 3).history[0] == h[0]);
        assert(at(course, 3).history[1] == h[1]);
        if header is None {
            assert(at(course, 3).history.skip(1).len() == 2);
        }
    }
    if n > 4 {
        assert(can_end(next_deed(at(course, 4)), h[4]));
        assert(at(course, 4).history[0] == h[0]);
        assert(at(course, 4).history[1] == h[1]);
    }
}

/// A client that came back to where it was sent from is told nothing: it is sent a FIN,
/// what it still sends is dropped for two seconds at most, and the session ends with a
/// failure that says why, whether any of this worked or not.
pub proof fn routing_loops_are_hung_up_on(
    cfg: Config,
    shut: Event,
    drained: Event,
    begun: Turn,
    closing: Turn,
    discarding: Turn,
    ended: Turn,
)
    requires
        call_ensures(Session::start, (&cfg,), begun),
        call_ensures(
            Session::negotiated,
            (begun.session->0, Negotiated::Outcome(Outcome::RoutingLoop)),
            closing,
        ),
        shut !is TimedOut,
        call_ensures(Session::resume, (closing.session->0, shut), discarding),
        call_ensures(Session::resume, (discarding.session->0, drained), ended),
    ensures
        closing.action == Action::Shutdown,
        closing.session matches Some(session) && call_requires(Session::resume, (session, shut)),
        discarding.action == (Action::Discard { limit: Span { secs: 2, nanos: 0 } }),
        discarding.session matches Some(session) && call_requires(
            Session::resume,
            (session, drained),
        ),
        ended.session is None,
        ended.action matches Action::Finish(Err(e)) && e.kind == ErrorKind::Other && e.message@
            == "direct TLS with unroutable SNI: refusing to avoid a routing loop"@,
{
}

/// A client that does without encryption is sent, first, an error response whose every
/// byte is fixed; then it is hung up on as any other that is turned away. The session
/// ends with a failure that says why, or that the response could not be sent.
pub proof fn plaintext_is_refused_and_hung_up_on(
    cfg: Config,
    written: Event,
    shut: Event,
    drained: Event,
    begun: Turn,
    replying: Turn,
    closing: Turn,
    discarding: Turn,
    ended: Turn,
)
    requires
        call_ensures(Session::start, (&cfg,), begun),
        call_ensures(
            Session::negotiated,
            (begun.session->0, Negotiated::Outcome(Outcome::PlaintextStartup)),
            replying,
        ),
        written !is TimedOut,
        call_ensures(Session::resume, (replying.session->0, written), closing),
        shut !is TimedOut,
        call_ensures(Session::resume, (closing.session->0, shut), discarding),
        call_ensures(Session::resume, (discarding.session->0, drained), ended),
    ensures
        replying.action matches Action::Reply { bytes } && bytes@ == seq![0x45u8, 0, 0, 0, 0x36]
            + seq![0x53u8] + vstd::utf8::encode_utf8("FATAL"@) + seq![0u8, 0x56]
            + vstd::utf8::encode_utf8("FATAL"@) + seq![0u8, 0x43] + vstd::utf8::encode_utf8(
            "28000"@,
        ) + seq![0u8, 0x4D] + vstd::utf8::encode_utf8("SSL connection is required"@) + seq![0u8, 0],
        replying.session matches Some(session) && call_requires(
            Session::resume,
            (session, written),
        ),
        closing.action == Action::Shutdown,
        closing.session matches Some(session) && call_requires(Session::resume, (session, shut)),
        discarding.action == (Action::Discard { limit: Span { secs: 2, nanos: 0 } }),
        discarding.session matches Some(session) && call_requires(
            Session::resume,
            (session, drained),
        ),
        ended.session is None,
        ended.action matches Action::Finish(Err(e)) && match written {
            Event::Failed(err) => e.kind == err.kind && e.message@ == "writing error response"@
                + ": "@ + err.message@,
            _ => e.kind == ErrorKind::Other && e.message@
                == "plaintext startup packet rejected: SSL is required"@,
        },
{
    reveal_strlit("28000");
    reveal_strlit("SSL connection is required");
    reveal_strlit("FATAL");
    vstd::utf8::is_ascii_chars_encode_utf8("28000"@);
    vstd::utf8::is_ascii_chars_encode_utf8("SSL connection is required"@);
    vstd::utf8::is_ascii_chars_encode_utf8("FATAL"@);
    assert(refusal() =~= seq![0x45u8, 0, 0, 0, 0x36] + seq![0x53u8] + vstd::utf8::encode_utf8(
        "FATAL"@,
    ) + seq![0u8, 0x56] + vstd::utf8::encode_utf8("FATAL"@) + seq![0u8, 0x43]
        + vstd::utf8::encode_utf8("28000"@) + seq![0u8, 0x4D] + vstd::utf8::encode_utf8(
        "SSL connection is required"@,
    ) + seq![0u8, 0]);
}

} // verus!
