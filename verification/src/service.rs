//! Accepting connections until told to stop, and what is said of those that end.

use crate::config::{Config, Span};
use crate::error::{ordinary_close, Error, Fault};
use crate::text::join3;
use vstd::prelude::*;
use vstd::string::*;

verus! {

/// The line to log when the session with `peer` ends: one for a failure that is
/// more than a connection ending, none otherwise.
pub fn report(peer: &str, ended: &Result<(), Error>) -> (r: Option<String>)
    ensures
        match *ended {
            Ok(_) => r is None,
            Err(err) => if crate::error::is_ordinary_close(err@.kind) {
                r is None
            } else {
                r is Some && r->0@ == peer@ + ": "@ + err@.message
            },
        },
{
    match ended {
        Ok(_) => None,
        Err(err) => if ordinary_close(err) {
            None
        } else {
            Some(join3(peer, ": ", err.message.as_str()))
        },
    }
}

/// What the service is doing.
#[derive(Clone, Copy, Debug, PartialEq, Eq, Structural)]
pub enum Service {
    /// Waiting for a connection or a signal.
    Accepting,
    /// Waiting for the sessions to end. The listener is gone, which is what makes this
    /// a drain rather than a pause: the set of sessions waited on can only shrink.
    Draining,
    /// Nothing.
    Stopped,
}

/// What happens to the service.
pub enum Occurrence {
    /// SIGTERM or SIGINT.
    Signal,
    /// A connection was accepted.
    Accepted,
    /// Accepting a connection failed.
    AcceptFailed(Error),
    /// The last session has ended.
    Drained,
    /// The drain budget ran out first.
    DrainExpired,
}

/// The mathematical content of an [`Occurrence`].
pub enum Incident {
    Signal,
    Accepted,
    AcceptFailed(Fault),
    Drained,
    DrainExpired,
}

impl View for Occurrence {
    type V = Incident;

    open spec fn view(&self) -> Incident {
        match *self {
            Occurrence::Signal => Incident::Signal,
            Occurrence::Accepted => Incident::Accepted,
            Occurrence::AcceptFailed(err) => Incident::AcceptFailed(err@),
            Occurrence::Drained => Incident::Drained,
            Occurrence::DrainExpired => Incident::DrainExpired,
        }
    }
}

/// What the service answers an occurrence with.
pub enum Response {
    /// Start a session with the connection.
    Serve,
    /// Log this line and go on accepting.
    Complain(String),
    /// Drop the listener and wait for the sessions, for at most `limit`.
    Drain { limit: Span },
    /// Exit. The sessions still open are closed, unless `all_closed`.
    Exit { all_closed: bool },
}

/// The mathematical content of a [`Response`].
pub enum Measure {
    Serve,
    Complain(Seq<char>),
    Drain(Span),
    Exit(bool),
}

impl View for Response {
    type V = Measure;

    open spec fn view(&self) -> Measure {
        match *self {
            Response::Serve => Measure::Serve,
            Response::Complain(line) => Measure::Complain(line@),
            Response::Drain { limit } => Measure::Drain(limit),
            Response::Exit { all_closed } => Measure::Exit(all_closed),
        }
    }
}

/// Whether `incident` can happen to a service that is doing this.
pub open spec fn can_happen(service: Service, incident: Incident) -> bool {
    match incident {
        Incident::Signal | Incident::Accepted | Incident::AcceptFailed(_) => service
            == Service::Accepting,
        Incident::Drained | Incident::DrainExpired => service == Service::Draining,
    }
}

/// What the service does after `incident`.
pub open spec fn service_after(service: Service, incident: Incident) -> Service {
    match incident {
        Incident::Signal => Service::Draining,
        Incident::Accepted | Incident::AcceptFailed(_) => service,
        Incident::Drained | Incident::DrainExpired => Service::Stopped,
    }
}

/// What `incident` is answered with.
pub open spec fn measure(incident: Incident, drain_timeout: Span) -> Measure {
    match incident {
        Incident::Signal => Measure::Drain(drain_timeout),
        Incident::Accepted => Measure::Serve,
        Incident::AcceptFailed(fault) => Measure::Complain("accept: "@ + fault.message),
        Incident::Drained => Measure::Exit(true),
        Incident::DrainExpired => Measure::Exit(false),
    }
}

impl Service {
    /// Answers an occurrence.
    pub fn answer(&mut self, occurrence: Occurrence, cfg: &Config) -> (r: Response)
        requires
            can_happen(*old(self), occurrence@),
        ensures
            *final(self) == service_after(*old(self), occurrence@),
            r@ == measure(occurrence@, cfg.drain_timeout),
    {
        match occurrence {
            Occurrence::Signal => {
                *self = Service::Draining;
                Response::Drain { limit: cfg.drain_timeout }
            },
            Occurrence::Accepted => Response::Serve,
            Occurrence::AcceptFailed(err) => {
                let mut line = String::from_str("accept: ");
                line.append(err.message.as_str());
                Response::Complain(line)
            },
            Occurrence::Drained => {
                *self = Service::Stopped;
                Response::Exit { all_closed: true }
            },
            Occurrence::DrainExpired => {
                *self = Service::Stopped;
                Response::Exit { all_closed: false }
            },
        }
    }
}

/// What the service does after all of `incidents`, from its start on.
pub open spec fn service_at(incidents: Seq<Incident>) -> Service
    decreases incidents.len(),
{
    if incidents.len() == 0 {
        Service::Accepting
    } else {
        service_after(service_at(incidents.drop_last()), incidents.last())
    }
}

/// Whether `incidents` can happen in this order.
pub open spec fn can_follow(incidents: Seq<Incident>) -> bool
    decreases incidents.len(),
{
    incidents.len() > 0 ==> can_follow(incidents.drop_last()) && can_happen(
        service_at(incidents.drop_last()),
        incidents.last(),
    )
}

/// After a signal no session starts: whatever happens then, no connection is accepted.
pub proof fn no_session_starts_after_a_signal(incidents: Seq<Incident>, i: int, j: int)
    requires
        can_follow(incidents),
        0 <= i < j < incidents.len(),
        incidents[i] is Signal,
    ensures
        incidents[j] !is Accepted,
        service_at(incidents) != Service::Accepting,
    decreases incidents.len(),
{
    let before = incidents.drop_last();
    if j < before.len() {
        no_session_starts_after_a_signal(before, i, j);
    } else {
        signal_ends_accepting(before, i);
    }
}

/// Once a signal has come, the service accepts no more.
proof fn signal_ends_accepting(incidents: Seq<Incident>, i: int)
    requires
        can_follow(incidents),
        0 <= i < incidents.len(),
        incidents[i] is Signal,
    ensures
        service_at(incidents) != Service::Accepting,
    decreases incidents.len(),
{
    if i < incidents.len() - 1 {
        signal_ends_accepting(incidents.drop_last(), i);
    }
}

/// A signal ends the accepting: the sessions under way get the drain budget of the
/// settings, to the nanosecond.
pub proof fn signals_drain_for_the_configured_time(
    cfg: Config,
    before: Service,
    after: Service,
    r: Response,
)
    requires
        before == Service::Accepting,
        exists|service: &mut Service|
            *service == before && *final(service) == after && #[trigger] call_ensures(
                Service::answer,
                (service, Occurrence::Signal, &cfg),
                r,
            ),
    ensures
        r == (Response::Drain { limit: cfg.drain_timeout }),
        after == Service::Draining,
{
}

/// While the service accepts, every connection that comes is served and every one that
/// could not be accepted is complained of, and neither ends the accepting.
pub proof fn accepting_goes_on(
    cfg: Config,
    err: Error,
    before: Service,
    after: Service,
    r: Response,
)
    requires
        before == Service::Accepting,
    ensures
        (exists|service: &mut Service|
            *service == before && *final(service) == after && #[trigger] call_ensures(
                Service::answer,
                (service, Occurrence::Accepted, &cfg),
                r,
            )) ==> r == Response::Serve && after == Service::Accepting,
        (exists|service: &mut Service|
            *service == before && *final(service) == after && #[trigger] call_ensures(
                Service::answer,
                (service, Occurrence::AcceptFailed(err), &cfg),
                r,
            )) ==> after == Service::Accepting && (r matches Response::Complain(line) && line@
            == "accept: "@ + err.message@),
{
}

/// A drain ends the service: well if every session has ended, and otherwise when the
/// budget has run out, with sessions left to close.
pub proof fn drains_end_the_service(cfg: Config, before: Service, after: Service, r: Response)
    requires
        before == Service::Draining,
    ensures
        (exists|service: &mut Service|
            *service == before && *final(service) == after && #[trigger] call_ensures(
                Service::answer,
                (service, Occurrence::Drained, &cfg),
                r,
            )) ==> r == (Response::Exit { all_closed: true }) && after == Service::Stopped,
        (exists|service: &mut Service|
            *service == before && *final(service) == after && #[trigger] call_ensures(
                Service::answer,
                (service, Occurrence::DrainExpired, &cfg),
                r,
            )) ==> r == (Response::Exit { all_closed: false }) && after == Service::Stopped,
{
}

/// A service that accepts can be told of a signal, a connection or a failure to accept
/// one; a service that drains, of the end of its sessions or of its budget.
pub proof fn services_can_be_told(cfg: Config, err: Error)
    ensures
        forall|service: &mut Service|
            *service == Service::Accepting ==> #[trigger] call_requires(
                Service::answer,
                (service, Occurrence::Signal, &cfg),
            ),
        forall|service: &mut Service|
            *service == Service::Accepting ==> #[trigger] call_requires(
                Service::answer,
                (service, Occurrence::Accepted, &cfg),
            ),
        forall|service: &mut Service|
            *service == Service::Accepting ==> #[trigger] call_requires(
                Service::answer,
                (service, Occurrence::AcceptFailed(err), &cfg),
            ),
        forall|service: &mut Service|
            *service == Service::Draining ==> #[trigger] call_requires(
                Service::answer,
                (service, Occurrence::Drained, &cfg),
            ),
        forall|service: &mut Service|
            *service == Service::Draining ==> #[trigger] call_requires(
                Service::answer,
                (service, Occurrence::DrainExpired, &cfg),
            ),
{
}

/// A session that ended well, or merely ended, is passed over; any other failure is
/// logged in full, behind the peer that it befell.
pub proof fn failures_are_logged_in_full(
    peer: &str,
    err: Error,
    well: Option<String>,
    r: Option<String>,
)
    requires
        call_ensures(report, (peer, &Ok::<(), Error>(())), well),
        call_ensures(report, (peer, &Err::<(), Error>(err)), r),
    ensures
        well is None,
        r is None <==> {
            ||| err.kind == crate::error::ErrorKind::UnexpectedEof
            ||| err.kind == crate::error::ErrorKind::ConnectionReset
            ||| err.kind == crate::error::ErrorKind::ConnectionAborted
            ||| err.kind == crate::error::ErrorKind::BrokenPipe
            ||| err.kind == crate::error::ErrorKind::NotConnected
        },
        r matches Some(line) ==> line@ == peer@ + ": "@ + err.message@,
{
}

} // verus!
