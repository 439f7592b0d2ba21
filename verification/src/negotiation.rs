//! Answering a client's SSL negotiation and finding out what it wants.

use crate::error::{ctx, Error, ErrorKind, Fault};
use crate::opening::{Opening, OpeningStep, Progress};
use crate::packet::{classify, Request, PACKET_LEN};
use crate::text::decimal;
use vstd::pervasive::unreached;
use vstd::prelude::*;
use vstd::string::*;

verus! {

/// The answer to a GSSENCRequest: "N".
pub const DECLINE: u8 = 0x4E;

/// The answer to an SSLRequest: "S".
pub const ACCEPT: u8 = 0x53;

/// What the client's opening turned out to be.
pub enum Outcome {
    /// An SSLRequest was accepted. Hand the TLS stream that follows back to the
    /// gateway, replaying the PROXY header the gateway sent us if there was one.
    Splice(Option<Vec<u8>>),
    /// A ClientHello reached us, which means the gateway had SNI and still found
    /// no tenant chain for it. Splicing it back would return it here forever.
    RoutingLoop,
    /// A plaintext startup packet (sslmode=disable).
    PlaintextStartup,
}

/// The mathematical content of an [`Outcome`].
pub enum Decision {
    Splice(Option<Seq<u8>>),
    RoutingLoop,
    PlaintextStartup,
}

impl View for Outcome {
    type V = Decision;

    open spec fn view(&self) -> Decision {
        match *self {
            Outcome::Splice(header) => Decision::Splice(crate::opening::header_bytes(header)),
            Outcome::RoutingLoop => Decision::RoutingLoop,
            Outcome::PlaintextStartup => Decision::PlaintextStartup,
        }
    }
}

/// Everything that has passed between client and shim: the bytes read from the
/// client and the bytes sent back.
pub struct Transcript {
    pub received: Seq<u8>,
    pub sent: Seq<u8>,
}

/// What a negotiation does next.
pub enum Next {
    /// Reads this many bytes.
    Read(int),
    /// Answers with this byte.
    Reply(u8),
    /// Ends with a decision.
    Done(Decision),
    /// Ends with a failure.
    Fail(Fault),
}

/// How many packets have been read, once the opening is there.
pub open spec fn packet_count(received: Seq<u8>) -> int {
    (received.len() - crate::opening::opening_len(received)) / PACKET_LEN as int + 1
}

/// The `i`th packet, counted from the one that ends the opening.
pub open spec fn packet_at(received: Seq<u8>, i: int) -> Seq<u8> {
    let end = crate::opening::opening_len(received) + i * PACKET_LEN;
    received.subrange(end - PACKET_LEN, end)
}

/// What the latest packet was.
pub open spec fn latest_request(received: Seq<u8>) -> Request {
    crate::packet::request_of(packet_at(received, packet_count(received) - 1))
}

/// The failure on a packet that asks for what cannot be routed.
pub open spec fn unroutable(code: u32) -> Fault {
    Fault {
        kind: ErrorKind::Other,
        message: "unroutable negotiation packet with code "@ + crate::text::decimal_text(
            code as nat,
        ),
    }
}

/// What follows on a transcript. Until the opening is there, it is read. Each packet
/// is then judged and, if it is a request for encryption, answered; only an answer
/// leads on, to the next packet or to the splice.
pub open spec fn next(t: Transcript) -> Next {
    match crate::opening::progress(t.received) {
        Progress::Partial => Next::Read(
            crate::opening::next_stop(t.received) - t.received.len(),
        ),
        Progress::Malformed => Next::Fail(crate::opening::malformed_signature()),
        Progress::Complete(header, _) => if t.sent.len() < packet_count(t.received) {
            match latest_request(t.received) {
                Request::ClientHello => Next::Done(Decision::RoutingLoop),
                Request::Startup => Next::Done(Decision::PlaintextStartup),
                Request::GssEncryption => Next::Reply(DECLINE),
                Request::Ssl => Next::Reply(ACCEPT),
                Request::Unroutable(code) => Next::Fail(unroutable(code)),
            }
        } else if t.sent.last() == ACCEPT {
            Next::Done(Decision::Splice(header))
        } else {
            Next::Read(PACKET_LEN as int)
        },
    }
}

/// Whether a transcript is one of this protocol: nothing is sent before the opening
/// is there, every packet but the latest was a GSSENCRequest and was declined, and
/// the latest was answered as it asks for or not yet.
pub open spec fn coherent(t: Transcript) -> bool {
    if crate::opening::progress(t.received) is Complete {
        let n = packet_count(t.received);
        &&& t.received.len() == crate::opening::opening_len(t.received) + (n - 1) * PACKET_LEN
        &&& n - 1 <= t.sent.len() <= n
        &&& forall|i: int|
            0 <= i < n - 1 ==> #[trigger] t.sent[i] == DECLINE && crate::packet::request_of(
                packet_at(t.received, i),
            ) == Request::GssEncryption
        &&& t.sent.len() == n ==> {
            ||| t.sent.last() == DECLINE && latest_request(t.received) == Request::GssEncryption
            ||| t.sent.last() == ACCEPT && latest_request(t.received) == Request::Ssl
        }
    } else {
        t.sent.len() == 0
    }
}

/// What is being done when the next thing fails.
pub open spec fn doing(t: Transcript) -> Seq<char> {
    match next(t) {
        Next::Reply(reply) => if reply == DECLINE {
            "declining GSSENCRequest"@
        } else {
            "accepting SSLRequest"@
        },
        _ => if crate::opening::progress(t.received) is Partial {
            crate::opening::reading(t.received)
        } else {
            "reading negotiation packet"@
        },
    }
}

enum Phase {
    /// Reading the opening.
    Opening(Opening),
    /// Declining GSSAPI encryption.
    Declining(Option<Vec<u8>>),
    /// Reading another packet.
    Again(Option<Vec<u8>>),
    /// Accepting an SSLRequest.
    Accepting(Option<Vec<u8>>),
}

/// A negotiation under way.
pub struct Negotiation {
    phase: Phase,
    transcript: Ghost<Transcript>,
}

/// What to do for a negotiation.
pub enum Step {
    /// Read `count` bytes from the client.
    Read { negotiation: Negotiation, count: usize },
    /// Send `reply` to the client.
    Reply { negotiation: Negotiation, reply: u8 },
    /// Nothing more: this is what the client wants.
    Done(Outcome),
    /// Nothing more: the connection cannot go on.
    Failed(Error),
}

impl View for Negotiation {
    type V = Transcript;

    closed spec fn view(&self) -> Transcript {
        self.transcript@
    }
}

/// Whether `step` is what follows on `t`, with a negotiation at `t` where one goes on.
pub open spec fn is_next(step: Step, t: Transcript) -> bool {
    match next(t) {
        Next::Read(n) => step is Read && step->Read_negotiation@ == t && step->count == n,
        Next::Reply(b) => step is Reply && step->Reply_negotiation@ == t && step->reply == b,
        Next::Done(decision) => step is Done && step->Done_0@ == decision,
        Next::Fail(fault) => step is Failed && step->Failed_0@ == fault,
    }
}

impl Negotiation {
    #[verifier::type_invariant]
    spec fn consistent(self) -> bool {
        let t = self.transcript@;
        &&& coherent(t)
        &&& match self.phase {
            Phase::Opening(opening) => {
                &&& opening@ == t.received
                &&& crate::opening::is_stop(t.received)
                &&& crate::opening::progress(t.received) is Partial
            },
            Phase::Declining(header) => {
                &&& crate::opening::progress(t.received) is Complete
                &&& crate::opening::progress(t.received)->Complete_0
                    == crate::opening::header_bytes(header)
                &&& next(t) == Next::Reply(DECLINE)
            },
            Phase::Again(header) => {
                &&& crate::opening::progress(t.received) is Complete
                &&& crate::opening::progress(t.received)->Complete_0
                    == crate::opening::header_bytes(header)
                &&& t.sent.len() == packet_count(t.received)
                &&& t.sent.last() == DECLINE
            },
            Phase::Accepting(header) => {
                &&& crate::opening::progress(t.received) is Complete
                &&& crate::opening::progress(t.received)->Complete_0
                    == crate::opening::header_bytes(header)
                &&& next(t) == Next::Reply(ACCEPT)
            },
        }
    }

    /// Starts a negotiation.
    pub fn start() -> (r: Step)
        ensures
            is_next(r, Transcript { received: Seq::empty(), sent: Seq::empty() }),
    {
        let opening = Opening::new();
        let count = opening.wanted();
        let transcript = Ghost(Transcript { received: Seq::empty(), sent: Seq::empty() });
        Step::Read {
            negotiation: Negotiation { phase: Phase::Opening(opening), transcript },
            count,
        }
    }

    /// Judges the latest packet, which has not been answered.
    fn judge(
        header: Option<Vec<u8>>,
        packet: &Vec<u8>,
        Ghost(t): Ghost<Transcript>,
    ) -> (r: Step)
        requires
            coherent(t),
            crate::opening::progress(t.received) is Complete,
            crate::opening::progress(t.received)->Complete_0 == crate::opening::header_bytes(
                header,
            ),
            t.sent.len() < packet_count(t.received),
            packet@.len() == PACKET_LEN,
            packet@ == packet_at(t.received, packet_count(t.received) - 1),
        ensures
            is_next(r, t),
    {
        let transcript = Ghost(t);
        match classify(packet.as_slice()) {
            Request::ClientHello => Step::Done(Outcome::RoutingLoop),
            Request::Startup => Step::Done(Outcome::PlaintextStartup),
            // Decline GSSAPI encryption; libpq then falls back to SSLRequest on
            // the same connection, so keep reading.
            Request::GssEncryption => Step::Reply {
                negotiation: Negotiation { phase: Phase::Declining(header), transcript },
                reply: DECLINE,
            },
            Request::Ssl => Step::Reply {
                negotiation: Negotiation { phase: Phase::Accepting(header), transcript },
                reply: ACCEPT,
            },
            // CancelRequest and anything else carry no SNI and no routable
            // information, so there is nowhere to send them.
            Request::Unroutable(code) => {
                let mut message = String::from_str("unroutable negotiation packet with code ");
                message.append(decimal(code).as_str());
                Step::Failed(Error { kind: ErrorKind::Other, message })
            },
        }
    }

    /// Takes the bytes that were to be read.
    pub fn received(self, bytes: Vec<u8>) -> (r: Step)
        requires
            next(self@) == Next::Read(bytes@.len() as int),
        ensures
            is_next(r, Transcript { received: self@.received + bytes@, sent: self@.sent }),
            coherent(Transcript { received: self@.received + bytes@, sent: self@.sent }),
    {
        proof {
            use_type_invariant(&self);
        }
        let ghost before = self@;
        let ghost after = Transcript { received: self@.received + bytes@, sent: self@.sent };
        match self.phase {
            Phase::Opening(opening) => match opening.resume(bytes) {
                OpeningStep::More(opening) => {
                    let count = opening.wanted();
                    Step::Read {
                        negotiation: Negotiation {
                            phase: Phase::Opening(opening),
                            transcript: Ghost(after),
                        },
                        count,
                    }
                },
                OpeningStep::Opened { header, packet } => {
                    proof {
                        crate::opening::reads_stay_inside_the_opening(before.received, bytes@);
                        crate::opening::only_openings_are_recognised(after.received);
                        assert(packet_count(after.received) == 1);
                        assert(packet_at(after.received, 0) =~= packet@);
                    }
                    Negotiation::judge(header, &packet, Ghost(after))
                },
                OpeningStep::Failed(err) => Step::Failed(err),
            },
            Phase::Again(header) => {
                proof {
                    packet_is_appended(before, bytes@);
                }
                Negotiation::judge(header, &bytes, Ghost(after))
            },
            _ => unreached(),
        }
    }

    /// Notes that the reply has been sent.
    pub fn replied(self) -> (r: Step)
        requires
            next(self@) is Reply,
        ensures
            is_next(
                r,
                Transcript {
                    received: self@.received,
                    sent: self@.sent.push(next(self@)->Reply_0),
                },
            ),
            coherent(
                Transcript {
                    received: self@.received,
                    sent: self@.sent.push(next(self@)->Reply_0),
                },
            ),
    {
        proof {
            use_type_invariant(&self);
        }
        let ghost t = self@;
        let ghost after = Transcript { received: t.received, sent: t.sent.push(next(t)->Reply_0) };
        match self.phase {
            Phase::Declining(header) => Step::Read {
                negotiation: Negotiation {
                    phase: Phase::Again(header),
                    transcript: Ghost(after),
                },
                count: PACKET_LEN,
            },
            Phase::Accepting(header) => Step::Done(Outcome::Splice(header)),
            _ => unreached(),
        }
    }

    /// Describes a failure to do what was to be done.
    pub fn failed(&self, err: Error) -> (r: Error)
        ensures
            r@ == crate::error::described(doing(self@), err@),
    {
        proof {
            use_type_invariant(self);
        }
        match &self.phase {
            Phase::Opening(opening) => opening.failed(err),
            Phase::Declining(_) => ctx("declining GSSENCRequest", err),
            Phase::Again(_) => ctx("reading negotiation packet", err),
            Phase::Accepting(_) => ctx("accepting SSLRequest", err),
        }
    }
}

/// Reading one more packet, after every packet so far has been declined, adds that
/// packet to the transcript and changes none before it.
proof fn packet_is_appended(t: Transcript, packet: Seq<u8>)
    requires
        coherent(t),
        crate::opening::progress(t.received) is Complete,
        t.sent.len() == packet_count(t.received),
        t.sent.last() == DECLINE,
        packet.len() == PACKET_LEN,
    ensures
        coherent(Transcript { received: t.received + packet, sent: t.sent }),
        crate::opening::progress(t.received + packet) == crate::opening::progress(t.received),
        packet_count(t.received + packet) == packet_count(t.received) + 1,
        packet_at(t.received + packet, packet_count(t.received)) == packet,
{
    let after = t.received + packet;
    let n = packet_count(t.received);
    crate::opening::decisions_are_final(t.received, packet);
    assert(packet_count(after) == n + 1);
    assert(packet_at(after, n) =~= packet);
    crate::opening::only_openings_are_recognised(t.received);
    assert(latest_request(t.received) == Request::GssEncryption);
    assert forall|i: int| 0 <= i < n implies #[trigger] t.sent[i] == DECLINE
        && crate::packet::request_of(packet_at(after, i)) == Request::GssEncryption by {
        assert(packet_at(after, i) =~= packet_at(t.received, i));
        if i == n - 1 {
            assert(t.sent.last() == t.sent[i]);
        }
    }
}

/// `k` copies of `unit`, one after the other.
pub open spec fn repeated(unit: Seq<u8>, k: nat) -> Seq<u8>
    decreases k,
{
    if k == 0 {
        Seq::empty()
    } else {
        repeated(unit, (k - 1) as nat) + unit
    }
}

/// The answers to `k` requests that were declined.
pub open spec fn declines(k: nat) -> Seq<u8> {
    Seq::new(k, |i: int| DECLINE)
}

/// A splice takes nothing that belongs to the TLS stream behind the negotiation. When
/// one is decided, what has been read is the header, GSSENCRequests and one
/// SSLRequest, and what has been sent is an "N" for each of the former and the "S".
pub proof fn splice_leaves_the_tls_stream(t: Transcript)
    requires
        coherent(t),
        next(t) is Done,
        next(t)->Done_0 is Splice,
    ensures
        t.sent.len() > 0,
        t.sent == declines((t.sent.len() - 1) as nat).push(ACCEPT),
        t.received == crate::opening::header_or_empty(next(t)->Done_0->Splice_0) + repeated(
            crate::packet::gss_enc_request(),
            (t.sent.len() - 1) as nat,
        ) + crate::packet::ssl_request(),
        next(t)->Done_0->Splice_0 matches Some(h) ==> crate::opening::is_proxy_header(h),
{
    let n = packet_count(t.received);
    let header = next(t)->Done_0->Splice_0;
    let base = crate::opening::header_or_empty(header);
    crate::opening::only_openings_are_recognised(t.received);
    declined_so_far(t, (n - 1) as nat);
    let last = packet_at(t.received, n - 1);
    crate::packet::requests_are_exact(last);
    assert(t.received =~= t.received.take(base.len() + (n - 1) * PACKET_LEN) + last);
    assert(t.sent =~= declines((n - 1) as nat).push(ACCEPT));
}

/// The first `k` packets of a coherent transcript, if none is the latest, are
/// GSSENCRequests behind the header.
proof fn declined_so_far(t: Transcript, k: nat)
    requires
        coherent(t),
        crate::opening::progress(t.received) is Complete,
        k <= packet_count(t.received) - 1,
    ensures
        ({
            let base = crate::opening::header_or_empty(
                crate::opening::progress(t.received)->Complete_0,
            );
            t.received.take(base.len() + k * PACKET_LEN) == base + repeated(
                crate::packet::gss_enc_request(),
                k,
            )
        }),
    decreases k,
{
    let base = crate::opening::header_or_empty(crate::opening::progress(t.received)->Complete_0);
    crate::opening::only_openings_are_recognised(t.received);
    if k == 0 {
        assert(t.received.take(base.len() as int) =~= t.received.take(
            crate::opening::opening_len(t.received),
        ).take(base.len() as int));
        assert(t.received.take(base.len() as int) =~= base + repeated(
            crate::packet::gss_enc_request(),
            0,
        ));
    } else {
        let j = (k - 1) as nat;
        declined_so_far(t, j);
        let packet = packet_at(t.received, j as int);
        assert(t.sent[j as int] == DECLINE);
        crate::packet::requests_are_exact(packet);
        assert(t.received.take(base.len() + k * PACKET_LEN) =~= t.received.take(
            base.len() + j * PACKET_LEN,
        ) + packet);
        assert(base + repeated(crate::packet::gss_enc_request(), k) =~= base + repeated(
            crate::packet::gss_enc_request(),
            j,
        ) + crate::packet::gss_enc_request());
    }
}

/// The client is never kept waiting: no packet is read while another is unanswered,
/// so a client that waits for the reply to what it sent is not waited for in turn.
pub proof fn replies_come_before_reads(t: Transcript)
    requires
        coherent(t),
        crate::opening::progress(t.received) is Complete,
        next(t) is Read,
    ensures
        t.sent.len() == packet_count(t.received),
        next(t) == Next::Read(PACKET_LEN as int),
{
}

/// "S" is sent in a negotiation that ends in a splice, and in no other.
pub proof fn only_a_splice_is_accepted(t: Transcript)
    requires
        coherent(t),
    ensures
        t.sent.contains(ACCEPT) <==> next(t) is Done && next(t)->Done_0 is Splice,
{
    if t.sent.contains(ACCEPT) {
        let i = t.sent.index_of(ACCEPT);
        assert(t.sent[i] == ACCEPT);
    }
    if next(t) is Done && next(t)->Done_0 is Splice {
        assert(t.sent[t.sent.len() - 1] == ACCEPT);
    }
}

/// Plays a negotiation against a client that sends `client`, with every read and
/// every reply succeeding: where it comes to rest, and what it does there.
pub open spec fn converse(client: Seq<u8>, t: Transcript) -> (Transcript, Next)
    decreases client.len() - t.received.len(), packet_count(t.received) - t.sent.len(),
{
    match next(t) {
        Next::Read(n) => if 0 < n && t.received.len() + n <= client.len() {
            converse(
                client,
                Transcript { received: client.take(t.received.len() + n), sent: t.sent },
            )
        } else {
            (t, next(t))
        },
        Next::Reply(reply) => converse(
            client,
            Transcript { received: t.received, sent: t.sent.push(reply) },
        ),
        _ => (t, next(t)),
    }
}

/// What the packet that ends a negotiation leads to.
pub open spec fn ending(header: Option<Seq<u8>>, last: Seq<u8>) -> Next {
    match crate::packet::request_of(last) {
        Request::ClientHello => Next::Done(Decision::RoutingLoop),
        Request::Startup => Next::Done(Decision::PlaintextStartup),
        Request::Unroutable(code) => Next::Fail(unroutable(code)),
        _ => Next::Done(Decision::Splice(header)),
    }
}

/// The answers given in a negotiation that ends with `last` after `k` GSSENCRequests.
pub open spec fn answers(k: nat, last: Seq<u8>) -> Seq<u8> {
    if crate::packet::request_of(last) == Request::Ssl {
        declines(k).push(ACCEPT)
    } else {
        declines(k)
    }
}

/// Every negotiation ends as its last packet asks. A client that sends a header or
/// none, any number of GSSENCRequests, a packet that is no GSSENCRequest, and
/// anything behind it gets an "N" for each GSSENCRequest and an "S" if the packet is
/// an SSLRequest; the packet decides the outcome, an accepted one carries the header
/// verbatim, and nothing behind the packet is read.
pub proof fn negotiation_ends_as_asked(
    header: Option<Seq<u8>>,
    k: nat,
    last: Seq<u8>,
    rest: Seq<u8>,
)
    requires
        header matches Some(h) ==> crate::opening::is_proxy_header(h),
        header is None && k == 0 ==> !crate::opening::starts_header(last),
        last.len() == PACKET_LEN,
        crate::packet::request_of(last) != Request::GssEncryption,
    ensures
        ({
            let negotiated = crate::opening::header_or_empty(header) + repeated(
                crate::packet::gss_enc_request(),
                k,
            ) + last;
            converse(
                negotiated + rest,
                Transcript { received: Seq::empty(), sent: Seq::empty() },
            ) == (Transcript { received: negotiated, sent: answers(k, last) }, ending(header, last))
        }),
{
    let base = crate::opening::header_or_empty(header);
    let negotiated = base + repeated(crate::packet::gss_enc_request(), k) + last;
    let client = negotiated + rest;
    packets_stand_behind(base, k, last, rest);
    assert(client.take(base.len() as int) =~= base);
    client_sends(client, header, k, last);
    packets_are_answered(client, header, base.len(), k, last, 0);
    assert(heard_packet(client, base.len(), 0).sent =~= Seq::<u8>::empty());
    repeated_len(crate::packet::gss_enc_request(), k);
    assert(heard_packet(client, base.len(), k).received =~= negotiated);
}

/// A client that sends a CancelRequest, behind a header or none, is answered with
/// nothing, and the failure names the code of its request.
pub proof fn cancel_request_is_not_answered(header: Option<Seq<u8>>, rest: Seq<u8>)
    requires
        header matches Some(h) ==> crate::opening::is_proxy_header(h),
    ensures
        ({
            let negotiated = crate::opening::header_or_empty(header)
                + crate::packet::cancel_request();
            converse(
                negotiated + rest,
                Transcript { received: Seq::empty(), sent: Seq::empty() },
            ) == (
                Transcript { received: negotiated, sent: Seq::empty() },
                Next::Fail(unroutable(crate::packet::CANCEL_REQUEST_CODE)),
            )
        }),
{
    let base = crate::opening::header_or_empty(header);
    let packet = crate::packet::cancel_request();
    crate::packet::cancel_requests_are_unroutable(packet);
    crate::opening::four_bytes_decide(packet);
    negotiation_ends_as_asked(header, 0, packet, rest);
    assert(base + repeated(crate::packet::gss_enc_request(), 0) =~= base);
    assert(declines(0) =~= Seq::<u8>::empty());
}

/// A connection that starts as a header does but lacks the rest of the signature fails
/// once the length of a header has been read, and is answered with nothing.
pub proof fn bad_signature_is_refused(client: Seq<u8>)
    requires
        client.len() >= crate::opening::HEADER_LEN,
        crate::opening::starts_header(client),
        !crate::opening::signed(client),
    ensures
        converse(client, Transcript { received: Seq::empty(), sent: Seq::empty() }) == (
            Transcript {
                received: client.take(crate::opening::HEADER_LEN as int),
                sent: Seq::empty(),
            },
            Next::Fail(crate::opening::malformed_signature()),
        ),
{
    assert(client.take(0) =~= Seq::<u8>::empty());
    assert(client.take(4).take(4) =~= client.take(4));
    assert(client.take(16).take(4) =~= client.take(4));
    assert(client.take(16).take(12) =~= client.take(12));
    assert(converse(client, heard(client, 0)) == converse(client, heard(client, 4)));
    assert(converse(client, heard(client, 4)) == converse(client, heard(client, 16)));
}

/// The packets that stand behind `base`.
proof fn packets_stand_behind(base: Seq<u8>, k: nat, last: Seq<u8>, rest: Seq<u8>)
    requires
        last.len() == PACKET_LEN,
    ensures
        ({
            let client = base + repeated(crate::packet::gss_enc_request(), k) + last + rest;
            &&& client.len() >= base.len() + (k + 1) * PACKET_LEN
            &&& forall|i: nat|
                i < k ==> #[trigger] packet_behind(client, base.len(), i)
                    == crate::packet::gss_enc_request()
            &&& packet_behind(client, base.len(), k) == last
        }),
{
    let gss = crate::packet::gss_enc_request();
    let client = base + repeated(gss, k) + last + rest;
    repeated_len(gss, k);
    assert forall|i: nat| i < k implies #[trigger] packet_behind(client, base.len(), i) == gss by {
        repeated_unit(gss, k, i);
        assert(packet_behind(client, base.len(), i) =~= repeated(gss, k).subrange(
            i * PACKET_LEN as int,
            i * PACKET_LEN + PACKET_LEN,
        ));
    }
    assert(packet_behind(client, base.len(), k) =~= last);
}

/// A sequence cut in three is the three pieces.
proof fn cut_in_three(s: Seq<u8>, n: int, m: int)
    requires
        0 <= n <= m <= s.len(),
    ensures
        s == s.take(n) + s.subrange(n, m) + s.skip(m),
        s.take(m) == s.take(n) + s.subrange(n, m),
{
    assert(s =~= s.take(n) + s.subrange(n, m) + s.skip(m));
    assert(s.take(m) =~= s.take(n) + s.subrange(n, m));
}

/// What a client of [`negotiation_ends_as_asked`] sends, packet by packet, and that
/// its opening is read to its end.
proof fn client_sends(client: Seq<u8>, header: Option<Seq<u8>>, k: nat, last: Seq<u8>)
    requires
        ({
            let base = crate::opening::header_or_empty(header);
            &&& client.len() >= base.len() + (k + 1) * PACKET_LEN
            &&& client.take(base.len() as int) == base
            &&& forall|i: nat|
                i < k ==> #[trigger] packet_behind(client, base.len(), i)
                    == crate::packet::gss_enc_request()
            &&& packet_behind(client, base.len(), k) == last
        }),
        header matches Some(h) ==> crate::opening::is_proxy_header(h),
        header is None && k == 0 ==> !crate::opening::starts_header(last),
        last.len() == PACKET_LEN,
    ensures
        ({
            let base = crate::opening::header_or_empty(header);
            &&& sends(client, header, base.len(), k, last)
            &&& converse(client, Transcript { received: Seq::empty(), sent: Seq::empty() })
                == converse(
                client,
                Transcript {
                    received: client.take(base.len() + PACKET_LEN),
                    sent: Seq::empty(),
                },
            )
        }),
{
    let base = crate::opening::header_or_empty(header);
    let first = packet_behind(client, base.len(), 0);
    assert(crate::opening::is_opening(header, first)) by {
        if k > 0 {
            assert(first == crate::packet::gss_enc_request());
            crate::opening::four_bytes_decide(first);
        }
    }
    let start = client.take(base.len() + PACKET_LEN);
    let behind = client.skip(base.len() + PACKET_LEN);
    cut_in_three(client, base.len() as int, base.len() + PACKET_LEN);
    opening_is_read(header, first, behind);
    assert(start =~= base + first + Seq::<u8>::empty());
    crate::opening::openings_are_recognised(header, first, Seq::empty());
}

proof fn repeated_len(unit: Seq<u8>, k: nat)
    requires
        unit.len() == PACKET_LEN,
    ensures
        repeated(unit, k).len() == k * PACKET_LEN,
    decreases k,
{
    if k > 0 {
        repeated_len(unit, (k - 1) as nat);
    }
}

proof fn repeated_unit(unit: Seq<u8>, k: nat, j: nat)
    requires
        unit.len() == PACKET_LEN,
        j < k,
    ensures
        repeated(unit, k).subrange(j * PACKET_LEN as int, j * PACKET_LEN + PACKET_LEN) == unit,
    decreases k,
{
    let shorter = repeated(unit, (k - 1) as nat);
    repeated_len(unit, (k - 1) as nat);
    repeated_len(unit, k);
    if j < k - 1 {
        repeated_unit(unit, (k - 1) as nat, j);
        assert(repeated(unit, k).subrange(j * PACKET_LEN as int, j * PACKET_LEN + PACKET_LEN)
            =~= shorter.subrange(j * PACKET_LEN as int, j * PACKET_LEN + PACKET_LEN));
    } else {
        assert(repeated(unit, k).subrange(j * PACKET_LEN as int, j * PACKET_LEN + PACKET_LEN)
            =~= unit);
    }
}

/// The transcript after the first `n` bytes of `client`, with nothing sent.
spec fn heard(client: Seq<u8>, n: int) -> Transcript {
    Transcript { received: client.take(n), sent: Seq::empty() }
}

/// Reading an opening ends where the opening ends.
proof fn opening_is_read(header: Option<Seq<u8>>, packet: Seq<u8>, rest: Seq<u8>)
    requires
        crate::opening::is_opening(header, packet),
    ensures
        ({
            let base = crate::opening::header_or_empty(header);
            let client = base + packet + rest;
            converse(client, Transcript { received: Seq::empty(), sent: Seq::empty() })
                == converse(
                client,
                Transcript {
                    received: client.take(base.len() + PACKET_LEN),
                    sent: Seq::empty(),
                },
            )
        }),
{
    let base = crate::opening::header_or_empty(header);
    let client = base + packet + rest;
    crate::opening::openings_are_recognised(header, packet, rest);
    assert(client.take(0) =~= Seq::<u8>::empty());
    assert(converse(client, heard(client, 0)) == converse(client, heard(client, 4)));
    assert(client.take(4).take(4) =~= client.take(4));
    match header {
        Some(h) => {
            assert(client.take(16).take(4) =~= client.take(4));
            assert(client.take(16).take(12) =~= client.take(12));
            assert(converse(client, heard(client, 4)) == converse(client, heard(client, 16)));
            let end = h.len() as int;
            assert(client.take(end).take(4) =~= client.take(4));
            assert(client.take(end).take(12) =~= client.take(12));
            if end > 16 {
                assert(converse(client, heard(client, 16)) == converse(client, heard(client, end)));
            }
            assert(converse(client, heard(client, end)) == converse(
                client,
                heard(client, end + 8),
            ));
        },
        None => {
            assert(converse(client, heard(client, 4)) == converse(client, heard(client, 8)));
        },
    }
}

/// The facts on which a negotiation with `client` turns: its opening ends `base` and a
/// packet's length from the start, `k` GSSENCRequests stand behind `base`, and `last`
/// behind those.
spec fn sends(
    client: Seq<u8>,
    header: Option<Seq<u8>>,
    base: nat,
    k: nat,
    last: Seq<u8>,
) -> bool {
    let start = client.take(base + PACKET_LEN);
    &&& client.len() >= base + (k + 1) * PACKET_LEN
    &&& crate::opening::progress(start) is Complete
    &&& crate::opening::progress(start)->Complete_0 == header
    &&& crate::opening::opening_len(start) == base + PACKET_LEN
    &&& forall|i: nat|
        i < k ==> #[trigger] packet_behind(client, base, i) == crate::packet::gss_enc_request()
    &&& packet_behind(client, base, k) == last
}

/// The `i`th packet behind the first `base` bytes.
spec fn packet_behind(client: Seq<u8>, base: nat, i: nat) -> Seq<u8> {
    client.subrange(base + i * PACKET_LEN, base + (i + 1) * PACKET_LEN)
}

/// The transcript when the `j`th packet has been read and those before declined.
spec fn heard_packet(client: Seq<u8>, base: nat, j: nat) -> Transcript {
    Transcript { received: client.take(base + (j + 1) * PACKET_LEN), sent: declines(j) }
}

/// What the transcript shows when the `j`th packet has been read.
proof fn packet_is_heard(
    client: Seq<u8>,
    header: Option<Seq<u8>>,
    base: nat,
    k: nat,
    last: Seq<u8>,
    j: nat,
)
    requires
        sends(client, header, base, k, last),
        j <= k,
    ensures
        ({
            let read = heard_packet(client, base, j).received;
            &&& read.len() == base + (j + 1) * PACKET_LEN
            &&& crate::opening::progress(read) is Complete
            &&& crate::opening::progress(read)->Complete_0 == header
            &&& packet_count(read) == j + 1
            &&& packet_at(read, j as int) == packet_behind(client, base, j)
        }),
{
    let start = client.take(base + PACKET_LEN);
    let read = client.take(base + (j + 1) * PACKET_LEN);
    let more = read.skip(base + PACKET_LEN);
    assert(read =~= start + more);
    crate::opening::decisions_are_final(start, more);
    assert(packet_at(read, j as int) =~= packet_behind(client, base, j));
}

/// A GSSENCRequest is declined and the next packet read.
proof fn request_is_declined(
    client: Seq<u8>,
    header: Option<Seq<u8>>,
    base: nat,
    k: nat,
    last: Seq<u8>,
    j: nat,
)
    requires
        sends(client, header, base, k, last),
        j < k,
    ensures
        converse(client, heard_packet(client, base, j)) == converse(
            client,
            heard_packet(client, base, j + 1),
        ),
{
    let t = heard_packet(client, base, j);
    packet_is_heard(client, header, base, k, last, j);
    assert(packet_behind(client, base, j) == crate::packet::gss_enc_request());
    crate::packet::requests_are_exact(packet_behind(client, base, j));
    assert(next(t) == Next::Reply(DECLINE));
    let answered = Transcript { received: t.received, sent: t.sent.push(DECLINE) };
    assert(answered.sent =~= declines(j + 1));
    assert(converse(client, t) == converse(client, answered));
    assert(answered.sent.last() == DECLINE);
    assert(next(answered) == Next::Read(PACKET_LEN as int));
    assert(base + (j + 2) * PACKET_LEN <= client.len()) by (nonlinear_arith)
        requires
            client.len() >= base + (k + 1) * PACKET_LEN,
            j < k,
            PACKET_LEN == 8,
    ;
    assert(t.received.len() + PACKET_LEN == base + (j + 2) * PACKET_LEN);
}

/// The packet that ends the negotiation ends it.
proof fn last_packet_ends(
    client: Seq<u8>,
    header: Option<Seq<u8>>,
    base: nat,
    k: nat,
    last: Seq<u8>,
)
    requires
        sends(client, header, base, k, last),
        crate::packet::request_of(last) != Request::GssEncryption,
    ensures
        converse(client, heard_packet(client, base, k)) == (
            Transcript {
                received: heard_packet(client, base, k).received,
                sent: answers(k, last),
            },
            ending(header, last),
        ),
{
    let t = heard_packet(client, base, k);
    packet_is_heard(client, header, base, k, last, k);
    if crate::packet::request_of(last) == Request::Ssl {
        let accepted = Transcript { received: t.received, sent: t.sent.push(ACCEPT) };
        assert(next(t) == Next::Reply(ACCEPT));
        assert(converse(client, t) == converse(client, accepted));
        assert(accepted.sent.last() == ACCEPT);
        assert(next(accepted) == Next::Done(Decision::Splice(header)));
    } else {
        assert(next(t) == ending(header, last));
    }
}

/// From the point where the `j`th packet has been read, the negotiation goes on to
/// its end.
proof fn packets_are_answered(
    client: Seq<u8>,
    header: Option<Seq<u8>>,
    base: nat,
    k: nat,
    last: Seq<u8>,
    j: nat,
)
    requires
        sends(client, header, base, k, last),
        crate::packet::request_of(last) != Request::GssEncryption,
        j <= k,
    ensures
        converse(client, heard_packet(client, base, j)) == (
            Transcript {
                received: heard_packet(client, base, k).received,
                sent: answers(k, last),
            },
            ending(header, last),
        ),
    decreases k - j,
{
    if j < k {
        request_is_declined(client, header, base, k, last, j);
        packets_are_answered(client, header, base, k, last, j + 1);
    } else {
        last_packet_ends(client, header, base, k, last);
    }
}

/// How a transcript is cut into packets: behind the header, or from the start if there is
/// none, every eight bytes are one, and the header is not looked at again.
proof fn transcript_is_cut_into_packets(
    header: Option<Seq<u8>>,
    earlier: Seq<u8>,
    last: Seq<u8>,
    j: nat,
)
    requires
        earlier.len() == 8 * j,
        last.len() == 8,
        header matches Some(h) ==> h.len() >= 16 && h.take(12)
            == seq![0x0Du8, 0x0A, 0x0D, 0x0A, 0, 0x0D, 0x0A, 0x51, 0x55, 0x49, 0x54, 0x0A]
            && h.len() == 16 + h[14] * 256 + h[15],
        header is None ==> (earlier + last).take(4) != seq![0x0Du8, 0x0A, 0x0D, 0x0A],
    ensures
        ({
            let received = crate::opening::header_or_empty(header) + earlier + last;
            &&& crate::opening::progress(received) is Complete
            &&& crate::opening::progress(received)->Complete_0 == header
            &&& packet_count(received) == j + 1
            &&& packet_at(received, j as int) == last
        }),
{
    let base = crate::opening::header_or_empty(header);
    let received = base + earlier + last;
    let first = (earlier + last).take(8);
    let behind = (earlier + last).skip(8);
    crate::opening::signature_bytes();
    assert(first.take(4) =~= (earlier + last).take(4));
    assert(crate::opening::is_opening(header, first));
    assert(received =~= base + first + behind);
    crate::opening::openings_are_recognised(header, first, behind);
    assert(packet_at(received, j as int) =~= last);
}

/// A negotiation begins by reading four bytes, with nothing sent.
pub proof fn negotiations_begin_with_four_bytes(begun: Step, bytes: Vec<u8>)
    requires
        call_ensures(Negotiation::start, (), begun),
        bytes@.len() == 4,
    ensures
        begun matches Step::Read { negotiation, count } && count == 4 && negotiation@.received
            == Seq::<u8>::empty() && negotiation@.sent == Seq::<u8>::empty() && call_requires(
            Negotiation::received,
            (negotiation, bytes),
        ),
{
}

/// What is read of an opening that is not whole yet: after four bytes the rest of a packet
/// or of a header, after a header without a block the packet, after one with a block the
/// block and then the packet. A header whose signature is wrong fails the negotiation,
/// whatever stands behind the signature.
pub proof fn openings_are_read_to_their_end(
    negotiation: Negotiation,
    bytes: Vec<u8>,
    more: Vec<u8>,
    step: Step,
)
    requires
        call_ensures(Negotiation::received, (negotiation, bytes), step),
    ensures
        ({
            let s = negotiation@.received + bytes@;
            let block = s[14] * 256 + s[15];
            let signed = s.take(12)
                == seq![0x0Du8, 0x0A, 0x0D, 0x0A, 0, 0x0D, 0x0A, 0x51, 0x55, 0x49, 0x54, 0x0A];
            let count = if s.len() == 4 && s != seq![0x0Du8, 0x0A, 0x0D, 0x0A] {
                Some(4int)
            } else if s.len() == 4 {
                Some(12int)
            } else if s.len() == 16 && signed && block > 0 {
                Some(block)
            } else if s.len() == 16 + block && signed {
                Some(8int)
            } else {
                None
            };
            &&& count matches Some(n) ==> {
                &&& step matches Step::Read { negotiation: kept, count: c } && c == n
                    && kept@.received == s && kept@.sent == negotiation@.sent
                &&& more@.len() == n ==> call_requires(
                    Negotiation::received,
                    (step->Read_negotiation, more),
                )
            }
            &&& s.len() == 16 && s.take(4) == seq![0x0Du8, 0x0A, 0x0D, 0x0A] && !signed ==> {
                step matches Step::Failed(err) && err.kind == ErrorKind::Other && err.message@
                    == "malformed proxy protocol signature"@
            }
        }),
{
    crate::opening::signature_bytes();
    let s = negotiation@.received + bytes@;
    if s.len() == 4 {
        assert(s.take(4) =~= s);
    }
    if s.len() >= 12 {
        assert(s.take(4) =~= s.take(12).take(4));
        assert(seq![0x0Du8, 0x0A, 0x0D, 0x0A, 0, 0x0D, 0x0A, 0x51, 0x55, 0x49, 0x54, 0x0A].take(4) =~= seq![0x0Du8, 0x0A, 0x0D, 0x0A]);
    }
}

/// What comes of a packet, told by its bytes, behind any header or none and behind any
/// packets that were answered before: an SSLRequest is answered with "S" and a
/// GSSENCRequest with "N"; a TLS record is a routing loop; what cannot be routed fails,
/// by its code; and every other packet is a startup in plaintext.
pub proof fn packets_are_judged_by_their_bytes(
    header: Option<Seq<u8>>,
    earlier: Seq<u8>,
    last: Seq<u8>,
    j: nat,
    negotiation: Negotiation,
    bytes: Vec<u8>,
    step: Step,
)
    requires
        earlier.len() == 8 * j,
        last.len() == 8,
        header matches Some(h) ==> h.len() >= 16 && h.take(12)
            == seq![0x0Du8, 0x0A, 0x0D, 0x0A, 0, 0x0D, 0x0A, 0x51, 0x55, 0x49, 0x54, 0x0A]
            && h.len() == 16 + h[14] * 256 + h[15],
        header is None ==> (earlier + last).take(4) != seq![0x0Du8, 0x0A, 0x0D, 0x0A],
        call_ensures(Negotiation::received, (negotiation, bytes), step),
        negotiation@.received + bytes@ == crate::opening::header_or_empty(header) + earlier
            + last,
        negotiation@.sent.len() == j,
    ensures
        last == seq![0u8, 0, 0, 8, 0x04, 0xd2, 0x16, 0x2f] ==> (step matches Step::Reply {
            negotiation: kept,
            reply,
        } && reply == 0x53 && kept@.received == negotiation@.received + bytes@ && kept@.sent
            == negotiation@.sent && call_requires(Negotiation::replied, (kept,))),
        last == seq![0u8, 0, 0, 8, 0x04, 0xd2, 0x16, 0x30] ==> (step matches Step::Reply {
            negotiation: kept,
            reply,
        } && reply == 0x4E && kept@.received == negotiation@.received + bytes@ && kept@.sent
            == negotiation@.sent && call_requires(Negotiation::replied, (kept,))),
        last[0] == 0x16 ==> step == Step::Done(Outcome::RoutingLoop),
        last == seq![0u8, 0, 0, 16, 0x04, 0xd2, 0x16, 0x2e] || last.take(4)
            == seq![0u8, 0, 0, 8] && last != seq![0u8, 0, 0, 8, 0x04, 0xd2, 0x16, 0x2f] && last
            != seq![0u8, 0, 0, 8, 0x04, 0xd2, 0x16, 0x30] ==> (step matches Step::Failed(err)
                && err.kind == ErrorKind::Other
            && err.message@ == "unroutable negotiation packet with code "@
            + crate::text::decimal_text(
            (last[4] * 16777216 + last[5] * 65536 + last[6] * 256 + last[7]) as nat,
        )),
        last[0] != 0x16 && last.take(4) != seq![0u8, 0, 0, 8] && last
            != seq![0u8, 0, 0, 16, 0x04, 0xd2, 0x16, 0x2e] ==> step
            == Step::Done(Outcome::PlaintextStartup),
{
    transcript_is_cut_into_packets(header, earlier, last, j);
    crate::packet::requests_are_told_by_their_bytes(last);
}

/// What an answered packet leads to: an "S" to the splice, with the header that the
/// connection opened with, byte for byte, or none; an "N" to the next packet.
pub proof fn answers_lead_on(
    header: Option<Seq<u8>>,
    earlier: Seq<u8>,
    last: Seq<u8>,
    j: nat,
    negotiation: Negotiation,
    packet: Vec<u8>,
    step: Step,
)
    requires
        earlier.len() == 8 * j,
        last.len() == 8,
        header matches Some(h) ==> h.len() >= 16 && h.take(12)
            == seq![0x0Du8, 0x0A, 0x0D, 0x0A, 0, 0x0D, 0x0A, 0x51, 0x55, 0x49, 0x54, 0x0A]
            && h.len() == 16 + h[14] * 256 + h[15],
        header is None ==> (earlier + last).take(4) != seq![0x0Du8, 0x0A, 0x0D, 0x0A],
        call_ensures(Negotiation::replied, (negotiation,), step),
        negotiation@.received == crate::opening::header_or_empty(header) + earlier + last,
        negotiation@.sent.len() == j,
        packet@.len() == 8,
    ensures
        last == seq![0u8, 0, 0, 8, 0x04, 0xd2, 0x16, 0x2f]
            ==> (step matches Step::Done(Outcome::Splice(h))
            && (h is Some <==> header is Some) && (header matches Some(b) ==> h->0@ == b)),
        last == seq![0u8, 0, 0, 8, 0x04, 0xd2, 0x16, 0x30] ==> (step matches Step::Read {
            negotiation: kept,
            count,
        } && count == 8 && kept@.received == negotiation@.received && kept@.sent
            == negotiation@.sent.push(0x4E) && call_requires(
            Negotiation::received,
            (kept, packet),
        )),
{
    transcript_is_cut_into_packets(header, earlier, last, j);
    crate::packet::requests_are_told_by_their_bytes(last);
}

/// A failure is described by what was being done; its category stays. Reading a packet
/// behind another is called the same as reading the first.
pub proof fn failures_say_what_was_done(
    header: Option<Seq<u8>>,
    earlier: Seq<u8>,
    last: Seq<u8>,
    j: nat,
    negotiation: Negotiation,
    err: Error,
    r: Error,
)
    requires
        earlier.len() == 8 * j,
        last.len() == 8,
        header matches Some(h) ==> h.len() >= 16 && h.take(12)
            == seq![0x0Du8, 0x0A, 0x0D, 0x0A, 0, 0x0D, 0x0A, 0x51, 0x55, 0x49, 0x54, 0x0A]
            && h.len() == 16 + h[14] * 256 + h[15],
        header is None ==> (earlier + last).take(4) != seq![0x0Du8, 0x0A, 0x0D, 0x0A],
        call_ensures(Negotiation::failed, (&negotiation, err), r),
        negotiation@.received == crate::opening::header_or_empty(header) + earlier + last,
    ensures
        r.kind == err.kind,
        negotiation@.sent.len() == j && last == seq![0u8, 0, 0, 8, 0x04, 0xd2, 0x16, 0x2f]
            ==> r.message@
            == "accepting SSLRequest"@ + ": "@ + err.message@,
        negotiation@.sent.len() == j && last == seq![0u8, 0, 0, 8, 0x04, 0xd2, 0x16, 0x30]
            ==> r.message@
            == "declining GSSENCRequest"@ + ": "@ + err.message@,
        negotiation@.sent.len() == j + 1 ==> r.message@ == "reading negotiation packet"@ + ": "@
            + err.message@,
{
    transcript_is_cut_into_packets(header, earlier, last, j);
    crate::packet::requests_are_told_by_their_bytes(last);
}

/// A failure to read the opening is described by the part of it that was being read.
pub proof fn failed_openings_say_what_was_read(negotiation: Negotiation, err: Error, r: Error)
    requires
        call_ensures(Negotiation::failed, (&negotiation, err), r),
    ensures
        ({
            let s = negotiation@.received;
            let block = s[14] * 256 + s[15];
            let signed = s.take(12)
                == seq![0x0Du8, 0x0A, 0x0D, 0x0A, 0, 0x0D, 0x0A, 0x51, 0x55, 0x49, 0x54, 0x0A];
            &&& r.kind == err.kind
            &&& s.len() == 0 ==> r.message@ == "reading connection opening"@ + ": "@
                + err.message@
            &&& s.len() == 4 && s != seq![0x0Du8, 0x0A, 0x0D, 0x0A] ==> r.message@
                == "reading negotiation packet"@ + ": "@ + err.message@
            &&& s.len() == 4 && s == seq![0x0Du8, 0x0A, 0x0D, 0x0A] ==> r.message@
                == "reading proxy protocol header"@ + ": "@ + err.message@
            &&& s.len() == 16 && signed && block > 0 ==> r.message@
                == "reading proxy protocol address block"@ + ": "@ + err.message@
            &&& s.len() == 16 + block && signed ==> r.message@ == "reading negotiation packet"@
                + ": "@ + err.message@
        }),
{
    crate::opening::signature_bytes();
    let s = negotiation@.received;
    if s.len() == 4 {
        assert(s.take(4) =~= s);
    }
    if s.len() >= 12 {
        assert(s.take(4) =~= s.take(12).take(4));
        assert(seq![0x0Du8, 0x0A, 0x0D, 0x0A, 0, 0x0D, 0x0A, 0x51, 0x55, 0x49, 0x54, 0x0A].take(4) =~= seq![0x0Du8, 0x0A, 0x0D, 0x0A]);
    }
}

/// Whole negotiations, told by the bytes that the client sends: a header or none, `k`
/// GSSENCRequests, one packet that is none, and anything behind it. Each GSSENCRequest
/// gets an "N"; an SSLRequest gets an "S" and leads to a splice with that header; the
/// rest gets no answer and ends as its bytes say. Nothing behind the packet is read.
pub proof fn conversations_end_as_their_bytes_say(
    header: Option<Seq<u8>>,
    k: nat,
    last: Seq<u8>,
    rest: Seq<u8>,
)
    requires
        last.len() == 8,
        last != seq![0u8, 0, 0, 8, 0x04, 0xd2, 0x16, 0x30],
        header matches Some(h) ==> h.len() >= 16 && h.take(12)
            == seq![0x0Du8, 0x0A, 0x0D, 0x0A, 0, 0x0D, 0x0A, 0x51, 0x55, 0x49, 0x54, 0x0A]
            && h.len() == 16 + h[14] * 256 + h[15],
        header is None && k == 0 ==> last.take(4) != seq![0x0Du8, 0x0A, 0x0D, 0x0A],
    ensures
        ({
            let negotiated = crate::opening::header_or_empty(header)
                + repeated(seq![0u8, 0, 0, 8, 0x04, 0xd2, 0x16, 0x30], k) + last;
            let start = Transcript { received: Seq::empty(), sent: Seq::empty() };
            let (end, outcome) = converse(negotiated + rest, start);
            &&& end.received == negotiated
            &&& last == seq![0u8, 0, 0, 8, 0x04, 0xd2, 0x16, 0x2f] ==> outcome == Next::Done(
                Decision::Splice(header),
            ) && end.sent == Seq::new(k, |i: int| 0x4Eu8).push(0x53)
            &&& last != seq![0u8, 0, 0, 8, 0x04, 0xd2, 0x16, 0x2f] ==> end.sent
                == Seq::new(k, |i: int| 0x4Eu8)
            &&& last[0] == 0x16 ==> outcome == Next::Done(Decision::RoutingLoop)
            &&& last[0] != 0x16 && last.take(4) != seq![0u8, 0, 0, 8] && last
                != seq![0u8, 0, 0, 16, 0x04, 0xd2, 0x16, 0x2e] ==> outcome
                == Next::Done(Decision::PlaintextStartup)
            &&& last == seq![0u8, 0, 0, 16, 0x04, 0xd2, 0x16, 0x2e] || last.take(4)
                == seq![0u8, 0, 0, 8] && last != seq![0u8, 0, 0, 8, 0x04, 0xd2, 0x16, 0x2f]
                ==> outcome
                is Fail
        }),
{
    crate::opening::signature_bytes();
    crate::packet::requests_are_told_by_their_bytes(last);
    assert(crate::packet::gss_enc_request() =~= seq![0u8, 0, 0, 8, 0x04, 0xd2, 0x16, 0x30]);
    negotiation_ends_as_asked(header, k, last, rest);
    assert(declines(k) =~= Seq::new(k, |i: int| 0x4Eu8));
}

} // verus!
