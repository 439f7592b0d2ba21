//! What a connection opens with: a PROXY protocol v2 header or none, and behind it
//! the client's first packet.

use crate::error::{ctx, Error, ErrorKind, Fault};
use crate::packet::{be_u16, PACKET_LEN};
use vstd::prelude::*;
use vstd::string::*;

verus! {

/// Opens every PROXY protocol v2 header. The gateway sends one so the shim can
/// learn who the real client is; the shim replays it upstream so the gateway can
/// attribute the re-entered connection to that client rather than to this pod.
/// Without it, every connection using the two-phase handshake would appear to
/// come from the pod network and would sail through any address-based policy.
pub const PROXY_V2_SIGNATURE: [u8; 12] = [
    0x0D,
    0x0A,
    0x0D,
    0x0A,
    0x00,
    0x0D,
    0x0A,
    0x51,
    0x55,
    0x49,
    0x54,
    0x0A,
];

/// How many bytes tell a header from a packet.
pub const PREFIX_LEN: usize = 4;

/// The length of a header without its address block.
pub const HEADER_LEN: usize = 16;

/// Whether `s` starts as a header does.
pub open spec fn starts_header(s: Seq<u8>) -> bool {
    s.len() >= PREFIX_LEN && s.take(PREFIX_LEN as int) =~= PROXY_V2_SIGNATURE@.take(
        PREFIX_LEN as int,
    )
}

/// Whether `s` starts with the whole signature.
pub open spec fn signed(s: Seq<u8>) -> bool {
    s.len() >= 12 && s.take(12) =~= PROXY_V2_SIGNATURE@
}

/// The length of the header that `s` starts with, its address block counted.
pub open spec fn header_len(s: Seq<u8>) -> int {
    HEADER_LEN + crate::packet::be_u16_value(s[14], s[15])
}

/// The length of the opening that `s` starts with.
pub open spec fn opening_len(s: Seq<u8>) -> int {
    if starts_header(s) {
        header_len(s) + PACKET_LEN
    } else {
        PACKET_LEN as int
    }
}

/// Whether `h` is one whole header.
pub open spec fn is_proxy_header(h: Seq<u8>) -> bool {
    h.len() >= HEADER_LEN && signed(h) && h.len() == header_len(h)
}

/// The bytes of a header that may be absent.
pub open spec fn header_bytes(header: Option<Vec<u8>>) -> Option<Seq<u8>> {
    match header {
        Some(h) => Some(h@),
        None => None,
    }
}

/// How far an opening has come.
pub enum Progress {
    /// More bytes are needed.
    Partial,
    /// The bytes start as a header does but are none.
    Malformed,
    /// The opening is there: its header, if it has one, and the first packet.
    Complete(Option<Seq<u8>>, Seq<u8>),
}

/// What is known of the opening of a connection that starts with `s`.
pub open spec fn progress(s: Seq<u8>) -> Progress {
    if starts_header(s) {
        if s.len() < HEADER_LEN {
            Progress::Partial
        } else if !signed(s) {
            Progress::Malformed
        } else if s.len() < opening_len(s) {
            Progress::Partial
        } else {
            Progress::Complete(
                Some(s.take(header_len(s))),
                s.subrange(header_len(s), opening_len(s)),
            )
        }
    } else if s.len() < PACKET_LEN {
        Progress::Partial
    } else {
        Progress::Complete(None, s.take(PACKET_LEN as int))
    }
}

/// Where the next read ends, after the bytes `s` of an unfinished opening: never
/// beyond what `s` shows to be there.
pub open spec fn next_stop(s: Seq<u8>) -> int {
    if s.len() < PREFIX_LEN {
        PREFIX_LEN as int
    } else if !starts_header(s) {
        PACKET_LEN as int
    } else if s.len() < HEADER_LEN {
        HEADER_LEN as int
    } else if s.len() < header_len(s) {
        header_len(s)
    } else {
        opening_len(s)
    }
}

/// Whether reading stops after `s` on the way to a whole opening.
pub open spec fn is_stop(s: Seq<u8>) -> bool {
    ||| s.len() == 0
    ||| s.len() == PREFIX_LEN
    ||| starts_header(s) && signed(s) && (s.len() == HEADER_LEN || s.len() > HEADER_LEN && s.len()
        == header_len(s))
}

/// What is being read after `s`.
pub open spec fn reading(s: Seq<u8>) -> Seq<char> {
    if s.len() < PREFIX_LEN {
        "reading connection opening"@
    } else if !starts_header(s) {
        "reading negotiation packet"@
    } else if s.len() < HEADER_LEN {
        "reading proxy protocol header"@
    } else if s.len() < header_len(s) {
        "reading proxy protocol address block"@
    } else {
        "reading negotiation packet"@
    }
}

/// The failure on bytes that start as a header does but are none.
pub open spec fn malformed_signature() -> Fault {
    Fault { kind: ErrorKind::Other, message: "malformed proxy protocol signature"@ }
}

/// An opening of which the bytes so far have been read.
///
/// It commits to only four bytes before deciding which of the two it is reading:
/// a client using the two-phase handshake sends exactly 8 bytes and then waits,
/// so demanding a full 16-byte header up front would deadlock against a client
/// that was never going to send one. Four bytes is what both openings always
/// have, and they are unambiguous -- a header starts 0x0D0A0D0A, a negotiation
/// packet starts with its length.
pub struct Opening {
    received: Vec<u8>,
}

/// What reading on has brought.
pub enum OpeningStep {
    /// The opening goes on.
    More(Opening),
    /// The header, verbatim for replay upstream, and the first packet behind it.
    Opened { header: Option<Vec<u8>>, packet: Vec<u8> },
    /// The connection cannot go on.
    Failed(Error),
}

impl View for Opening {
    type V = Seq<u8>;

    /// The bytes read so far.
    closed spec fn view(&self) -> Seq<u8> {
        self.received@
    }
}

/// Whether `bytes` starts with the first `n` bytes of the signature.
fn matches_signature(bytes: &[u8], n: usize) -> (r: bool)
    requires
        n <= 12,
        n <= bytes@.len(),
    ensures
        r == (bytes@.take(n as int) =~= PROXY_V2_SIGNATURE@.take(n as int)),
{
    let signature = PROXY_V2_SIGNATURE;
    let mut i: usize = 0;
    while i < n
        invariant
            i <= n <= 12,
            n <= bytes@.len(),
            signature == PROXY_V2_SIGNATURE,
            bytes@.take(i as int) =~= PROXY_V2_SIGNATURE@.take(i as int),
        decreases n - i,
    {
        if bytes[i] != signature[i] {
            proof {
                assert(bytes@.take(n as int)[i as int] == bytes@[i as int]);
                assert(PROXY_V2_SIGNATURE@.take(n as int)[i as int] == PROXY_V2_SIGNATURE@[i as int]);
            }
            return false;
        }
        proof {
            assert(bytes@.take(i + 1) =~= bytes@.take(i as int).push(bytes@[i as int]));
            assert(PROXY_V2_SIGNATURE@.take(i + 1) =~= PROXY_V2_SIGNATURE@.take(i as int).push(
                PROXY_V2_SIGNATURE@[i as int],
            ));
        }
        i += 1;
    }
    true
}

impl Opening {
    #[verifier::type_invariant]
    spec fn stopped(self) -> bool {
        is_stop(self.received@)
    }

    /// An opening of which nothing has been read.
    pub fn new() -> (r: Opening)
        ensures
            r@ == Seq::<u8>::empty(),
    {
        Opening { received: Vec::new() }
    }

    /// How many bytes to read next.
    pub fn wanted(&self) -> (r: usize)
        ensures
            r == next_stop(self@) - self@.len(),
            r > 0,
            is_stop(self@),
    {
        proof {
            use_type_invariant(self);
        }
        let n = self.received.len();
        if n < PREFIX_LEN {
            PREFIX_LEN
        } else if !matches_signature(self.received.as_slice(), PREFIX_LEN) {
            PACKET_LEN - n
        } else if n < HEADER_LEN {
            HEADER_LEN - n
        } else {
            let address: usize = be_u16(self.received[14], self.received[15]) as usize;
            if n < HEADER_LEN + address {
                HEADER_LEN + address - n
            } else {
                PACKET_LEN
            }
        }
    }

    /// Takes the bytes that were wanted.
    pub fn resume(self, bytes: Vec<u8>) -> (r: OpeningStep)
        requires
            bytes@.len() == next_stop(self@) - self@.len(),
        ensures
            match progress(self@ + bytes@) {
                Progress::Partial => r is More && r->More_0@ == self@ + bytes@ && is_stop(
                    self@ + bytes@,
                ),
                Progress::Malformed => r is Failed && r->Failed_0@ == malformed_signature(),
                Progress::Complete(header, packet) => r is Opened && header_bytes(r->header) == header
                    && r->packet@ == packet,
            },
    {
        proof {
            use_type_invariant(&self);
        }
        let mut received = self.received;
        let mut bytes = bytes;
        received.append(&mut bytes);
        let n = received.len();
        if !matches_signature(received.as_slice(), PREFIX_LEN) {
            if n < PACKET_LEN {
                OpeningStep::More(Opening { received })
            } else {
                assert(received@.take(8) =~= received@);
                OpeningStep::Opened { header: None, packet: received }
            }
        } else if n < HEADER_LEN {
            OpeningStep::More(Opening { received })
        } else if !matches_signature(received.as_slice(), 12) {
            OpeningStep::Failed(Error::other("malformed proxy protocol signature"))
        } else {
            let address: usize = be_u16(received[14], received[15]) as usize;
            if n < HEADER_LEN + address + PACKET_LEN {
                OpeningStep::More(Opening { received })
            } else {
                let packet = received.split_off(HEADER_LEN + address);
                OpeningStep::Opened { header: Some(received), packet }
            }
        }
    }

    /// Describes a failure to read what was wanted.
    pub fn failed(&self, err: Error) -> (r: Error)
        ensures
            r@ == crate::error::described(reading(self@), err@),
    {
        proof {
            use_type_invariant(self);
        }
        let n = self.received.len();
        if n < PREFIX_LEN {
            ctx("reading connection opening", err)
        } else if !matches_signature(self.received.as_slice(), PREFIX_LEN) {
            ctx("reading negotiation packet", err)
        } else if n < HEADER_LEN {
            ctx("reading proxy protocol header", err)
        } else {
            let address: usize = be_u16(self.received[14], self.received[15]) as usize;
            if n < HEADER_LEN + address {
                ctx("reading proxy protocol address block", err)
            } else {
                ctx("reading negotiation packet", err)
            }
        }
    }
}

/// The bytes that an opening with this header starts with, before its packet.
pub open spec fn header_or_empty(header: Option<Seq<u8>>) -> Seq<u8> {
    match header {
        Some(h) => h,
        None => Seq::empty(),
    }
}

/// Whether a connection may open with this header, if any, and this packet.
pub open spec fn is_opening(header: Option<Seq<u8>>, packet: Seq<u8>) -> bool {
    &&& packet.len() == PACKET_LEN
    &&& match header {
        Some(h) => is_proxy_header(h),
        None => !starts_header(packet),
    }
}

/// Every opening is taken for what it is, whatever follows it: the header comes out
/// verbatim, and so does the packet.
pub proof fn openings_are_recognised(header: Option<Seq<u8>>, packet: Seq<u8>, rest: Seq<u8>)
    requires
        is_opening(header, packet),
    ensures
        progress(header_or_empty(header) + packet + rest) == Progress::Complete(header, packet),
        opening_len(header_or_empty(header) + packet + rest) == header_or_empty(header).len()
            + PACKET_LEN,
{
    let s = header_or_empty(header) + packet + rest;
    match header {
        Some(h) => {
            assert(s.take(12) =~= h.take(12));
            assert(s.take(4) =~= s.take(12).take(4));
            assert(starts_header(s) && signed(s));
            assert(s[14] == h[14] && s[15] == h[15]);
            assert(header_len(s) == h.len());
            assert(s.take(header_len(s)) =~= h);
            assert(s.subrange(header_len(s), opening_len(s)) =~= packet);
        },
        None => {
            assert(s.take(4) =~= packet.take(4));
            assert(s.take(8) =~= packet);
        },
    }
}

/// Nothing else is taken for an opening: what is recognised is a header and a packet
/// that stand, in this order, at the start of the connection.
pub proof fn only_openings_are_recognised(s: Seq<u8>)
    requires
        progress(s) is Complete,
    ensures
        is_opening(progress(s)->Complete_0, progress(s)->Complete_1),
        s.len() >= opening_len(s),
        s.take(opening_len(s)) == header_or_empty(progress(s)->Complete_0)
            + progress(s)->Complete_1,
{
    if starts_header(s) {
        let h = s.take(header_len(s));
        assert(h.take(12) =~= s.take(12));
        assert(h[14] == s[14] && h[15] == s[15]);
        assert(s.take(opening_len(s)) =~= h + s.subrange(header_len(s), opening_len(s)));
    } else {
        let p = s.take(8);
        assert(p.take(4) =~= s.take(4));
        assert(s.take(8) =~= Seq::<u8>::empty() + p);
    }
}

/// What has been decided of an opening stands, whatever follows.
pub proof fn decisions_are_final(s: Seq<u8>, more: Seq<u8>)
    requires
        progress(s) !is Partial,
    ensures
        progress(s + more) == progress(s),
        opening_len(s + more) == opening_len(s) || progress(s) is Malformed,
{
    let t = s + more;
    assert(t.take(4) =~= s.take(4));
    if starts_header(s) {
        assert(t.take(12) =~= s.take(12));
        assert(t[14] == s[14] && t[15] == s[15]);
        if progress(s) is Complete {
            assert(t.take(header_len(s)) =~= s.take(header_len(s)));
            assert(t.subrange(header_len(s), opening_len(s)) =~= s.subrange(
                header_len(s),
                opening_len(s),
            ));
        }
    } else {
        assert(t.take(8) =~= s.take(8));
    }
}

/// No read reaches past the opening that the client is sending: it ends inside every
/// opening that goes on from the bytes read so far. So a client that sends its
/// opening and then waits is never waited for in turn.
pub proof fn reads_stay_inside_the_opening(s: Seq<u8>, more: Seq<u8>)
    requires
        is_stop(s),
        progress(s) is Partial,
        progress(s + more) is Complete,
    ensures
        s.len() < next_stop(s) <= opening_len(s + more),
{
    let t = s + more;
    if s.len() >= PREFIX_LEN {
        assert(t.take(4) =~= s.take(4));
        if s.len() >= HEADER_LEN {
            assert(t[14] == s[14] && t[15] == s[15]);
        }
    }
}

/// Four bytes tell the two openings apart: no negotiation packet, CancelRequest or TLS
/// record starts as a header does.
pub proof fn four_bytes_decide(packet: Seq<u8>)
    requires
        packet.len() >= PREFIX_LEN,
        crate::packet::be_u32_value(packet) == PACKET_LEN || crate::packet::be_u32_value(packet)
            == crate::packet::CANCEL_REQUEST_LEN || packet[0] == crate::packet::TLS_HANDSHAKE,
    ensures
        !starts_header(packet),
{
    if starts_header(packet) {
        assert(packet.take(4)[0] == PROXY_V2_SIGNATURE@.take(4)[0]);
        assert(PROXY_V2_SIGNATURE@[0] == 0x0D);
    }
}

/// The signature, byte for byte.
pub(crate) proof fn signature_bytes()
    ensures
        PROXY_V2_SIGNATURE@
            == seq![0x0Du8, 0x0A, 0x0D, 0x0A, 0, 0x0D, 0x0A, 0x51, 0x55, 0x49, 0x54, 0x0A],
        PROXY_V2_SIGNATURE@.take(4) == seq![0x0Du8, 0x0A, 0x0D, 0x0A],
{
    assert(PROXY_V2_SIGNATURE@
        =~= seq![0x0Du8, 0x0A, 0x0D, 0x0A, 0, 0x0D, 0x0A, 0x51, 0x55, 0x49, 0x54, 0x0A]);
    assert(PROXY_V2_SIGNATURE@.take(4) =~= seq![0x0Du8, 0x0A, 0x0D, 0x0A]);
}

/// A header is taken as it comes. Behind the signature stand two bytes that nobody looks
/// at, whatever version, command, family and protocol they tell of, and two that give
/// the length of the block behind them. For every such header, with a block of any
/// bytes and any length, the header comes out whole and unchanged, and so do the eight
/// bytes behind it, whatever they are and whatever follows.
pub proof fn any_signed_header_is_taken(
    version: u8,
    family: u8,
    hi: u8,
    lo: u8,
    block: Seq<u8>,
    packet: Seq<u8>,
    rest: Seq<u8>,
)
    requires
        block.len() == hi * 256 + lo,
        packet.len() == 8,
    ensures
        ({
            let header = seq![0x0Du8, 0x0A, 0x0D, 0x0A, 0, 0x0D, 0x0A, 0x51, 0x55, 0x49, 0x54, 0x0A]
                + seq![version, family, hi, lo] + block;
            progress(header + packet + rest) == Progress::Complete(Some(header), packet)
        }),
{
    let header = seq![0x0Du8, 0x0A, 0x0D, 0x0A, 0, 0x0D, 0x0A, 0x51, 0x55, 0x49, 0x54, 0x0A]
        + seq![version, family, hi, lo]
        + block;
    signature_bytes();
    assert(header.take(12) =~= PROXY_V2_SIGNATURE@);
    assert(header[14] == hi && header[15] == lo);
    openings_are_recognised(Some(header), packet, rest);
}

/// Only the signature is held against a connection: bytes are refused if they start with
/// its first four, there are enough of them for a header, and one of its twelve is
/// wrong. Nothing else of a header can be malformed.
pub proof fn only_a_wrong_signature_is_malformed(s: Seq<u8>)
    ensures
        progress(s) is Malformed <==> s.len() >= 16 && s.take(4) == seq![0x0Du8, 0x0A, 0x0D, 0x0A]
            && s.take(12)
                != seq![0x0Du8, 0x0A, 0x0D, 0x0A, 0, 0x0D, 0x0A, 0x51, 0x55, 0x49, 0x54, 0x0A],
{
    signature_bytes();
}

/// Bytes that do not start with the first four of the signature are no header: the first
/// eight are the packet, whatever they are.
pub proof fn other_bytes_are_a_packet(s: Seq<u8>)
    requires
        s.len() >= 8,
        s.take(4) != seq![0x0Du8, 0x0A, 0x0D, 0x0A],
    ensures
        progress(s) == Progress::Complete(None, s.take(8)),
{
    signature_bytes();
}

/// An opening is read in at most four steps, each as long as what is known to come: four
/// bytes; then the other four of a packet, or the other twelve of a header; then the
/// block that the header declares, if it declares any; then the packet behind it.
pub proof fn openings_are_read_in_steps(fresh: Opening, opening: Opening, first: usize, n: usize)
    requires
        call_ensures(Opening::new, (), fresh),
        call_ensures(Opening::wanted, (&fresh,), first),
        call_ensures(Opening::wanted, (&opening,), n),
    ensures
        fresh@.len() == 0,
        first == 4,
        ({
            let s = opening@;
            ||| s.len() == 0 && n == 4
            ||| s.len() == 4 && s != seq![0x0Du8, 0x0A, 0x0D, 0x0A] && n == 4
            ||| s.len() == 4 && s == seq![0x0Du8, 0x0A, 0x0D, 0x0A] && n == 12
            ||| s.len() == 16 && s[14] * 256 + s[15] > 0 && n == s[14] * 256 + s[15]
            ||| s.len() == 16 && s[14] * 256 + s[15] == 0 && n == 8
            ||| s.len() > 16 && s.len() == 16 + s[14] * 256 + s[15] && n == 8
        }),
{
    signature_bytes();
    let s = opening@;
    if s.len() == 4 {
        assert(s.take(4) =~= s);
    }
}

/// What comes of the bytes read, `s` in all. A wrong signature fails the connection. An
/// opening that is whole comes out: bytes without a signature as one packet, a header as
/// it stood with the packet behind it. Anything shorter is kept and read on.
pub proof fn openings_come_out_as_they_were_read(
    opening: Opening,
    bytes: Vec<u8>,
    step: OpeningStep,
)
    requires
        call_ensures(Opening::resume, (opening, bytes), step),
    ensures
        ({
            let s = opening@ + bytes@;
            let marked = s.len() >= 4 && s.take(4) == seq![0x0Du8, 0x0A, 0x0D, 0x0A];
            let end = 16 + s[14] * 256 + s[15];
            if !marked && s.len() < 8 || marked && s.len() < 16 {
                step matches OpeningStep::More(kept) && kept@ == s
            } else if !marked {
                step matches OpeningStep::Opened { header, packet } && header is None && packet@
                    == s.take(8)
            } else if s.take(12)
                != seq![0x0Du8, 0x0A, 0x0D, 0x0A, 0, 0x0D, 0x0A, 0x51, 0x55, 0x49, 0x54, 0x0A] {
                step matches OpeningStep::Failed(err) && err.kind == ErrorKind::Other
                    && err.message@ == "malformed proxy protocol signature"@
            } else if s.len() < end + 8 {
                step matches OpeningStep::More(kept) && kept@ == s
            } else {
                step matches OpeningStep::Opened { header, packet } && header is Some
                    && header->0@
                    == s.take(end) && packet@ == s.subrange(end, end + 8)
            }
        }),
{
    signature_bytes();
}

/// Whatever is wanted can be handed in, and a failure to read it is described by what was
/// being read; its category stays.
pub proof fn failed_reads_say_what_was_read(
    opening: Opening,
    n: usize,
    bytes: Vec<u8>,
    err: Error,
    r: Error,
)
    requires
        call_ensures(Opening::wanted, (&opening,), n),
        bytes@.len() == n,
        call_ensures(Opening::failed, (&opening, err), r),
    ensures
        call_requires(Opening::resume, (opening, bytes)),
        r.kind == err.kind,
        opening@.len() == 0 ==> r.message@ == "reading connection opening"@ + ": "@
            + err.message@,
        opening@.len() == 4 && opening@ != seq![0x0Du8, 0x0A, 0x0D, 0x0A] ==> r.message@
            == "reading negotiation packet"@ + ": "@ + err.message@,
        opening@.len() == 4 && opening@ == seq![0x0Du8, 0x0A, 0x0D, 0x0A] ==> r.message@
            == "reading proxy protocol header"@ + ": "@ + err.message@,
        opening@.len() == 16 && opening@[14] * 256 + opening@[15] > 0 ==> r.message@
            == "reading proxy protocol address block"@ + ": "@ + err.message@,
        opening@.len() == 16 && opening@[14] * 256 + opening@[15] == 0 ==> r.message@
            == "reading negotiation packet"@ + ": "@ + err.message@,
        opening@.len() > 16 ==> r.message@ == "reading negotiation packet"@ + ": "@
            + err.message@,
{
    signature_bytes();
    if opening@.len() == 4 {
        assert(opening@.take(4) =~= opening@);
    }
}

} // verus!
