//! The 8-byte packets that open a PostgreSQL connection.

use vstd::prelude::*;

verus! {

/// Request codes sent in place of a protocol version in the startup packet.
pub const SSL_REQUEST_CODE: u32 = 80877103;
pub const GSS_ENC_REQUEST_CODE: u32 = 80877104;
pub const CANCEL_REQUEST_CODE: u32 = 80877102;

/// The length of every packet that asks for encryption, in bytes.
pub const PACKET_LEN: usize = 8;

/// The length of a CancelRequest, which names the session to cancel behind its code.
pub const CANCEL_REQUEST_LEN: usize = 16;

/// The first byte of a TLS handshake record.
pub const TLS_HANDSHAKE: u8 = 0x16;

/// Two bytes as a big-endian number.
pub open spec fn be_u16_value(hi: u8, lo: u8) -> int {
    hi * 0x100 + lo
}

/// The first four bytes of `b` as a big-endian number.
pub open spec fn be_u32_value(b: Seq<u8>) -> int {
    b[0] * 0x100_0000 + b[1] * 0x1_0000 + b[2] * 0x100 + b[3]
}

/// What a packet asks for, told by its first 8 bytes.
#[derive(Clone, Copy, Debug, PartialEq, Eq, Structural)]
pub enum Request {
    /// A TLS record: the packet is the start of a bare ClientHello.
    ClientHello,
    /// The start of a startup packet, whose first field is its own length.
    Startup,
    /// GSSENCRequest.
    GssEncryption,
    /// SSLRequest.
    Ssl,
    /// A CancelRequest, or a negotiation packet with any other code.
    Unroutable(u32),
}

/// What `packet` asks for. A packet whose length field is 8 is told by its code, and
/// so is a CancelRequest, which is longer; any other never meant to negotiate.
pub open spec fn request_of(packet: Seq<u8>) -> Request {
    let length = be_u32_value(packet);
    let code = be_u32_value(packet.skip(4));
    if length == CANCEL_REQUEST_LEN && code == CANCEL_REQUEST_CODE {
        Request::Unroutable(CANCEL_REQUEST_CODE)
    } else if length != PACKET_LEN {
        if packet[0] == TLS_HANDSHAKE {
            Request::ClientHello
        } else {
            Request::Startup
        }
    } else if code == GSS_ENC_REQUEST_CODE {
        Request::GssEncryption
    } else if code == SSL_REQUEST_CODE {
        Request::Ssl
    } else {
        Request::Unroutable(code as u32)
    }
}

/// Two bytes read as a big-endian number.
pub fn be_u16(hi: u8, lo: u8) -> (r: u16)
    ensures
        r == be_u16_value(hi, lo),
{
    hi as u16 * 0x100 + lo as u16
}

/// Four bytes of `b`, from `at` on, read as a big-endian number.
pub fn be_u32(b: &[u8], at: usize) -> (r: u32)
    requires
        at + 4 <= b@.len(),
    ensures
        r == be_u32_value(b@.skip(at as int)),
{
    b[at] as u32 * 0x100_0000 + b[at + 1] as u32 * 0x1_0000 + b[at + 2] as u32 * 0x100
        + b[at + 3] as u32
}

/// Reads what a packet asks for.
pub fn classify(packet: &[u8]) -> (r: Request)
    requires
        packet@.len() == PACKET_LEN,
    ensures
        r == request_of(packet@),
{
    let length = be_u32(packet, 0);
    let code = be_u32(packet, 4);
    assert(packet@.skip(0) =~= packet@);
    if length == 16 && code == CANCEL_REQUEST_CODE {
        Request::Unroutable(CANCEL_REQUEST_CODE)
    } else if length != 8 {
        if packet[0] == TLS_HANDSHAKE {
            Request::ClientHello
        } else {
            Request::Startup
        }
    } else if code == GSS_ENC_REQUEST_CODE {
        Request::GssEncryption
    } else if code == SSL_REQUEST_CODE {
        Request::Ssl
    } else {
        Request::Unroutable(code)
    }
}

/// The bytes of the one packet that is an SSLRequest.
pub open spec fn ssl_request() -> Seq<u8> {
    seq![0u8, 0, 0, 8, 0x04, 0xd2, 0x16, 0x2f]
}

/// The bytes of the one packet that is a GSSENCRequest.
pub open spec fn gss_enc_request() -> Seq<u8> {
    seq![0u8, 0, 0, 8, 0x04, 0xd2, 0x16, 0x30]
}

/// A packet is accepted as an SSLRequest only if it is that request byte for
/// byte, and declined as a GSSENCRequest only if it is that one.
pub proof fn requests_are_exact(packet: Seq<u8>)
    requires
        packet.len() == PACKET_LEN,
    ensures
        request_of(packet) == Request::Ssl <==> packet == ssl_request(),
        request_of(packet) == Request::GssEncryption <==> packet == gss_enc_request(),
{
    let tail = packet.skip(4);
    assert(be_u32_value(tail) == packet[4] * 0x100_0000 + packet[5] * 0x1_0000 + packet[6] * 0x100
        + packet[7]);
    if request_of(packet) == Request::Ssl {
        assert(packet =~= ssl_request());
    }
    if request_of(packet) == Request::GssEncryption {
        assert(packet =~= gss_enc_request());
    }
}

/// The first bytes of every CancelRequest.
pub open spec fn cancel_request() -> Seq<u8> {
    seq![0u8, 0, 0, 16, 0x04, 0xd2, 0x16, 0x2e]
}

/// A CancelRequest carries nothing to route by and is told from a startup packet,
/// although its length field is not that of a negotiation packet either. No other
/// packet of its length is taken for one.
pub proof fn cancel_requests_are_unroutable(packet: Seq<u8>)
    requires
        packet.len() == PACKET_LEN,
        be_u32_value(packet) == CANCEL_REQUEST_LEN,
    ensures
        request_of(packet) == Request::Unroutable(CANCEL_REQUEST_CODE) <==> packet
            == cancel_request(),
        request_of(packet) == Request::Startup <==> packet != cancel_request(),
{
    let tail = packet.skip(4);
    assert(be_u32_value(tail) == packet[4] * 0x100_0000 + packet[5] * 0x1_0000 + packet[6] * 0x100
        + packet[7]);
    if request_of(packet) == Request::Unroutable(CANCEL_REQUEST_CODE) {
        assert(packet =~= cancel_request());
    }
}

/// A TLS record is never mistaken for anything else: its first byte makes the length
/// field far greater than that of any request.
pub proof fn tls_record_is_client_hello(packet: Seq<u8>)
    requires
        packet.len() == PACKET_LEN,
        packet[0] == TLS_HANDSHAKE,
    ensures
        request_of(packet) == Request::ClientHello,
{
}

/// Numbers come most significant byte first.
pub proof fn numbers_are_big_endian(hi: u8, lo: u8, short: u16, b: &[u8], at: usize, long: u32)
    requires
        call_ensures(be_u16, (hi, lo), short),
        at + 4 <= b@.len(),
        call_ensures(be_u32, (b, at), long),
    ensures
        short == hi * 256 + lo,
        long == b@[at as int] * 16777216 + b@[at + 1] * 65536 + b@[at + 2] * 256 + b@[at + 3],
{
}

/// What each packet is taken for, byte by byte. A TLS record is told by its first byte;
/// an SSLRequest and a GSSENCRequest by all eight. Of the other packets that declare
/// their length as 8, each is unroutable by the code that it holds, and so is the start
/// of a CancelRequest, which declares 16. Whatever is left is a startup packet, however
/// long it declares itself to be.
pub proof fn requests_are_told_by_their_bytes(packet: Seq<u8>)
    requires
        packet.len() == 8,
    ensures
        request_of(packet) == Request::ClientHello <==> packet[0] == 0x16,
        request_of(packet) == Request::Ssl <==> packet
            == seq![0u8, 0, 0, 8, 0x04, 0xd2, 0x16, 0x2f],
        request_of(packet) == Request::GssEncryption <==> packet
            == seq![0u8, 0, 0, 8, 0x04, 0xd2, 0x16, 0x30],
        request_of(packet) is Unroutable <==> {
            ||| packet == seq![0u8, 0, 0, 16, 0x04, 0xd2, 0x16, 0x2e]
            ||| packet.take(4) == seq![0u8, 0, 0, 8] && packet
                != seq![0u8, 0, 0, 8, 0x04, 0xd2, 0x16, 0x2f] && packet
                != seq![0u8, 0, 0, 8, 0x04, 0xd2, 0x16, 0x30]
        },
        request_of(packet) matches Request::Unroutable(code) ==> code == packet[4] * 16777216
            + packet[5] * 65536
            + packet[6] * 256 + packet[7],
        request_of(packet) == Request::Startup <==> packet[0] != 0x16 && packet.take(4)
            != seq![0u8, 0, 0, 8] && packet
            != seq![0u8, 0, 0, 16, 0x04, 0xd2, 0x16, 0x2e],
{
    let p = packet;
    assert(be_u32_value(p.skip(4)) == p[4] * 0x100_0000 + p[5] * 0x1_0000 + p[6] * 0x100 + p[7]);
    assert(p.take(4) =~= seq![0u8, 0, 0, 8] <==> be_u32_value(p) == 8);
    assert(p =~= seq![0u8, 0, 0, 8, 0x04, 0xd2, 0x16, 0x2f] <==> be_u32_value(p) == 8
        && be_u32_value(
        p.skip(4),
    ) == 0x04d2_162f);
    assert(p =~= seq![0u8, 0, 0, 8, 0x04, 0xd2, 0x16, 0x30] <==> be_u32_value(p) == 8
        && be_u32_value(
        p.skip(4),
    ) == 0x04d2_1630);
    assert(p =~= seq![0u8, 0, 0, 16, 0x04, 0xd2, 0x16, 0x2e] <==> be_u32_value(p) == 16
        && be_u32_value(
        p.skip(4),
    ) == 0x04d2_162e);
}

/// The same of what [`classify`] answers, and it answers for every eight bytes.
pub proof fn packets_are_told_by_their_bytes(packet: &[u8], r: Request)
    requires
        packet@.len() == 8,
        call_ensures(classify, (packet,), r),
    ensures
        call_requires(classify, (packet,)),
        r == Request::ClientHello <==> packet@[0] == 0x16,
        r == Request::Ssl <==> packet@ == seq![0u8, 0, 0, 8, 0x04, 0xd2, 0x16, 0x2f],
        r == Request::GssEncryption <==> packet@ == seq![0u8, 0, 0, 8, 0x04, 0xd2, 0x16, 0x30],
        r is Unroutable <==> {
            ||| packet@ == seq![0u8, 0, 0, 16, 0x04, 0xd2, 0x16, 0x2e]
            ||| packet@.take(4) == seq![0u8, 0, 0, 8] && packet@
                != seq![0u8, 0, 0, 8, 0x04, 0xd2, 0x16, 0x2f] && packet@
                != seq![0u8, 0, 0, 8, 0x04, 0xd2, 0x16, 0x30]
        },
        r matches Request::Unroutable(code) ==> code == packet@[4] * 16777216 + packet@[5] * 65536
            + packet@[6] * 256 + packet@[7],
        r == Request::Startup <==> packet@[0] != 0x16 && packet@.take(4) != seq![0u8, 0, 0, 8]
            && packet@
            != seq![0u8, 0, 0, 16, 0x04, 0xd2, 0x16, 0x2e],
{
    requests_are_told_by_their_bytes(packet@);
}

} // verus!
