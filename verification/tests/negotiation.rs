use pg_starttls::error::{Error, ErrorKind};
use pg_starttls::negotiation::{Negotiation, Outcome, Step};
use pg_starttls::opening::{Opening, OpeningStep};
use pg_starttls::packet::{be_u16, be_u32, classify, Request};

const SSL_REQUEST: [u8; 8] = [0, 0, 0, 8, 0x04, 0xd2, 0x16, 0x2f];
const GSS_ENC_REQUEST: [u8; 8] = [0, 0, 0, 8, 0x04, 0xd2, 0x16, 0x30];
const CANCEL_REQUEST: [u8; 16] = [0, 0, 0, 16, 0x04, 0xd2, 0x16, 0x2e, 0, 0, 0, 1, 0, 0, 0, 2];
const SIGNATURE: [u8; 12] = [
    0x0D, 0x0A, 0x0D, 0x0A, 0x00, 0x0D, 0x0A, 0x51, 0x55, 0x49, 0x54, 0x0A,
];

/// A header with an address block of `len` bytes.
fn header(len: u16) -> Vec<u8> {
    let mut h = SIGNATURE.to_vec();
    h.push(0x21);
    h.push(0x11);
    h.extend_from_slice(&len.to_be_bytes());
    for i in 0..len {
        h.push(i as u8);
    }
    h
}

struct Played {
    reads: Vec<usize>,
    sent: Vec<u8>,
    consumed: usize,
    end: Option<Result<Outcome, Error>>,
}

/// Plays a negotiation against a client that sends `client` and then waits.
fn play(client: &[u8]) -> Played {
    let mut played = Played { reads: vec![], sent: vec![], consumed: 0, end: None };
    let mut step = Negotiation::start();
    loop {
        step = match step {
            Step::Read { negotiation, count } => {
                played.reads.push(count);
                if played.consumed + count > client.len() {
                    return played;
                }
                let bytes = client[played.consumed..played.consumed + count].to_vec();
                played.consumed += count;
                negotiation.received(bytes)
            }
            Step::Reply { negotiation, reply } => {
                played.sent.push(reply);
                negotiation.replied()
            }
            Step::Done(outcome) => {
                played.end = Some(Ok(outcome));
                return played;
            }
            Step::Failed(err) => {
                played.end = Some(Err(err));
                return played;
            }
        };
    }
}

fn spliced(played: &Played) -> Option<Vec<u8>> {
    match &played.end {
        Some(Ok(Outcome::Splice(header))) => header.clone(),
        _ => panic!("not spliced"),
    }
}

fn failure(played: Played) -> Error {
    match played.end {
        Some(Err(err)) => err,
        _ => panic!("not failed"),
    }
}

#[test]
fn ssl_request_is_accepted() {
    let played = play(&SSL_REQUEST);
    assert_eq!(played.sent, b"S".to_vec());
    assert_eq!(played.reads, vec![4, 4]);
    assert_eq!(spliced(&played), None);
}

#[test]
fn tls_stream_is_left_alone() {
    let mut client = header(12);
    client.extend_from_slice(&GSS_ENC_REQUEST);
    client.extend_from_slice(&SSL_REQUEST);
    let negotiated = client.len();
    client.extend_from_slice(&[0x16, 0x03, 0x01, 0x02, 0x00]);
    let played = play(&client);
    assert_eq!(played.consumed, negotiated);
    assert_eq!(played.sent, b"NS".to_vec());
    assert_eq!(played.reads, vec![4, 12, 12, 8, 8]);
    assert_eq!(spliced(&played), Some(header(12)));
}

#[test]
fn gss_requests_are_declined_one_by_one() {
    let mut client = vec![];
    for _ in 0..5 {
        client.extend_from_slice(&GSS_ENC_REQUEST);
    }
    let waiting = play(&client);
    assert_eq!(waiting.sent, b"NNNNN".to_vec());
    assert_eq!(waiting.consumed, 40);
    assert!(waiting.end.is_none());
    client.extend_from_slice(&SSL_REQUEST);
    let played = play(&client);
    assert_eq!(played.sent, b"NNNNNS".to_vec());
    assert_eq!(played.consumed, 48);
    assert_eq!(spliced(&played), None);
}

#[test]
fn header_without_addresses() {
    let mut client = header(0);
    client.extend_from_slice(&SSL_REQUEST);
    let played = play(&client);
    assert_eq!(played.reads, vec![4, 12, 8]);
    assert_eq!(spliced(&played), Some(header(0)));
}

#[test]
fn longest_header() {
    let mut client = header(65535);
    client.extend_from_slice(&SSL_REQUEST);
    let played = play(&client);
    assert_eq!(played.reads, vec![4, 12, 65535, 8]);
    assert_eq!(spliced(&played), Some(header(65535)));
}

#[test]
fn client_hello_is_a_routing_loop() {
    let played = play(&[0x16, 0x03, 0x01, 0x02, 0x00, 0x01, 0x00, 0x01, 0xfc]);
    assert_eq!(played.consumed, 8);
    assert!(played.sent.is_empty());
    assert!(matches!(played.end, Some(Ok(Outcome::RoutingLoop))));
}

#[test]
fn client_hello_behind_a_header_is_a_routing_loop() {
    let mut client = header(4);
    client.extend_from_slice(&[0x16, 0x03, 0x01, 0x02, 0x00, 0x01, 0x00, 0x01]);
    let played = play(&client);
    assert!(played.sent.is_empty());
    assert!(matches!(played.end, Some(Ok(Outcome::RoutingLoop))));
}

#[test]
fn startup_packet_is_plaintext() {
    let played = play(&[0, 0, 0, 0x54, 0, 3, 0, 0, b'u']);
    assert_eq!(played.consumed, 8);
    assert!(played.sent.is_empty());
    assert!(matches!(played.end, Some(Ok(Outcome::PlaintextStartup))));
}

#[test]
fn startup_after_a_declined_request_is_plaintext() {
    let mut client = GSS_ENC_REQUEST.to_vec();
    client.extend_from_slice(&[0, 0, 0, 0x54, 0, 3, 0, 0]);
    let played = play(&client);
    assert_eq!(played.sent, b"N".to_vec());
    assert!(matches!(played.end, Some(Ok(Outcome::PlaintextStartup))));
}

#[test]
fn cancel_request_is_unroutable() {
    let played = play(&CANCEL_REQUEST);
    assert_eq!(played.consumed, 8);
    assert!(played.sent.is_empty());
    let err = failure(played);
    assert_eq!(err.kind, ErrorKind::Other);
    assert_eq!(err.message, "unroutable negotiation packet with code 80877102");
}

#[test]
fn cancel_request_behind_a_header_is_unroutable() {
    let mut client = header(12);
    client.extend_from_slice(&CANCEL_REQUEST);
    let played = play(&client);
    assert!(played.sent.is_empty());
    let err = failure(played);
    assert_eq!(err.message, "unroutable negotiation packet with code 80877102");
}

#[test]
fn startup_packet_as_long_as_a_cancel_request_is_plaintext() {
    let played = play(&[0, 0, 0, 16, 0, 3, 0, 0, b'u', 0, b'a', 0, 0, 0, 0, 0]);
    assert!(matches!(played.end, Some(Ok(Outcome::PlaintextStartup))));
}

#[test]
fn code_of_a_cancel_request_in_another_length() {
    let err = failure(play(&[0, 0, 0, 8, 0x04, 0xd2, 0x16, 0x2e]));
    assert_eq!(err.message, "unroutable negotiation packet with code 80877102");
    let played = play(&[0, 0, 0, 17, 0x04, 0xd2, 0x16, 0x2e]);
    assert!(matches!(played.end, Some(Ok(Outcome::PlaintextStartup))));
}

#[test]
fn code_zero_is_unroutable() {
    let err = failure(play(&[0, 0, 0, 8, 0, 0, 0, 0]));
    assert_eq!(err.message, "unroutable negotiation packet with code 0");
}

#[test]
fn greatest_code_is_unroutable() {
    let err = failure(play(&[0, 0, 0, 8, 0xff, 0xff, 0xff, 0xff]));
    assert_eq!(err.message, "unroutable negotiation packet with code 4294967295");
}

#[test]
fn malformed_signature_is_refused() {
    let mut client = header(0);
    client[11] = 0x0B;
    client.extend_from_slice(&SSL_REQUEST);
    let played = play(&client);
    assert_eq!(played.consumed, 16);
    assert!(played.sent.is_empty());
    let err = failure(played);
    assert_eq!(err.kind, ErrorKind::Other);
    assert_eq!(err.message, "malformed proxy protocol signature");
}

/// The description of a failure after `client` has been read.
fn failing_after(client: &[u8]) -> String {
    let mut consumed = 0;
    let mut step = Negotiation::start();
    loop {
        step = match step {
            Step::Read { negotiation, count } => {
                if consumed + count > client.len() {
                    let err = Error::new(ErrorKind::UnexpectedEof, "early eof");
                    let err = negotiation.failed(err);
                    assert_eq!(err.kind, ErrorKind::UnexpectedEof);
                    return err.message;
                }
                let bytes = client[consumed..consumed + count].to_vec();
                consumed += count;
                negotiation.received(bytes)
            }
            Step::Reply { negotiation, .. } => {
                if consumed == client.len() {
                    let err = Error::new(ErrorKind::BrokenPipe, "broken pipe");
                    let err = negotiation.failed(err);
                    assert_eq!(err.kind, ErrorKind::BrokenPipe);
                    return err.message;
                }
                negotiation.replied()
            }
            _ => panic!("over"),
        };
    }
}

#[test]
fn failures_say_what_was_going_on() {
    assert_eq!(failing_after(&[]), "reading connection opening: early eof");
    assert_eq!(failing_after(&[0, 0, 0, 8]), "reading negotiation packet: early eof");
    let whole = header(7);
    assert_eq!(failing_after(&whole[..4]), "reading proxy protocol header: early eof");
    assert_eq!(failing_after(&whole[..16]), "reading proxy protocol address block: early eof");
    assert_eq!(failing_after(&whole), "reading negotiation packet: early eof");
    assert_eq!(failing_after(&GSS_ENC_REQUEST), "declining GSSENCRequest: broken pipe");
    assert_eq!(failing_after(&SSL_REQUEST), "accepting SSLRequest: broken pipe");
}

#[test]
fn failure_after_a_declined_request() {
    let mut client = GSS_ENC_REQUEST.to_vec();
    client.push(0);
    assert_eq!(failing_after(&client), "reading negotiation packet: early eof");
}

#[test]
fn opening_is_read_in_pieces() {
    let opening = Opening::new();
    assert_eq!(opening.wanted(), 4);
    let opening = match opening.resume(vec![0x0D, 0x0A, 0x0D, 0x0A]) {
        OpeningStep::More(opening) => opening,
        _ => panic!("decided"),
    };
    assert_eq!(opening.wanted(), 12);
    let opening = match opening.resume(header(2)[4..16].to_vec()) {
        OpeningStep::More(opening) => opening,
        _ => panic!("decided"),
    };
    assert_eq!(opening.wanted(), 2);
    let opening = match opening.resume(vec![0, 1]) {
        OpeningStep::More(opening) => opening,
        _ => panic!("decided"),
    };
    assert_eq!(opening.wanted(), 8);
    match opening.resume(SSL_REQUEST.to_vec()) {
        OpeningStep::Opened { header: Some(h), packet } => {
            assert_eq!(h, header(2));
            assert_eq!(packet, SSL_REQUEST.to_vec());
        }
        _ => panic!("not opened"),
    }
}

#[test]
fn packets_are_told_by_length_and_code() {
    assert_eq!(classify(&SSL_REQUEST), Request::Ssl);
    assert_eq!(classify(&GSS_ENC_REQUEST), Request::GssEncryption);
    assert_eq!(classify(&CANCEL_REQUEST[..8]), Request::Unroutable(80877102));
    assert_eq!(classify(&[0x16, 3, 1, 0, 0, 0, 0, 0]), Request::ClientHello);
    assert_eq!(classify(&[0, 0, 0, 9, 0x04, 0xd2, 0x16, 0x2f]), Request::Startup);
}

#[test]
fn big_endian_numbers() {
    assert_eq!(be_u16(0x12, 0x34), 0x1234);
    assert_eq!(be_u32(&[9, 0x12, 0x34, 0x56, 0x78], 1), 0x12345678);
    assert_eq!(be_u32(&[0xff, 0xff, 0xff, 0xff], 0), u32::MAX);
}
