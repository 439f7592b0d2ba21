//! The ErrorResponse message, by which a client learns why it was turned away.

use vstd::prelude::*;
use vstd::string::*;
use vstd::utf8::*;

verus! {

/// `n`, below 2^32, as four big-endian bytes.
pub open spec fn be_bytes(n: nat) -> Seq<u8> {
    seq![
        (n / 0x100_0000) as u8,
        (n / 0x1_0000 % 0x100) as u8,
        (n / 0x100 % 0x100) as u8,
        (n % 0x100) as u8,
    ]
}

/// One field of the message: its code, its text and a NUL.
pub open spec fn field(code: char, text: Seq<char>) -> Seq<u8> {
    seq![code as u8] + encode_utf8(text) + seq![0u8]
}

/// The field list of a FATAL error, with its terminator.
pub open spec fn fatal_fields(sqlstate: Seq<char>, message: Seq<char>) -> Seq<u8> {
    field('S', "FATAL"@) + field('V', "FATAL"@) + field('C', sqlstate) + field('M', message)
        + seq![0u8]
}

/// The whole message: its type byte, its length and its fields. The length counts
/// itself and the fields, in 32 bits.
pub open spec fn fatal_response(sqlstate: Seq<char>, message: Seq<char>) -> Seq<u8> {
    let body = fatal_fields(sqlstate, message);
    seq!['E' as u8] + be_bytes((4 + body.len()) % 0x1_0000_0000) + body
}

/// Appends a slice to a vector of bytes.
fn extend(out: &mut Vec<u8>, bytes: &[u8])
    ensures
        final(out)@ == old(out)@ + bytes@,
{
    out.extend_from_slice(bytes);
    assert(out@ =~= old(out)@ + bytes@);
}

/// Appends one field.
fn push_field(body: &mut Vec<u8>, code: u8, text: &str)
    ensures
        final(body)@ == old(body)@ + (seq![code] + encode_utf8(text@) + seq![0u8]),
{
    body.push(code);
    extend(body, text.as_bytes());
    body.push(0);
    assert(body@ =~= old(body)@ + (seq![code] + encode_utf8(text@) + seq![0u8]));
}

/// Builds a Postgres ErrorResponse so clients report the real reason.
pub fn write_fatal(sqlstate: &str, message: &str) -> (msg: Vec<u8>)
    ensures
        msg@ == fatal_response(sqlstate@, message@),
{
    let mut body: Vec<u8> = Vec::new();
    push_field(&mut body, 'S' as u8, "FATAL");
    push_field(&mut body, 'V' as u8, "FATAL");
    push_field(&mut body, 'C' as u8, sqlstate);
    push_field(&mut body, 'M' as u8, message);
    body.push(0);
    assert(body@ =~= fatal_fields(sqlstate@, message@));

    let length: u64 = (body.len() as u64 % 0x1_0000_0000 + 4) % 0x1_0000_0000;
    assert(length == (4 + body@.len()) % 0x1_0000_0000);
    let mut msg: Vec<u8> = Vec::new();
    msg.push('E' as u8);
    msg.push((length / 0x100_0000) as u8);
    msg.push((length / 0x1_0000 % 0x100) as u8);
    msg.push((length / 0x100 % 0x100) as u8);
    msg.push((length % 0x100) as u8);
    extend(&mut msg, body.as_slice());
    assert(msg@ =~= fatal_response(sqlstate@, message@));
    msg
}

/// How many bytes of `s` come before its first NUL; all of them if it has none.
pub open spec fn text_len(s: Seq<u8>) -> nat
    decreases s.len(),
{
    if s.len() == 0 || s[0] == 0 {
        0
    } else {
        1 + text_len(s.skip(1))
    }
}

/// Reads a field list as a client does: a code byte and a NUL-terminated text for
/// each field, then a lone NUL. `None` if the list is cut short or runs on.
pub open spec fn fields_of(body: Seq<u8>) -> Option<Seq<(u8, Seq<u8>)>>
    decreases body.len(),
{
    if body.len() == 0 {
        None
    } else if body[0] == 0 {
        if body.len() == 1 {
            Some(Seq::empty())
        } else {
            None
        }
    } else {
        let len = text_len(body.skip(1));
        if len + 2 > body.len() {
            None
        } else {
            match fields_of(body.skip(len as int + 2)) {
                Some(rest) => Some(seq![(body[0], body.subrange(1, len as int + 1))] + rest),
                None => None,
            }
        }
    }
}

/// A text without NUL characters has no zero byte in UTF-8.
proof fn utf8_without_nul(text: Seq<char>)
    requires
        !text.contains('\0'),
    ensures
        !encode_utf8(text).contains(0u8),
    decreases text.len(),
{
    if text.len() > 0 {
        let c = text[0] as u32;
        let rest = text.drop_first();
        assert(text.contains(text[0]));
        assert(forall|ch: char| rest.contains(ch) ==> text.contains(ch));
        utf8_without_nul(rest);
        char_is_scalar(text[0]);
        char_u32_cast(text[0], c);
        assert(c == 0 ==> text[0] == '\0');
        assert(c != 0);
        assert(0 < c <= 0x7F ==> (c & 0x7F) as u8 != 0) by (bit_vector);
        assert(0xC0 | ((c >> 6) & 0x1F) as u8 != 0) by (bit_vector);
        assert(0xE0 | ((c >> 12) & 0x0F) as u8 != 0) by (bit_vector);
        assert(0xF0 | ((c >> 18) & 0x7) as u8 != 0) by (bit_vector);
        assert(0x80 | (c & 0x3F) as u8 != 0) by (bit_vector);
        assert(0x80 | ((c >> 6) & 0x3F) as u8 != 0) by (bit_vector);
        assert(0x80 | ((c >> 12) & 0x3F) as u8 != 0) by (bit_vector);
        let head = encode_scalar(c);
        assert(forall|i: int| 0 <= i < head.len() ==> head[i] != 0);
        assert forall|i: int| 0 <= i < encode_utf8(text).len() implies encode_utf8(text)[i] != 0 by {
            if i >= head.len() {
                assert(encode_utf8(rest).contains(encode_utf8(rest)[i - head.len()]));
            }
        }
    }
}

/// The first NUL of a text followed by a NUL is the one that follows it.
proof fn text_ends_at_nul(text: Seq<u8>, rest: Seq<u8>)
    requires
        !text.contains(0u8),
    ensures
        text_len(text + seq![0u8] + rest) == text.len(),
    decreases text.len(),
{
    let s = text + seq![0u8] + rest;
    if text.len() > 0 {
        assert(text.contains(text[0]));
        assert(s.skip(1) =~= text.skip(1) + seq![0u8] + rest);
        assert(forall|b: u8| text.skip(1).contains(b) ==> text.contains(b));
        text_ends_at_nul(text.skip(1), rest);
    }
}

/// Reading a field list takes its first field off.
proof fn first_field_reads_back(code: char, text: Seq<char>, rest: Seq<u8>)
    requires
        0 < code as u8,
        !text.contains('\0'),
        fields_of(rest) is Some,
    ensures
        fields_of(field(code, text) + rest) == Some(
            seq![(code as u8, encode_utf8(text))] + fields_of(rest)->0,
        ),
{
    let body = field(code, text) + rest;
    utf8_without_nul(text);
    text_ends_at_nul(encode_utf8(text), rest);
    assert(body.skip(1) =~= encode_utf8(text) + seq![0u8] + rest);
    let len = encode_utf8(text).len() as int;
    assert(body.skip(len + 2) =~= rest);
    assert(body.subrange(1, len + 1) =~= encode_utf8(text));
}

/// A client that reads the field list finds the severity twice, the SQLSTATE and
/// the message, each as it was given and nothing else, provided that neither text
/// holds the NUL by which the format ends a field.
pub proof fn fatal_fields_read_back(sqlstate: Seq<char>, message: Seq<char>)
    requires
        !sqlstate.contains('\0'),
        !message.contains('\0'),
    ensures
        fields_of(fatal_fields(sqlstate, message)) == Some(
            seq![
                ('S' as u8, encode_utf8("FATAL"@)),
                ('V' as u8, encode_utf8("FATAL"@)),
                ('C' as u8, encode_utf8(sqlstate)),
                ('M' as u8, encode_utf8(message)),
            ],
        ),
{
    reveal_strlit("FATAL");
    let end = seq![0u8];
    let m = field('M', message) + end;
    let c = field('C', sqlstate) + m;
    let v = field('V', "FATAL"@) + c;
    let s = field('S', "FATAL"@) + v;
    assert(fields_of(end) == Some(Seq::<(u8, Seq<u8>)>::empty()));
    first_field_reads_back('M', message, end);
    first_field_reads_back('C', sqlstate, m);
    first_field_reads_back('V', "FATAL"@, c);
    first_field_reads_back('S', "FATAL"@, v);
    assert(s =~= fatal_fields(sqlstate, message));
    assert(fields_of(s)->0 =~= seq![
        ('S' as u8, encode_utf8("FATAL"@)),
        ('V' as u8, encode_utf8("FATAL"@)),
        ('C' as u8, encode_utf8(sqlstate)),
        ('M' as u8, encode_utf8(message)),
    ]);
}

/// The message delimits itself: the length behind the type byte counts everything
/// but that byte, for every message whose length 32 bits can hold.
pub proof fn fatal_response_delimits_itself(sqlstate: Seq<char>, message: Seq<char>)
    requires
        4 + fatal_fields(sqlstate, message).len() < 0x1_0000_0000,
    ensures
        fatal_response(sqlstate, message)[0] == 'E' as u8,
        crate::packet::be_u32_value(fatal_response(sqlstate, message).skip(1)) + 1 == fatal_response(
            sqlstate,
            message,
        ).len(),
        fatal_response(sqlstate, message).skip(5) == fatal_fields(sqlstate, message),
{
    let body = fatal_fields(sqlstate, message);
    let msg = fatal_response(sqlstate, message);
    let n: nat = 4 + body.len();
    assert(n % 0x1_0000_0000 == n);
    assert(msg.skip(5) =~= body);
    let tail = msg.skip(1);
    assert(tail[0] == (n / 0x100_0000) as u8);
    assert(tail[1] == (n / 0x1_0000 % 0x100) as u8);
    assert(tail[2] == (n / 0x100 % 0x100) as u8);
    assert(tail[3] == (n % 0x100) as u8);
}

/// A field behind another is set off from it by the NUL that ends the other.
proof fn next_field_follows_nul(before: Seq<u8>, code: u8, text: Seq<u8>)
    ensures
        before + seq![0u8] + (seq![code] + text + seq![0u8]) == before + seq![0u8, code] + text
            + seq![0u8],
{
    assert(before + seq![0u8] + (seq![code] + text + seq![0u8]) =~= before + seq![0u8, code] + text
        + seq![0u8]);
}

/// Four big-endian bytes are the number that they were made of.
proof fn be_bytes_read_back(n: nat)
    requires
        n < 0x1_0000_0000,
    ensures
        be_bytes(n).len() == 4,
        be_bytes(n)[0] * 16777216 + be_bytes(n)[1] * 65536 + be_bytes(n)[2] * 256 + be_bytes(n)[3]
            == n,
{
}

/// The message, byte for byte, whatever the texts: an "E", the length of all that
/// follows, and the four fields, each a letter, a text in UTF-8 and a NUL, with one more
/// NUL at the end.
pub proof fn fatal_responses_are_laid_out(sqlstate: &str, message: &str, msg: Vec<u8>)
    requires
        call_ensures(write_fatal, (sqlstate, message), msg),
    ensures
        msg@.len() >= 5,
        msg@[0] == 0x45,
        msg@[1] * 16777216 + msg@[2] * 65536 + msg@[3] * 256 + msg@[4] == (msg@.len() - 1)
            % 4294967296,
        msg@.skip(5) == seq![0x53u8] + encode_utf8("FATAL"@) + seq![0u8, 0x56] + encode_utf8(
            "FATAL"@,
        ) + seq![0u8, 0x43] + encode_utf8(sqlstate@) + seq![0u8, 0x4D] + encode_utf8(message@)
            + seq![0u8, 0],
{
    let body = fatal_fields(sqlstate@, message@);
    let n: nat = (4 + body.len()) % 0x1_0000_0000;
    let fatal = encode_utf8("FATAL"@);
    let state = encode_utf8(sqlstate@);
    let text = encode_utf8(message@);
    be_bytes_read_back(n);
    assert(msg@ == seq![0x45u8] + be_bytes(n) + body);
    assert(msg@.skip(5) =~= body);
    assert(msg@.subrange(1, 5) =~= be_bytes(n));
    let s = seq![0x53u8] + fatal;
    let v = s + seq![0u8, 0x56] + fatal;
    let c = v + seq![0u8, 0x43] + state;
    let m = c + seq![0u8, 0x4D] + text;
    next_field_follows_nul(s, 0x56, fatal);
    next_field_follows_nul(v, 0x43, state);
    next_field_follows_nul(c, 0x4D, text);
    assert(body == m + seq![0u8] + seq![0u8]);
    assert(m + seq![0u8] + seq![0u8] =~= m + seq![0u8, 0]);
}

} // verus!
