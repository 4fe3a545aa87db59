//! Frames: a message's JSON text as UTF-8 bytes, padded with zero bytes to
//! `MEG_SIZE`; a receiver reads the bytes before the first zero.

use vstd::prelude::*;
use vstd::utf8::{decode_utf8, encode_scalar, encode_utf8, valid_utf8};
use crate::backend::MEG_SIZE;
use crate::backend::libs::json_text::encodes_fields;
use crate::backend::libs::message::{
    between_users, encodes_message, law_message_text_round_trip, lemma_written_message_len, message_fields,
    message_from_text, message_text, written_message, Message, MessageView,
};
use crate::backend::libs::usergroup::target_fields;

verus! {

/// The frame of a text: its UTF-8 bytes, cut to `MEG_SIZE` or padded with
/// zero bytes up to it.
pub open spec fn frame_bytes(text: Seq<char>) -> Seq<u8> {
    let b = encode_utf8(text);
    if b.len() >= MEG_SIZE {
        b.take(MEG_SIZE as int)
    } else {
        b + Seq::new((MEG_SIZE - b.len()) as nat, |i: int| 0u8)
    }
}

/// The bytes of a frame before its first zero byte.
pub open spec fn payload(buf: Seq<u8>) -> Seq<u8>
    decreases buf.len(),
{
    if buf.len() == 0 || buf[0] == 0 {
        Seq::empty()
    } else {
        seq![buf[0]] + payload(buf.drop_first())
    }
}

/// The text a receiver reads from a frame, if its payload is UTF-8.
pub open spec fn frame_text(buf: Seq<u8>) -> Option<Seq<char>> {
    if valid_utf8(payload(buf)) {
        Some(decode_utf8(payload(buf)))
    } else {
        None
    }
}

/// The message a receiver takes from a frame; `None` where it gives up.
pub open spec fn frame_message(buf: Seq<u8>) -> Option<MessageView> {
    match frame_text(buf) {
        Some(t) => message_from_text(t),
        None => None,
    }
}

/// Turns bytes into a `String` with `String::from_utf8`. What is claimed
/// (the function's documentation): it succeeds exactly on valid UTF-8,
/// and then holds the characters the bytes encode.
#[verifier::external_body]
fn utf8_to_string(bytes: Vec<u8>) -> (r: Option<String>)
    ensures
        r is Some <==> valid_utf8(bytes@),
        r matches Some(s) ==> s@ == decode_utf8(bytes@),
{
    match String::from_utf8(bytes) {
        Ok(s) => Some(s),
        Err(_) => None,
    }
}

/// The frame of a text, as the server writes it.
pub fn encode_frame(text: &str) -> (r: Vec<u8>)
    ensures
        r@ == frame_bytes(text@),
{
    let mut bytes = text.as_bytes_vec();
    let len = bytes.len();
    if len >= MEG_SIZE {
        bytes.truncate(MEG_SIZE);
        proof {
            assert(bytes@ =~= frame_bytes(text@));
        }
    } else {
        let mut i = len;
        while i < MEG_SIZE
            invariant
                len <= i <= MEG_SIZE,
                bytes@.len() == i,
                bytes@ =~= encode_utf8(text@) + Seq::new((i - len) as nat, |j: int| 0u8),
            decreases MEG_SIZE - i,
        {
            bytes.push(0u8);
            i = i + 1;
        }
        proof {
            assert(bytes@ =~= frame_bytes(text@));
        }
    }
    bytes
}

/// The bytes of a frame before its first zero byte.
pub fn frame_payload(buf: &[u8]) -> (r: Vec<u8>)
    ensures
        r@ == payload(buf@),
{
    let mut r: Vec<u8> = Vec::new();
    let mut i: usize = 0;
    proof {
        assert(buf@.skip(0) =~= buf@);
        assert(r@ + payload(buf@) =~= payload(buf@));
    }
    while i < buf.len() && buf[i] != 0
        invariant
            i <= buf@.len(),
            r@ == buf@.take(i as int),
            forall|j: int| 0 <= j < i ==> buf@[j] != 0,
            payload(buf@) == r@ + payload(buf@.skip(i as int)),
        decreases buf@.len() - i,
    {
        proof {
            let rest = buf@.skip(i as int);
            assert(rest.drop_first() =~= buf@.skip(i + 1));
            assert(rest[0] == buf@[i as int]);
        }
        r.push(buf[i]);
        i = i + 1;
        proof {
            assert(r@ =~= buf@.take(i as int));
        }
    }
    proof {
        let rest = buf@.skip(i as int);
        if i < buf@.len() {
            assert(rest[0] == 0);
        }
        assert(payload(rest) =~= Seq::<u8>::empty());
        assert(r@ + Seq::<u8>::empty() =~= r@);
    }
    r
}

/// The text a receiver reads from a frame; `None` when the bytes before
/// the first zero are not UTF-8.
pub fn decode_frame_text(buf: &[u8]) -> (r: Option<String>)
    ensures
        match r {
            Some(s) => frame_text(buf@) == Some(s@),
            None => frame_text(buf@) is None,
        },
{
    let bytes = frame_payload(buf);
    utf8_to_string(bytes)
}

/// The message a receiver takes from a frame; `None` where it gives up.
pub fn decode_frame(buf: &[u8]) -> (r: Option<Message>)
    ensures
        match r {
            Some(m) => frame_message(buf@) == Some(m@),
            None => frame_message(buf@) is None,
        },
{
    match decode_frame_text(buf) {
        None => None,
        Some(text) => Message::decode_text(text.as_str()),
    }
}

} // verus!

verus! {

/// The UTF-8 bytes of a character other than NUL are never zero.
proof fn lemma_scalar_bytes_nonzero(c: char)
    requires
        c != '\0',
    ensures
        forall|i: int| 0 <= i < encode_scalar(c as u32).len() ==> #[trigger] encode_scalar(c as u32)[i] != 0,
{
    let v = c as u32;
    vstd::utf8::char_u32_cast(c, v);
    vstd::utf8::char_u32_cast('\0', 0u32);
    assert(v != 0);
    assert(0 < v <= 0x7F ==> (v & 0x7F) as u8 != 0) by (bit_vector);
    assert((0xC0u8 | ((v >> 6) & 0x1F) as u8) != 0) by (bit_vector);
    assert((0xE0u8 | ((v >> 12) & 0x0F) as u8) != 0) by (bit_vector);
    assert((0xF0u8 | ((v >> 18) & 0x7) as u8) != 0) by (bit_vector);
    assert((0x80u8 | (v & 0x3F) as u8) != 0) by (bit_vector);
    assert((0x80u8 | ((v >> 6) & 0x3F) as u8) != 0) by (bit_vector);
    assert((0x80u8 | ((v >> 12) & 0x3F) as u8) != 0) by (bit_vector);
}

/// A text without NUL characters has no zero byte in its UTF-8 encoding.
proof fn lemma_utf8_no_zero(s: Seq<char>)
    requires
        forall|i: int| 0 <= i < s.len() ==> #[trigger] s[i] != '\0',
    ensures
        forall|j: int| 0 <= j < encode_utf8(s).len() ==> #[trigger] encode_utf8(s)[j] != 0,
    decreases s.len(),
{
    if s.len() > 0 {
        assert(s[0] != '\0');
        lemma_scalar_bytes_nonzero(s[0]);
        let rest = s.drop_first();
        assert forall|i: int| 0 <= i < rest.len() implies #[trigger] rest[i] != '\0' by {
            assert(rest[i] == s[i + 1]);
        }
        lemma_utf8_no_zero(rest);
        let a = encode_scalar(s[0] as u32);
        let b = encode_utf8(rest);
        assert forall|j: int| 0 <= j < encode_utf8(s).len() implies #[trigger] encode_utf8(s)[j] != 0 by {
            assert(encode_utf8(s) == a + b);
            if j < a.len() {
                assert(encode_utf8(s)[j] == a[j]);
            } else {
                assert(encode_utf8(s)[j] == b[j - a.len()]);
            }
        }
    }
}

/// The payload of zero-free bytes followed by zero bytes is those bytes.
proof fn lemma_payload_padded(b: Seq<u8>, n: nat)
    requires
        forall|j: int| 0 <= j < b.len() ==> #[trigger] b[j] != 0,
    ensures
        payload(b + Seq::new(n, |i: int| 0u8)) == b,
    decreases b.len(),
{
    let buf = b + Seq::new(n, |i: int| 0u8);
    if b.len() == 0 {
        assert(buf =~= Seq::new(n, |i: int| 0u8));
        if n > 0 {
            assert(buf[0] == 0);
        }
        assert(payload(buf) =~= b);
    } else {
        let rest = b.drop_first();
        assert forall|j: int| 0 <= j < rest.len() implies #[trigger] rest[j] != 0 by {
            assert(rest[j] == b[j + 1]);
        }
        lemma_payload_padded(rest, n);
        assert(buf.drop_first() =~= rest + Seq::new(n, |i: int| 0u8));
        assert(buf[0] == b[0]);
        assert(payload(buf) =~= seq![b[0]] + rest);
    }
}

/// A receiver reads a message back from the frame of any JSON text of it,
/// when both parties are users and the text's UTF-8 bytes fit in a frame.
pub proof fn law_frame_round_trip(text: Seq<char>, m: MessageView)
    requires
        between_users(m),
        encodes_message(text, m),
        encode_utf8(text).len() <= MEG_SIZE,
    ensures
        frame_message(frame_bytes(text)) == Some(m),
{
    let (ft, tt) = choose|ft: Seq<char>, tt: Seq<char>|
        encodes_fields(ft, target_fields(m.from)) && encodes_fields(tt, target_fields(m.target))
            && #[trigger] encodes_fields(text, message_fields(m.head, ft, tt, m.msg));
    lemma_utf8_no_zero(text);
    let b = encode_utf8(text);
    if b.len() == MEG_SIZE {
        assert(frame_bytes(text) =~= b + Seq::new(0, |i: int| 0u8));
    }
    lemma_payload_padded(b, (MEG_SIZE - b.len()) as nat);
    assert(payload(frame_bytes(text)) == b);
    vstd::utf8::encode_utf8_valid_utf8(text);
    vstd::utf8::encode_utf8_decode_utf8(text);
    law_message_text_round_trip(text, m);
}

} // verus!

verus! {

/// The frame the server writes for a message: the JSON text the library
/// writes for it, cut or padded to `MEG_SIZE` bytes.
pub fn message_frame(m: &Message) -> (r: Vec<u8>)
    requires
        between_users(m@),
    ensures
        exists|text: Seq<char>|
            written_message(text, m@) && encodes_message(text, m@) && r@ == #[trigger] frame_bytes(text),
{
    let text = m.to_json_text();
    let r = encode_frame(text.as_str());
    assert(written_message(text@, m@) && encodes_message(text@, m@) && r@ == frame_bytes(text@));
    r
}

/// The frame of a text that fits in one; `None` when its UTF-8 bytes are
/// more than `MEG_SIZE`.
pub fn fit_frame(text: &str) -> (r: Option<Vec<u8>>)
    ensures
        r is Some <==> encode_utf8(text@).len() <= MEG_SIZE,
        r matches Some(b) ==> b@ == frame_bytes(text@),
{
    if text.as_bytes().len() <= MEG_SIZE {
        Some(encode_frame(text))
    } else {
        None
    }
}

/// The frame a client sends for a message: the JSON text the library
/// writes for it, padded to `MEG_SIZE` bytes; `None` ("message too long")
/// exactly when that text takes more than `MEG_SIZE` bytes, which does not
/// depend on the order of its members.
pub fn client_frame(m: &Message) -> (r: Option<Vec<u8>>)
    requires
        between_users(m@),
    ensures
        r is Some <==> encode_utf8(message_text(m@)).len() <= MEG_SIZE,
        exists|text: Seq<char>| {
            &&& #[trigger] written_message(text, m@)
            &&& encodes_message(text, m@)
            &&& (r matches Some(b) ==> b@ == frame_bytes(text))
        },
{
    let text = m.to_json_text();
    let r = fit_frame(text.as_str());
    proof {
        lemma_written_message_len(text@, m@);
        assert(written_message(text@, m@) && encodes_message(text@, m@)
            && (r matches Some(b) ==> b@ == frame_bytes(text@)));
    }
    r
}

} // verus!
