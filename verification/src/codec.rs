//! The binary form of a wire message.
//!
//! A message is laid out as five fields in a fixed order, every integer little
//! endian: the kind's name and the sender's identifier as UTF-8 text, each
//! behind its length in bytes as a `u64`; the timestamp as a `u64`; the sequence
//! number as a `u32`; the payload behind its length as a `u64`. No field's
//! boundary depends on what the payload holds, and bytes that follow the last
//! field are ignored.

use vstd::prelude::*;
use vstd::bytes::*;
use vstd::slice::*;
use vstd::utf8::*;
use crate::buffer::append_bytes;
use crate::text::text_from_utf8;
use crate::wire::{MessageView, P2PMessage};

verus! {

/// Why bytes were not read as a message.
#[derive(Debug, Clone, Copy, PartialEq, Eq, Structural)]
pub enum DecodeError {
    /// The bytes end before the field that is being read does.
    Truncated,
    /// The kind's name or the sender's identifier is not UTF-8, or a text
    /// message was read for its text and its payload is not UTF-8.
    InvalidUtf8,
}

/// Why a message was not written out.
#[derive(Debug, Clone, Copy, PartialEq, Eq, Structural)]
pub enum EncodeError {
    /// The binary form would be longer than a buffer can be.
    TooLarge,
}

/// Length of the fixed part of a message: three length prefixes, the
/// timestamp and the sequence number.
pub open spec fn fixed_len() -> int {
    36
}

/// The longest binary form that is written.
pub open spec fn max_encoded_len() -> int {
    isize::MAX as int
}

/// A run of bytes behind its length.
pub open spec fn encode_blob(bytes: Seq<u8>) -> Seq<u8> {
    spec_u64_to_le_bytes(bytes.len() as u64) + bytes
}

/// The binary form of a message.
pub open spec fn encode_message(m: MessageView) -> Seq<u8> {
    encode_blob(encode_utf8(m.msg_type)) + encode_blob(encode_utf8(m.sender_id))
        + spec_u64_to_le_bytes(m.timestamp) + spec_u32_to_le_bytes(m.sequence_num) + encode_blob(
        m.payload,
    )
}

/// Length of the binary form of a message.
pub open spec fn encoded_len(m: MessageView) -> int {
    fixed_len() + encode_utf8(m.msg_type).len() + encode_utf8(m.sender_id).len() + m.payload.len()
}

/// The length that the first eight bytes announce.
pub open spec fn blob_len(bytes: Seq<u8>) -> int {
    spec_u64_from_le_bytes(bytes.subrange(0, 8)) as int
}

/// The bytes start with a length and hold at least that many bytes after it.
pub open spec fn has_blob(bytes: Seq<u8>) -> bool {
    bytes.len() >= 8 && blob_len(bytes) <= bytes.len() - 8
}

/// The run of bytes that stands behind the leading length.
pub open spec fn first_blob(bytes: Seq<u8>) -> Seq<u8> {
    bytes.subrange(8, 8 + blob_len(bytes))
}

/// What follows the leading run.
pub open spec fn after_blob(bytes: Seq<u8>) -> Seq<u8> {
    bytes.skip(8 + blob_len(bytes))
}

/// The message that the bytes start with, or the first reason why they start
/// with none. Fields are read in order, and the first one that cannot be read
/// decides the error.
pub open spec fn decode_message(bytes: Seq<u8>) -> Result<MessageView, DecodeError> {
    if !has_blob(bytes) {
        Err(DecodeError::Truncated)
    } else if !valid_utf8(first_blob(bytes)) {
        Err(DecodeError::InvalidUtf8)
    } else {
        let from_sender = after_blob(bytes);
        if !has_blob(from_sender) {
            Err(DecodeError::Truncated)
        } else if !valid_utf8(first_blob(from_sender)) {
            Err(DecodeError::InvalidUtf8)
        } else {
            let from_timestamp = after_blob(from_sender);
            if from_timestamp.len() < 12 {
                Err(DecodeError::Truncated)
            } else if !has_blob(from_timestamp.skip(12)) {
                Err(DecodeError::Truncated)
            } else {
                Ok(
                    MessageView {
                        msg_type: decode_utf8(first_blob(bytes)),
                        sender_id: decode_utf8(first_blob(from_sender)),
                        timestamp: spec_u64_from_le_bytes(from_timestamp.subrange(0, 8)),
                        sequence_num: spec_u32_from_le_bytes(from_timestamp.subrange(8, 12)),
                        payload: first_blob(from_timestamp.skip(12)),
                    },
                )
            }
        }
    }
}

/// Appends `src` behind its length.
fn append_blob(out: &mut Vec<u8>, src: &[u8])
    ensures
        final(out)@ == old(out)@ + encode_blob(src@),
{
    let prefix = u64_to_le_bytes(src.len() as u64);
    append_bytes(out, prefix.as_slice());
    append_bytes(out, src);
    assert(out@ == old(out)@ + encode_blob(src@));
}

impl P2PMessage {
    /// Writes the message out. It fails only where the binary form would be
    /// longer than a buffer can be.
    pub fn to_bytes(&self) -> (r: Result<Vec<u8>, EncodeError>)
        ensures
            r is Ok <==> encoded_len(self@) <= max_encoded_len(),
            r matches Ok(bytes) ==> {
                &&& bytes@ == encode_message(self@)
                &&& bytes@.len() == encoded_len(self@)
                &&& decode_message(bytes@) == Ok::<MessageView, DecodeError>(self@)
            },
            r matches Err(e) ==> e == EncodeError::TooLarge,
    {
        let kind = self.msg_type.as_str().as_bytes();
        let sender = self.sender_id.as_str().as_bytes();
        assert(kind@ == encode_utf8(self@.msg_type));
        assert(sender@ == encode_utf8(self@.sender_id));
        let limit: usize = isize::MAX as usize;
        if kind.len() > limit - 36 {
            return Err(EncodeError::TooLarge);
        }
        let with_kind: usize = 36 + kind.len();
        if sender.len() > limit - with_kind {
            return Err(EncodeError::TooLarge);
        }
        let with_sender: usize = with_kind + sender.len();
        if self.payload.len() > limit - with_sender {
            return Err(EncodeError::TooLarge);
        }
        let mut out: Vec<u8> = Vec::with_capacity(with_sender + self.payload.len());
        append_blob(&mut out, kind);
        append_blob(&mut out, sender);
        let timestamp = u64_to_le_bytes(self.timestamp);
        append_bytes(&mut out, timestamp.as_slice());
        let sequence = u32_to_le_bytes(self.sequence_num);
        append_bytes(&mut out, sequence.as_slice());
        append_blob(&mut out, self.payload.as_slice());
        assert(out@ == encode_message(self@));
        proof {
            lemma_encoded_len(self@);
            lemma_decode_encode(self@, Seq::<u8>::empty());
            assert(encode_message(self@) + Seq::<u8>::empty() == encode_message(self@));
        }
        Ok(out)
    }
}

/// Reads the length-prefixed run that starts at `pos`, and gives the places
/// where the run itself starts and ends.
fn read_blob(data: &[u8], pos: usize) -> (r: Option<(usize, usize)>)
    requires
        pos <= data@.len(),
    ensures
        r is Some <==> has_blob(data@.skip(pos as int)),
        r matches Some((start, end)) ==> {
            &&& start == pos + 8
            &&& start <= end <= data@.len()
            &&& data@.subrange(start as int, end as int) == first_blob(data@.skip(pos as int))
            &&& data@.skip(end as int) == after_blob(data@.skip(pos as int))
        },
{
    let ghost rest = data@.skip(pos as int);
    if data.len() - pos < 8 {
        return None;
    }
    let announced = u64_from_le_bytes(slice_subrange(data, pos, pos + 8));
    assert(data@.subrange(pos as int, pos + 8) == rest.subrange(0, 8));
    let room: usize = data.len() - pos - 8;
    if announced > room as u64 {
        return None;
    }
    let start: usize = pos + 8;
    let end: usize = start + announced as usize;
    assert(data@.subrange(start as int, end as int) == first_blob(rest));
    assert(data@.skip(end as int) == after_blob(rest));
    Some((start, end))
}

impl P2PMessage {
    /// Reads the message that the bytes start with. Hostile or damaged input
    /// gives an error, and the first field that cannot be read decides which.
    pub fn from_bytes(data: &[u8]) -> (r: Result<P2PMessage, DecodeError>)
        ensures
            match r {
                Ok(msg) => decode_message(data@) == Ok::<MessageView, DecodeError>(msg@),
                Err(e) => decode_message(data@) == Err::<MessageView, DecodeError>(e),
            },
            data@.len() < fixed_len() ==> r is Err,
    {
        assert(data@.skip(0) == data@);
        let (kind_start, kind_end) = match read_blob(data, 0) {
            Some(found) => found,
            None => { return Err(DecodeError::Truncated); },
        };
        let msg_type = match text_from_utf8(
            slice_to_vec(slice_subrange(data, kind_start, kind_end)),
        ) {
            Ok(text) => text,
            Err(_) => { return Err(DecodeError::InvalidUtf8); },
        };
        let (sender_start, sender_end) = match read_blob(data, kind_end) {
            Some(found) => found,
            None => { return Err(DecodeError::Truncated); },
        };
        let sender_id = match text_from_utf8(
            slice_to_vec(slice_subrange(data, sender_start, sender_end)),
        ) {
            Ok(text) => text,
            Err(_) => { return Err(DecodeError::InvalidUtf8); },
        };
        let ghost from_timestamp = data@.skip(sender_end as int);
        if data.len() - sender_end < 12 {
            return Err(DecodeError::Truncated);
        }
        let timestamp = u64_from_le_bytes(slice_subrange(data, sender_end, sender_end + 8));
        let sequence_num = u32_from_le_bytes(
            slice_subrange(data, sender_end + 8, sender_end + 12),
        );
        assert(data@.subrange(sender_end as int, sender_end + 8) == from_timestamp.subrange(0, 8));
        assert(data@.subrange(sender_end + 8, sender_end + 12) == from_timestamp.subrange(8, 12));
        assert(data@.skip(sender_end + 12) == from_timestamp.skip(12));
        let (payload_start, payload_end) = match read_blob(data, sender_end + 12) {
            Some(found) => found,
            None => { return Err(DecodeError::Truncated); },
        };
        let payload = slice_to_vec(slice_subrange(data, payload_start, payload_end));
        Ok(P2PMessage { msg_type, sender_id, timestamp, sequence_num, payload })
    }
}

/// Every length of the message can be written in a length prefix.
pub open spec fn wire_sized(m: MessageView) -> bool {
    &&& encode_utf8(m.msg_type).len() <= u64::MAX
    &&& encode_utf8(m.sender_id).len() <= u64::MAX
    &&& m.payload.len() <= u64::MAX
}

/// A run behind its length is read back as that run, whatever follows it.
proof fn lemma_blob_read_back(run: Seq<u8>, tail: Seq<u8>)
    requires
        run.len() <= u64::MAX,
    ensures
        has_blob(encode_blob(run) + tail),
        first_blob(encode_blob(run) + tail) == run,
        after_blob(encode_blob(run) + tail) == tail,
{
    lemma_auto_spec_u64_to_from_le_bytes();
    let whole = encode_blob(run) + tail;
    let prefix = spec_u64_to_le_bytes(run.len() as u64);
    assert(prefix.len() == 8);
    assert(whole.subrange(0, 8) == prefix);
    assert(blob_len(whole) == run.len());
    assert(whole.subrange(8, 8 + run.len() as int) == run);
    assert(whole.skip(8 + run.len() as int) == tail);
}

/// What a successful read leaves is a run behind its length, then the rest.
proof fn lemma_blob_written_back(bytes: Seq<u8>)
    requires
        has_blob(bytes),
    ensures
        bytes == encode_blob(first_blob(bytes)) + after_blob(bytes),
        first_blob(bytes).len() == blob_len(bytes),
{
    lemma_auto_spec_u64_to_from_le_bytes();
    let head = bytes.subrange(0, 8);
    assert(spec_u64_to_le_bytes(spec_u64_from_le_bytes(head)) == head);
    assert(first_blob(bytes).len() as u64 == spec_u64_from_le_bytes(head));
    assert(bytes == head + first_blob(bytes) + after_blob(bytes));
}

/// Round trip: the binary form of a message is read back as that message,
/// whatever bytes follow it.
pub proof fn lemma_decode_encode(m: MessageView, rest: Seq<u8>)
    requires
        wire_sized(m),
    ensures
        decode_message(encode_message(m) + rest) == Ok::<MessageView, DecodeError>(m),
{
    lemma_auto_spec_u64_to_from_le_bytes();
    lemma_auto_spec_u32_to_from_le_bytes();
    let kind = encode_utf8(m.msg_type);
    let sender = encode_utf8(m.sender_id);
    let stamp = spec_u64_to_le_bytes(m.timestamp);
    let seq = spec_u32_to_le_bytes(m.sequence_num);
    let whole = encode_message(m) + rest;
    let from_payload = encode_blob(m.payload) + rest;
    let from_timestamp = stamp + seq + from_payload;
    let from_sender = encode_blob(sender) + from_timestamp;
    assert(whole == encode_blob(kind) + from_sender);
    lemma_blob_read_back(kind, from_sender);
    lemma_blob_read_back(sender, from_timestamp);
    lemma_blob_read_back(m.payload, rest);
    encode_utf8_valid_utf8(m.msg_type);
    encode_utf8_valid_utf8(m.sender_id);
    encode_utf8_decode_utf8(m.msg_type);
    encode_utf8_decode_utf8(m.sender_id);
    assert(from_timestamp.len() >= 12);
    assert(from_timestamp.subrange(0, 8) == stamp);
    assert(from_timestamp.subrange(8, 12) == seq);
    assert(from_timestamp.skip(12) == from_payload);
    assert(decode_message(whole) matches Ok(got) && got == m);
}

/// Whatever is read as a message began with that message's binary form: the
/// reader accepts nothing that the writer could not have produced.
pub proof fn lemma_encode_decode(bytes: Seq<u8>)
    requires
        decode_message(bytes) is Ok,
    ensures
        wire_sized(decode_message(bytes)->Ok_0),
        encoded_len(decode_message(bytes)->Ok_0) <= bytes.len(),
        encode_message(decode_message(bytes)->Ok_0) == bytes.subrange(
            0,
            encoded_len(decode_message(bytes)->Ok_0),
        ),
{
    lemma_auto_spec_u64_to_from_le_bytes();
    lemma_auto_spec_u32_to_from_le_bytes();
    let m = decode_message(bytes)->Ok_0;
    let from_sender = after_blob(bytes);
    let from_timestamp = after_blob(from_sender);
    let from_payload = from_timestamp.skip(12);
    lemma_blob_written_back(bytes);
    lemma_blob_written_back(from_sender);
    lemma_blob_written_back(from_payload);
    decode_utf8_encode_utf8(first_blob(bytes));
    decode_utf8_encode_utf8(first_blob(from_sender));
    let stamp = from_timestamp.subrange(0, 8);
    let seq = from_timestamp.subrange(8, 12);
    assert(spec_u64_to_le_bytes(m.timestamp) == stamp);
    assert(spec_u32_to_le_bytes(m.sequence_num) == seq);
    assert(from_timestamp == stamp + seq + from_payload);
    assert(bytes == encode_message(m) + after_blob(from_payload));
    assert(encode_message(m).len() == encoded_len(m));
    assert(bytes.subrange(0, encoded_len(m)) == encode_message(m));
}

/// Bytes shorter than the fixed part of a message are never read as one.
pub proof fn lemma_short_input_rejected(bytes: Seq<u8>)
    requires
        bytes.len() < fixed_len(),
    ensures
        decode_message(bytes) is Err,
{
}

/// The binary form is as long as `encoded_len` says.
pub proof fn lemma_encoded_len(m: MessageView)
    ensures
        encode_message(m).len() == encoded_len(m),
{
    lemma_auto_spec_u64_to_from_le_bytes();
    lemma_auto_spec_u32_to_from_le_bytes();
}

/// No two messages share a binary form, nor is one's form the start of
/// another's: bytes that begin with a message begin with that one alone.
pub proof fn lemma_encoding_unambiguous(
    a: MessageView,
    rest_a: Seq<u8>,
    b: MessageView,
    rest_b: Seq<u8>,
)
    requires
        wire_sized(a),
        wire_sized(b),
        encode_message(a) + rest_a == encode_message(b) + rest_b,
    ensures
        a == b,
        rest_a == rest_b,
{
    lemma_decode_encode(a, rest_a);
    lemma_decode_encode(b, rest_b);
    lemma_encoded_len(a);
    lemma_encoded_len(b);
    let whole = encode_message(a) + rest_a;
    assert(rest_a == whole.skip(encoded_len(a)));
    assert(rest_b == (encode_message(b) + rest_b).skip(encoded_len(b)));
}

} // verus!
