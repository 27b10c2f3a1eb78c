//! Making and reading messages of each kind.
//!
//! Control messages carry no payload. A text message carries its text as
//! UTF-8, or, where the text is to stay private, the blob that seals it. A
//! message does not say which of the two its payload is: the caller knows.

use vstd::prelude::*;
use vstd::utf8::*;
use crate::aead::{
    decrypt_text, encrypt, max_plaintext_len, nonce_len, opened_text, sealed_blob, tag_len,
    DecryptError, EncryptError,
};
use crate::codec::{
    decode_message, encode_message, encoded_len, max_encoded_len, DecodeError, EncodeError,
};
use crate::connection::{sequence_after, P2PConnection};
use crate::text::{str_eq, text_from_utf8};
use crate::wire::{lemma_label_round_trip, MessageType, MessageView, P2PMessage};

verus! {

/// The text that a message shows: the payload of a text message where it is
/// UTF-8, and nothing otherwise.
pub open spec fn shown_text(m: MessageView) -> Seq<char> {
    if m.msg_type == MessageType::Text.label() && valid_utf8(m.payload) {
        decode_utf8(m.payload)
    } else {
        Seq::<char>::empty()
    }
}

impl P2PMessage {
    /// A message without payload, of any kind.
    pub fn control(kind: MessageType, sender_id: String, timestamp: u64, sequence_num: u32) -> (msg:
        Self)
        ensures
            msg@ == MessageView::of(kind, sender_id@, timestamp, sequence_num, Seq::<u8>::empty()),
            msg@.well_formed(),
    {
        proof {
            lemma_label_round_trip(kind);
        }
        P2PMessage::with_timestamp(kind, sender_id, timestamp, sequence_num, Vec::new())
    }

    /// A text message that carries `text` in the clear.
    pub fn text(sender_id: String, timestamp: u64, sequence_num: u32, text: &str) -> (msg: Self)
        ensures
            msg@ == MessageView::of(
                MessageType::Text,
                sender_id@,
                timestamp,
                sequence_num,
                encode_utf8(text@),
            ),
            msg@.well_formed(),
            shown_text(msg@) == text@,
    {
        proof {
            encode_utf8_valid_utf8(text@);
            encode_utf8_decode_utf8(text@);
            lemma_label_round_trip(MessageType::Text);
        }
        P2PMessage::with_timestamp(
            MessageType::Text,
            sender_id,
            timestamp,
            sequence_num,
            text.as_bytes_vec(),
        )
    }

    /// A text message that carries `text` sealed under `key`, with a fresh
    /// nonce. It fails only where the text is too long to seal.
    pub fn sealed_text(
        sender_id: String,
        timestamp: u64,
        sequence_num: u32,
        text: &str,
        key: &[u8; 32],
    ) -> (r: Result<Self, EncryptError>)
        ensures
            r is Ok <==> encode_utf8(text@).len() <= max_plaintext_len(),
            r matches Ok(msg) ==> {
                &&& msg@ == MessageView::of(
                    MessageType::Text,
                    sender_id@,
                    timestamp,
                    sequence_num,
                    msg@.payload,
                )
                &&& msg@.payload.len() == nonce_len() + encode_utf8(text@).len() + tag_len()
                &&& msg@.payload == sealed_blob(
                    key@,
                    msg@.payload.subrange(0, nonce_len()),
                    encode_utf8(text@),
                )
                &&& opened_text(key@, msg@.payload) == Ok::<Seq<char>, DecryptError>(text@)
            },
            r matches Err(e) ==> e == EncryptError::PlaintextTooLong,
    {
        proof {
            encode_utf8_valid_utf8(text@);
            encode_utf8_decode_utf8(text@);
        }
        match encrypt(key, text.as_bytes()) {
            Ok(blob) => Ok(
                P2PMessage::with_timestamp(
                    MessageType::Text,
                    sender_id,
                    timestamp,
                    sequence_num,
                    blob,
                ),
            ),
            Err(e) => Err(e),
        }
    }

    /// The text of a message whose payload was sealed under `key`.
    pub fn open_text(&self, key: &[u8; 32]) -> (r: Result<String, DecryptError>)
        ensures
            match r {
                Ok(text) => opened_text(key@, self@.payload) == Ok::<Seq<char>, DecryptError>(
                    text@,
                ),
                Err(e) => opened_text(key@, self@.payload) == Err::<Seq<char>, DecryptError>(e),
            },
            r matches Ok(text) ==> self@.payload.len() == nonce_len() + encode_utf8(text@).len()
                + tag_len(),
            self@.payload.len() < nonce_len() + tag_len() ==> r is Err,
    {
        decrypt_text(key, self.payload.as_slice())
    }
}

impl P2PConnection {
    /// Makes the connection's next message: it bears the next sequence
    /// number, which is thereby issued, and the time `now`.
    pub fn compose(
        &mut self,
        kind: MessageType,
        sender_id: String,
        payload: Vec<u8>,
        now: u64,
    ) -> (msg: P2PMessage)
        ensures
            msg@ == MessageView::of(
                kind,
                sender_id@,
                now,
                sequence_after(old(self).sequence_num),
                payload@,
            ),
            *final(self) == (P2PConnection {
                sequence_num: sequence_after(old(self).sequence_num),
                ..*old(self)
            }),
    {
        let sequence_num = self.next_sequence();
        P2PMessage::with_timestamp(kind, sender_id, now, sequence_num, payload)
    }
}

/// The binary form of a handshake from `sender_id`, with sequence number zero
/// and the current time, whatever the clock reads.
pub fn create_handshake_message(sender_id: String) -> (r: Result<Vec<u8>, EncodeError>)
    ensures
        r is Ok <==> encoded_len(
            MessageView::of(MessageType::Handshake, sender_id@, 0, 0, Seq::<u8>::empty()),
        ) <= max_encoded_len(),
        r matches Ok(bytes) ==> exists|timestamp: u64|
            bytes@ == encode_message(
                #[trigger] MessageView::of(
                    MessageType::Handshake,
                    sender_id@,
                    timestamp,
                    0,
                    Seq::<u8>::empty(),
                ),
            ),
        r matches Err(e) ==> e == EncodeError::TooLarge,
{
    let msg = P2PMessage::new(MessageType::Handshake, sender_id, 0, Vec::new());
    msg.to_bytes()
}

/// The binary form of a text message in the clear, with the current time,
/// whatever the clock reads.
pub fn create_text_message(sender_id: String, sequence_num: u32, text: String) -> (r: Result<
    Vec<u8>,
    EncodeError,
>)
    ensures
        r is Ok <==> encoded_len(
            MessageView::of(MessageType::Text, sender_id@, 0, sequence_num, encode_utf8(text@)),
        ) <= max_encoded_len(),
        r matches Ok(bytes) ==> exists|timestamp: u64|
            bytes@ == encode_message(
                #[trigger] MessageView::of(
                    MessageType::Text,
                    sender_id@,
                    timestamp,
                    sequence_num,
                    encode_utf8(text@),
                ),
            ),
        r matches Err(e) ==> e == EncodeError::TooLarge,
{
    let msg = P2PMessage::new(
        MessageType::Text,
        sender_id,
        sequence_num,
        text.as_str().as_bytes_vec(),
    );
    msg.to_bytes()
}

/// What reading a message gives: its sender, the name of its kind, its
/// timestamp and the text it shows. Bytes that hold no message give the
/// reader's error, and so does a text message whose payload is not UTF-8:
/// what a hostile or damaged sender passes off as text is refused, not shown
/// as an empty text.
pub open spec fn parsed(bytes: Seq<u8>) -> Result<
    (Seq<char>, Seq<char>, u64, Seq<char>),
    DecodeError,
> {
    match decode_message(bytes) {
        Err(e) => Err(e),
        Ok(m) => if m.msg_type == MessageType::Text.label() && !valid_utf8(m.payload) {
            Err(DecodeError::InvalidUtf8)
        } else {
            Ok((m.sender_id, m.msg_type, m.timestamp, shown_text(m)))
        },
    }
}

/// Reads a message and gives its sender, the name of its kind, its timestamp
/// and the text it shows. A message of another kind than text shows no text,
/// whatever its payload holds. A text message whose payload is not UTF-8 is
/// an error.
pub fn parse_message(data: Vec<u8>) -> (r: Result<(String, String, u64, String), DecodeError>)
    ensures
        match r {
            Ok((sender_id, msg_type, timestamp, text)) => parsed(data@) == Ok::<
                (Seq<char>, Seq<char>, u64, Seq<char>),
                DecodeError,
            >((sender_id@, msg_type@, timestamp, text@)),
            Err(e) => parsed(data@) == Err::<(Seq<char>, Seq<char>, u64, Seq<char>), DecodeError>(
                e,
            ),
        },
{
    let msg = match P2PMessage::from_bytes(data.as_slice()) {
        Ok(msg) => msg,
        Err(e) => { return Err(e); },
    };
    let text = if str_eq(msg.msg_type.as_str(), MessageType::Text.name()) {
        match text_from_utf8(msg.payload) {
            Ok(text) => text,
            Err(_) => { return Err(DecodeError::InvalidUtf8); },
        }
    } else {
        String::new()
    };
    Ok((msg.sender_id, msg.msg_type, msg.timestamp, text))
}

} // verus!
