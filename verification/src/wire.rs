//! The wire message: its kinds, its fields and how one is made.

use vstd::prelude::*;
use crate::clock::unix_time_now;
use crate::text::str_eq;

verus! {

/// The kinds of message that two peers exchange.
#[derive(Debug, Clone, Copy, PartialEq, Eq, Structural)]
pub enum MessageType {
    /// Initial handshake to establish a connection.
    Handshake,
    /// Acknowledgement of a handshake.
    HandshakeAck,
    /// Keep-alive probe.
    Ping,
    /// Answer to a keep-alive probe.
    Pong,
    /// Text message.
    Text,
    /// Connection close.
    Close,
}

impl MessageType {
    /// The name under which the kind travels on the wire.
    pub open spec fn label(self) -> Seq<char> {
        match self {
            MessageType::Handshake => "Handshake"@,
            MessageType::HandshakeAck => "HandshakeAck"@,
            MessageType::Ping => "Ping"@,
            MessageType::Pong => "Pong"@,
            MessageType::Text => "Text"@,
            MessageType::Close => "Close"@,
        }
    }

    /// The kind that a wire name stands for, if it stands for one.
    pub open spec fn of_label(name: Seq<char>) -> Option<MessageType> {
        if name == "Handshake"@ {
            Some(MessageType::Handshake)
        } else if name == "HandshakeAck"@ {
            Some(MessageType::HandshakeAck)
        } else if name == "Ping"@ {
            Some(MessageType::Ping)
        } else if name == "Pong"@ {
            Some(MessageType::Pong)
        } else if name == "Text"@ {
            Some(MessageType::Text)
        } else if name == "Close"@ {
            Some(MessageType::Close)
        } else {
            None
        }
    }

    /// Control messages carry no payload: every kind but `Text`.
    pub open spec fn is_control(self) -> bool {
        self != MessageType::Text
    }

    /// The kind's wire name.
    pub fn name(&self) -> (s: &'static str)
        ensures
            s@ == self.label(),
    {
        match self {
            MessageType::Handshake => "Handshake",
            MessageType::HandshakeAck => "HandshakeAck",
            MessageType::Ping => "Ping",
            MessageType::Pong => "Pong",
            MessageType::Text => "Text",
            MessageType::Close => "Close",
        }
    }

    /// Reads a wire name back. A name that no kind bears gives `None`: the
    /// set of kinds is closed, and an unknown name is not guessed at.
    pub fn from_name(name: &str) -> (kind: Option<MessageType>)
        ensures
            kind == MessageType::of_label(name@),
    {
        if str_eq(name, "Handshake") {
            Some(MessageType::Handshake)
        } else if str_eq(name, "HandshakeAck") {
            Some(MessageType::HandshakeAck)
        } else if str_eq(name, "Ping") {
            Some(MessageType::Ping)
        } else if str_eq(name, "Pong") {
            Some(MessageType::Pong)
        } else if str_eq(name, "Text") {
            Some(MessageType::Text)
        } else if str_eq(name, "Close") {
            Some(MessageType::Close)
        } else {
            None
        }
    }
}

/// One message between two peers.
#[derive(Debug, Clone, PartialEq, Eq)]
pub struct P2PMessage {
    /// The kind's wire name.
    pub msg_type: String,
    /// Identifier of the peer that sent the message.
    pub sender_id: String,
    /// Seconds since the Unix epoch at which the message was made.
    pub timestamp: u64,
    /// Sequence number within the connection; it wraps.
    pub sequence_num: u32,
    /// Opaque bytes: empty for control messages, UTF-8 text or a sealed blob
    /// for text messages.
    pub payload: Vec<u8>,
}

/// What a message holds, as mathematical values.
pub struct MessageView {
    pub msg_type: Seq<char>,
    pub sender_id: Seq<char>,
    pub timestamp: u64,
    pub sequence_num: u32,
    pub payload: Seq<u8>,
}

impl View for P2PMessage {
    type V = MessageView;

    open spec fn view(&self) -> MessageView {
        MessageView {
            msg_type: self.msg_type@,
            sender_id: self.sender_id@,
            timestamp: self.timestamp,
            sequence_num: self.sequence_num,
            payload: self.payload@,
        }
    }
}

impl MessageView {
    /// The message of the given kind and fields.
    pub open spec fn of(
        kind: MessageType,
        sender_id: Seq<char>,
        timestamp: u64,
        sequence_num: u32,
        payload: Seq<u8>,
    ) -> MessageView {
        MessageView { msg_type: kind.label(), sender_id, timestamp, sequence_num, payload }
    }

    /// The kind that the message declares, if its name is a known one.
    pub open spec fn kind(self) -> Option<MessageType> {
        MessageType::of_label(self.msg_type)
    }

    /// The message has the shape that its kind asks for: the kind is a known
    /// one, and a control message carries no payload.
    pub open spec fn well_formed(self) -> bool {
        match self.kind() {
            Some(kind) => kind.is_control() ==> self.payload.len() == 0,
            None => false,
        }
    }
}

impl P2PMessage {
    /// Makes a message that bears the given timestamp.
    pub fn with_timestamp(
        msg_type: MessageType,
        sender_id: String,
        timestamp: u64,
        sequence_num: u32,
        payload: Vec<u8>,
    ) -> (msg: Self)
        ensures
            msg@ == MessageView::of(msg_type, sender_id@, timestamp, sequence_num, payload@),
    {
        P2PMessage {
            msg_type: msg_type.name().to_owned(),
            sender_id,
            timestamp,
            sequence_num,
            payload,
        }
    }

    /// Makes a message stamped with the current time. Whatever the clock
    /// reads, the other four fields are the arguments.
    pub fn new(msg_type: MessageType, sender_id: String, sequence_num: u32, payload: Vec<u8>) -> (msg:
        Self)
        ensures
            msg@ == MessageView::of(
                msg_type,
                sender_id@,
                msg.timestamp,
                sequence_num,
                payload@,
            ),
    {
        let timestamp = unix_time_now();
        P2PMessage::with_timestamp(msg_type, sender_id, timestamp, sequence_num, payload)
    }

    /// The kind that the message declares. A received message may bear any
    /// name: an unknown one gives `None`.
    pub fn kind(&self) -> (kind: Option<MessageType>)
        ensures
            kind == self@.kind(),
    {
        MessageType::from_name(self.msg_type.as_str())
    }

    /// Tells whether the message has the shape that its kind asks for. What
    /// arrives from the network may declare any kind and carry any payload;
    /// this is the check to make before the payload is trusted to fit.
    pub fn is_well_formed(&self) -> (ok: bool)
        ensures
            ok == self@.well_formed(),
    {
        match self.kind() {
            Some(MessageType::Text) => true,
            Some(_) => self.payload.len() == 0,
            None => false,
        }
    }
}

/// Every kind is read back from its own wire name, so no two kinds share one.
pub proof fn lemma_label_round_trip(kind: MessageType)
    ensures
        MessageType::of_label(kind.label()) == Some(kind),
{
    reveal_strlit("Handshake");
    reveal_strlit("HandshakeAck");
    reveal_strlit("Ping");
    reveal_strlit("Pong");
    reveal_strlit("Text");
    reveal_strlit("Close");
    let h = "Handshake"@;
    let a = "HandshakeAck"@;
    let pi = "Ping"@;
    let po = "Pong"@;
    let t = "Text"@;
    let c = "Close"@;
    assert(h.len() == 9 && a.len() == 12 && pi.len() == 4 && po.len() == 4 && t.len() == 4 && c.len() == 5);
    assert(pi[1] == 'i' && po[1] == 'o' && t[1] == 'e');
}

} // verus!
