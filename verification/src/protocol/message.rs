//! Messages and their frames.
//!
//! A frame is a header of 20 bytes followed by the payload. The header holds the magic bytes
//! `BTRF`, the protocol version, the message type, the length of the payload and a timestamp,
//! every number with its most significant byte first.

use bytes::{Bytes, BytesMut};
use vstd::prelude::*;
use vstd::slice::{slice_subrange, slice_to_vec};
use vstd::string::*;

use crate::number::{decimal, u64_text};
use crate::protocol::big_endian::{
    be, be_i64, be_i64_reads_back, be_i64_value, be_reads_back, be_value, lemma_be_len,
    lemma_be_value_bound, lemma_pow256, read_be, read_i64, twos,
};
use crate::protocol::buffer::{
    advance, contents, freeze, frozen, held, new_buffer, put_i64, put_slice, put_u16, put_u32,
};
use crate::protocol::clock::now_millis;

verus! {

broadcast use vstd::string::group_string_axioms;

/// The magic bytes at the head of every frame: "BTRF".
pub open spec fn magic() -> Seq<u8> {
    seq![0x42u8, 0x54u8, 0x52u8, 0x46u8]
}

/// The protocol version that this library speaks.
pub const PROTOCOL_VERSION: u16 = 1;

/// The length of a frame's header.
pub const HEADER_LEN: usize = 20;

/// The kinds of messages.
#[derive(Debug, Clone, Copy, PartialEq, Eq, Structural)]
pub enum MessageType {
    Auth,
    AuthOk,
    AuthFailed,
    Heartbeat,
    HeartbeatAck,
    CreateVolume,
    CreateVolumeAck,
    DeleteVolume,
    DeleteVolumeAck,
    GetVolumeInfo,
    GetVolumeInfoAck,
    SendStart,
    SendData,
    SendComplete,
    SendError,
    SendIncrementalStart,
    NodeJoin,
    NodeLeave,
    NodeList,
    NodeListAck,
    StateSync,
    StateSyncAck,
    VolumeList,
    VolumeListAck,
}

impl MessageType {
    /// The number that stands for the kind in a frame.
    pub open spec fn spec_code(self) -> u16 {
        match self {
            MessageType::Auth => 0x0001,
            MessageType::AuthOk => 0x0002,
            MessageType::AuthFailed => 0x0003,
            MessageType::Heartbeat => 0x0100,
            MessageType::HeartbeatAck => 0x0101,
            MessageType::CreateVolume => 0x0200,
            MessageType::CreateVolumeAck => 0x0201,
            MessageType::DeleteVolume => 0x0202,
            MessageType::DeleteVolumeAck => 0x0203,
            MessageType::GetVolumeInfo => 0x0204,
            MessageType::GetVolumeInfoAck => 0x0205,
            MessageType::SendStart => 0x0300,
            MessageType::SendData => 0x0301,
            MessageType::SendComplete => 0x0302,
            MessageType::SendError => 0x0303,
            MessageType::SendIncrementalStart => 0x0304,
            MessageType::NodeJoin => 0x0400,
            MessageType::NodeLeave => 0x0401,
            MessageType::NodeList => 0x0402,
            MessageType::NodeListAck => 0x0403,
            MessageType::StateSync => 0x0500,
            MessageType::StateSyncAck => 0x0501,
            MessageType::VolumeList => 0x0502,
            MessageType::VolumeListAck => 0x0503,
        }
    }

    /// The number that stands for the kind in a frame.
    pub fn code(self) -> (r: u16)
        ensures
            r == self.spec_code(),
    {
        match self {
            MessageType::Auth => 0x0001,
            MessageType::AuthOk => 0x0002,
            MessageType::AuthFailed => 0x0003,
            MessageType::Heartbeat => 0x0100,
            MessageType::HeartbeatAck => 0x0101,
            MessageType::CreateVolume => 0x0200,
            MessageType::CreateVolumeAck => 0x0201,
            MessageType::DeleteVolume => 0x0202,
            MessageType::DeleteVolumeAck => 0x0203,
            MessageType::GetVolumeInfo => 0x0204,
            MessageType::GetVolumeInfoAck => 0x0205,
            MessageType::SendStart => 0x0300,
            MessageType::SendData => 0x0301,
            MessageType::SendComplete => 0x0302,
            MessageType::SendError => 0x0303,
            MessageType::SendIncrementalStart => 0x0304,
            MessageType::NodeJoin => 0x0400,
            MessageType::NodeLeave => 0x0401,
            MessageType::NodeList => 0x0402,
            MessageType::NodeListAck => 0x0403,
            MessageType::StateSync => 0x0500,
            MessageType::StateSyncAck => 0x0501,
            MessageType::VolumeList => 0x0502,
            MessageType::VolumeListAck => 0x0503,
        }
    }

    /// The name of the kind.
    pub open spec fn spec_name(self) -> Seq<char> {
        match self {
            MessageType::Auth => "Auth"@,
            MessageType::AuthOk => "AuthOk"@,
            MessageType::AuthFailed => "AuthFailed"@,
            MessageType::Heartbeat => "Heartbeat"@,
            MessageType::HeartbeatAck => "HeartbeatAck"@,
            MessageType::CreateVolume => "CreateVolume"@,
            MessageType::CreateVolumeAck => "CreateVolumeAck"@,
            MessageType::DeleteVolume => "DeleteVolume"@,
            MessageType::DeleteVolumeAck => "DeleteVolumeAck"@,
            MessageType::GetVolumeInfo => "GetVolumeInfo"@,
            MessageType::GetVolumeInfoAck => "GetVolumeInfoAck"@,
            MessageType::SendStart => "SendStart"@,
            MessageType::SendData => "SendData"@,
            MessageType::SendComplete => "SendComplete"@,
            MessageType::SendError => "SendError"@,
            MessageType::SendIncrementalStart => "SendIncrementalStart"@,
            MessageType::NodeJoin => "NodeJoin"@,
            MessageType::NodeLeave => "NodeLeave"@,
            MessageType::NodeList => "NodeList"@,
            MessageType::NodeListAck => "NodeListAck"@,
            MessageType::StateSync => "StateSync"@,
            MessageType::StateSyncAck => "StateSyncAck"@,
            MessageType::VolumeList => "VolumeList"@,
            MessageType::VolumeListAck => "VolumeListAck"@,
        }
    }

    /// The name of the kind.
    pub fn name(self) -> (r: &'static str)
        ensures
            r@ == self.spec_name(),
    {
        match self {
            MessageType::Auth => "Auth",
            MessageType::AuthOk => "AuthOk",
            MessageType::AuthFailed => "AuthFailed",
            MessageType::Heartbeat => "Heartbeat",
            MessageType::HeartbeatAck => "HeartbeatAck",
            MessageType::CreateVolume => "CreateVolume",
            MessageType::CreateVolumeAck => "CreateVolumeAck",
            MessageType::DeleteVolume => "DeleteVolume",
            MessageType::DeleteVolumeAck => "DeleteVolumeAck",
            MessageType::GetVolumeInfo => "GetVolumeInfo",
            MessageType::GetVolumeInfoAck => "GetVolumeInfoAck",
            MessageType::SendStart => "SendStart",
            MessageType::SendData => "SendData",
            MessageType::SendComplete => "SendComplete",
            MessageType::SendError => "SendError",
            MessageType::SendIncrementalStart => "SendIncrementalStart",
            MessageType::NodeJoin => "NodeJoin",
            MessageType::NodeLeave => "NodeLeave",
            MessageType::NodeList => "NodeList",
            MessageType::NodeListAck => "NodeListAck",
            MessageType::StateSync => "StateSync",
            MessageType::StateSyncAck => "StateSyncAck",
            MessageType::VolumeList => "VolumeList",
            MessageType::VolumeListAck => "VolumeListAck",
        }
    }

    /// The kind that a number stands for, if there is one.
    pub fn from_code(code: u16) -> (r: Option<MessageType>)
        ensures
            r matches Some(t) ==> t.spec_code() == code,
            r is None ==> forall|t: MessageType| #[trigger] t.spec_code() != code,
    {
        match code {
            0x0001 => Some(MessageType::Auth),
            0x0002 => Some(MessageType::AuthOk),
            0x0003 => Some(MessageType::AuthFailed),
            0x0100 => Some(MessageType::Heartbeat),
            0x0101 => Some(MessageType::HeartbeatAck),
            0x0200 => Some(MessageType::CreateVolume),
            0x0201 => Some(MessageType::CreateVolumeAck),
            0x0202 => Some(MessageType::DeleteVolume),
            0x0203 => Some(MessageType::DeleteVolumeAck),
            0x0204 => Some(MessageType::GetVolumeInfo),
            0x0205 => Some(MessageType::GetVolumeInfoAck),
            0x0300 => Some(MessageType::SendStart),
            0x0301 => Some(MessageType::SendData),
            0x0302 => Some(MessageType::SendComplete),
            0x0303 => Some(MessageType::SendError),
            0x0304 => Some(MessageType::SendIncrementalStart),
            0x0400 => Some(MessageType::NodeJoin),
            0x0401 => Some(MessageType::NodeLeave),
            0x0402 => Some(MessageType::NodeList),
            0x0403 => Some(MessageType::NodeListAck),
            0x0500 => Some(MessageType::StateSync),
            0x0501 => Some(MessageType::StateSyncAck),
            0x0502 => Some(MessageType::VolumeList),
            0x0503 => Some(MessageType::VolumeListAck),
            _ => None,
        }
    }
}

/// No two kinds share a number.
pub proof fn codes_are_distinct(a: MessageType, b: MessageType)
    requires
        a.spec_code() == b.spec_code(),
    ensures
        a == b,
{
}

/// A message between two nodes.
#[derive(Debug)]
pub struct Message {
    pub msg_type: MessageType,
    pub payload: Vec<u8>,
    pub timestamp: i64,
}

/// What a message says.
#[verifier::ext_equal]
pub struct MessageView {
    pub msg_type: MessageType,
    pub payload: Seq<u8>,
    pub timestamp: int,
}

impl View for Message {
    type V = MessageView;

    open spec fn view(&self) -> MessageView {
        MessageView {
            msg_type: self.msg_type,
            payload: self.payload@,
            timestamp: self.timestamp as int,
        }
    }
}

/// Why bytes are no frame.
#[derive(Debug, Clone, Copy, PartialEq, Eq, Structural)]
pub enum DecodeError {
    /// The magic bytes are not there.
    InvalidMagic,
    /// The frame has another protocol version.
    UnsupportedVersion(u16),
    /// No kind of message has the frame's number.
    UnknownMessageType,
}

impl DecodeError {
    /// What the error says.
    pub open spec fn text(self) -> Seq<char> {
        match self {
            DecodeError::InvalidMagic => "Invalid magic bytes"@,
            DecodeError::UnsupportedVersion(v) => "Unsupported protocol version: "@ + decimal(
                v as nat,
            ),
            DecodeError::UnknownMessageType => "Unknown message type"@,
        }
    }

    /// Says what is wrong.
    pub fn message(&self) -> (r: String)
        ensures
            r@ == self.text(),
    {
        match self {
            DecodeError::InvalidMagic => "Invalid magic bytes".to_owned(),
            DecodeError::UnsupportedVersion(v) => {
                let mut r = "Unsupported protocol version: ".to_owned();
                r.append(u64_text(*v as u64).as_str());
                r
            },
            DecodeError::UnknownMessageType => "Unknown message type".to_owned(),
        }
    }
}

/// The frame of a message. The length field holds the low 32 bits of the payload's length.
pub open spec fn frame(m: MessageView) -> Seq<u8> {
    magic() + be(PROTOCOL_VERSION as nat, 2) + be(m.msg_type.spec_code() as nat, 2) + be(
        m.payload.len() % 0x1_0000_0000,
        4,
    ) + be_i64(m.timestamp) + m.payload
}

/// The version that a header holds.
pub open spec fn header_version(s: Seq<u8>) -> nat {
    be_value(s.subrange(4, 6))
}

/// The kind's number that a header holds.
pub open spec fn header_code(s: Seq<u8>) -> nat {
    be_value(s.subrange(6, 8))
}

/// The length of the frame whose header stands at the front of `s`.
pub open spec fn frame_len(s: Seq<u8>) -> nat {
    HEADER_LEN as nat + be_value(s.subrange(8, 12))
}

/// Whether the message `m` is what the frame at the front of `s` holds.
pub open spec fn frame_holds(s: Seq<u8>, m: MessageView) -> bool {
    &&& m.msg_type.spec_code() == header_code(s)
    &&& m.payload == s.subrange(HEADER_LEN as int, frame_len(s) as int)
    &&& m.timestamp == be_i64_value(s.subrange(12, 20))
}

/// What reading a message from the bytes `s` comes to, and which bytes are left.
pub open spec fn decodes(
    s: Seq<u8>,
    r: Result<Option<MessageView>, DecodeError>,
    left: Seq<u8>,
) -> bool {
    if s.len() < HEADER_LEN {
        r == Ok::<Option<MessageView>, DecodeError>(None) && left == s
    } else if s.take(4) != magic() {
        r == Err::<Option<MessageView>, DecodeError>(DecodeError::InvalidMagic) && left == s
    } else if header_version(s) != PROTOCOL_VERSION {
        r == Err::<Option<MessageView>, DecodeError>(
            DecodeError::UnsupportedVersion(header_version(s) as u16),
        ) && left == s
    } else if s.len() < frame_len(s) {
        r == Ok::<Option<MessageView>, DecodeError>(None) && left == s
    } else if forall|t: MessageType| #[trigger] t.spec_code() != header_code(s) {
        r == Err::<Option<MessageView>, DecodeError>(DecodeError::UnknownMessageType) && left
            == s.skip(frame_len(s) as int)
    } else {
        &&& r matches Ok(Some(m)) && frame_holds(s, m)
        &&& left == s.skip(frame_len(s) as int)
    }
}

/// The view of what `Message::decode` returns.
pub open spec fn decode_view(r: Result<Option<Message>, DecodeError>) -> Result<
    Option<MessageView>,
    DecodeError,
> {
    match r {
        Ok(Some(m)) => Ok(Some(m@)),
        Ok(None) => Ok(None),
        Err(e) => Err(e),
    }
}

impl Message {
    /// A message that bears the current time.
    pub fn new(msg_type: MessageType, payload: Vec<u8>) -> (r: Message)
        ensures
            r.msg_type == msg_type,
            r.payload == payload,
    {
        Message { msg_type, payload, timestamp: now_millis() }
    }

    /// Writes the frame of the message.
    pub fn encode(&self) -> (r: Bytes)
        requires
            self.payload@.len() + HEADER_LEN <= isize::MAX / 2,
        ensures
            frozen(r) == frame(self@),
    {
        proof {
            lemma_be_len(PROTOCOL_VERSION as nat, 2);
            lemma_be_len(self.msg_type.spec_code() as nat, 2);
            lemma_be_len(self.payload@.len() % 0x1_0000_0000, 4);
            lemma_be_len(twos(self.timestamp as int), 8);
        }
        let magic_bytes: [u8; 4] = [0x42, 0x54, 0x52, 0x46];
        assert(magic_bytes@ =~= magic());
        let mut buf = new_buffer();
        put_slice(&mut buf, magic_bytes.as_slice());
        put_u16(&mut buf, PROTOCOL_VERSION);
        put_u16(&mut buf, self.msg_type.code());
        put_u32(&mut buf, (self.payload.len() as u64 % 0x1_0000_0000) as u32);
        put_i64(&mut buf, self.timestamp);
        put_slice(&mut buf, self.payload.as_slice());
        assert(held(buf) =~= frame(self@));
        freeze(buf)
    }

    /// Takes a message off the front of `buf`. Gives nothing, and leaves the bytes there, as
    /// long as the frame is not whole.
    pub fn decode(buf: &mut BytesMut) -> (r: Result<Option<Message>, DecodeError>)
        ensures
            decodes(held(*old(buf)), decode_view(r), held(*final(buf))),
    {
        let ghost s = held(*buf);
        let data = contents(buf);
        let n: usize = data.len();
        if n < HEADER_LEN {
            return Ok(None);
        }
        if !(data[0] == 0x42 && data[1] == 0x54 && data[2] == 0x52 && data[3] == 0x46) {
            assert(s.take(4) != magic()) by {
                assert(magic()[0] == 0x42 && magic()[1] == 0x54 && magic()[2] == 0x52
                    && magic()[3] == 0x46);
                assert(s.take(4)[0] == s[0] && s.take(4)[1] == s[1] && s.take(4)[2] == s[2]
                    && s.take(4)[3] == s[3]);
            }
            return Err(DecodeError::InvalidMagic);
        }
        assert(s.take(4) =~= magic());
        proof {
            lemma_be_value_bound(s.subrange(4, 6));
            lemma_be_value_bound(s.subrange(6, 8));
            lemma_be_value_bound(s.subrange(8, 12));
            lemma_pow256();
        }
        let version: u16 = read_be(data, 4, 6) as u16;
        if version != PROTOCOL_VERSION {
            return Err(DecodeError::UnsupportedVersion(version));
        }
        let code: u16 = read_be(data, 6, 8) as u16;
        let payload_len: u64 = read_be(data, 8, 12);
        let timestamp: i64 = read_i64(data, 12);
        if ((n - HEADER_LEN) as u64) < payload_len {
            return Ok(None);
        }
        let end: usize = HEADER_LEN + payload_len as usize;
        let payload = slice_to_vec(slice_subrange(data, HEADER_LEN, end));
        advance(buf, end);
        match MessageType::from_code(code) {
            None => Err(DecodeError::UnknownMessageType),
            Some(msg_type) => {
                assert(msg_type.spec_code() == header_code(s));
                Ok(Some(Message { msg_type, payload, timestamp }))
            },
        }
    }
}

/// A frame begins with its whole header, and its length field holds the payload's length.
proof fn lemma_frame_parts(m: MessageView, rest: Seq<u8>)
    requires
        m.payload.len() < 0x1_0000_0000,
        i64::MIN <= m.timestamp <= i64::MAX,
    ensures
        ({
            let s = frame(m) + rest;
            &&& frame(m).len() == HEADER_LEN + m.payload.len()
            &&& s.take(4) == magic()
            &&& s.subrange(4, 6) == be(PROTOCOL_VERSION as nat, 2)
            &&& s.subrange(6, 8) == be(m.msg_type.spec_code() as nat, 2)
            &&& s.subrange(8, 12) == be(m.payload.len() as nat, 4)
            &&& s.subrange(12, 20) == be_i64(m.timestamp)
            &&& s.subrange(20, 20int + m.payload.len()) == m.payload
            &&& s.skip(20int + m.payload.len()) == rest
        }),
{
    lemma_be_len(PROTOCOL_VERSION as nat, 2);
    lemma_be_len(m.msg_type.spec_code() as nat, 2);
    lemma_be_len(m.payload.len() as nat, 4);
    lemma_be_len(twos(m.timestamp), 8);
    let s = frame(m) + rest;
    assert(s.take(4) =~= magic());
    assert(s.subrange(4, 6) =~= be(PROTOCOL_VERSION as nat, 2));
    assert(s.subrange(6, 8) =~= be(m.msg_type.spec_code() as nat, 2));
    assert(s.subrange(8, 12) =~= be(m.payload.len() as nat, 4));
    assert(s.subrange(12, 20) =~= be_i64(m.timestamp));
    assert(s.subrange(20, 20int + m.payload.len()) =~= m.payload);
    assert(s.skip(20int + m.payload.len()) =~= rest);
}

/// Reading gives back what was written, and takes the frame's bytes and no others: whatever
/// follows a message's frame, decoding gives the message and leaves what follows. The length
/// field bounds the payload.
pub proof fn decode_undoes_encode(
    m: MessageView,
    rest: Seq<u8>,
    r: Result<Option<MessageView>, DecodeError>,
    left: Seq<u8>,
)
    requires
        m.payload.len() < 0x1_0000_0000,
        i64::MIN <= m.timestamp <= i64::MAX,
        decodes(frame(m) + rest, r, left),
    ensures
        r == Ok::<Option<MessageView>, DecodeError>(Some(m)),
        left == rest,
{
    let s = frame(m) + rest;
    lemma_frame_parts(m, rest);
    lemma_pow256();
    be_reads_back(PROTOCOL_VERSION as nat, 2);
    be_reads_back(m.msg_type.spec_code() as nat, 2);
    be_reads_back(m.payload.len() as nat, 4);
    be_i64_reads_back(m.timestamp);
    assert(header_version(s) == PROTOCOL_VERSION);
    assert(header_code(s) == m.msg_type.spec_code());
    assert(frame_len(s) == 20 + m.payload.len());
    assert(r is Ok && r->Ok_0 is Some);
    let got = r->Ok_0->0;
    codes_are_distinct(got.msg_type, m.msg_type);
    assert(got =~= m);
}

/// A part of a frame is not mistaken for a message: as long as bytes are missing, decoding
/// gives nothing and leaves what has come in.
pub proof fn partial_frame_is_kept(
    m: MessageView,
    k: int,
    r: Result<Option<MessageView>, DecodeError>,
    left: Seq<u8>,
)
    requires
        m.payload.len() < 0x1_0000_0000,
        i64::MIN <= m.timestamp <= i64::MAX,
        0 <= k < frame(m).len(),
        decodes(frame(m).take(k), r, left),
    ensures
        r == Ok::<Option<MessageView>, DecodeError>(None),
        left == frame(m).take(k),
{
    let s = frame(m).take(k);
    let none = Seq::<u8>::empty();
    lemma_frame_parts(m, none);
    assert(frame(m) + none =~= frame(m));
    if k >= 20 {
        lemma_pow256();
        be_reads_back(PROTOCOL_VERSION as nat, 2);
        be_reads_back(m.payload.len() as nat, 4);
        assert(s.take(4) =~= frame(m).take(4));
        assert(s.subrange(4, 6) =~= frame(m).subrange(4, 6));
        assert(s.subrange(8, 12) =~= frame(m).subrange(8, 12));
        assert(header_version(s) == PROTOCOL_VERSION);
        assert(frame_len(s) == 20 + m.payload.len());
    }
}

} // verus!
