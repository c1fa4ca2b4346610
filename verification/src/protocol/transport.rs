//! Connections between nodes: authentication, then encrypted messages.

use bytes::{Bytes, BytesMut};
use vstd::prelude::*;
use vstd::slice::slice_to_vec;
use vstd::string::*;
use vstd::utf8::{decode_utf8, encode_utf8, valid_utf8};

use crate::protocol::auth::{
    age_secs, auth_payload_parts, auth_payload_reads_back, token_signature, token_verdict, HmacAuth,
    HmacAuthView,
};
use crate::protocol::big_endian::{be_i64, be_i64_reads_back, be_i64_value};
use crate::protocol::buffer::{contents, frozen, held, new_buffer, put_slice};
use crate::protocol::cipher::{
    decrypted, encrypts, sha256, PayloadCipher, MAX_PLAINTEXT, NONCE_LEN, TAG_LEN,
};
use crate::protocol::clock::now_millis;
use crate::protocol::message::{
    decode_undoes_encode, decode_view, decodes, frame, DecodeError, Message, MessageType, MessageView,
};
use crate::protocol::utf8::text_from_utf8;

verus! {

broadcast use vstd::string::group_string_axioms;

/// Errors that can occur during transport operations.
#[derive(Debug)]
pub enum TransportError {
    Io(String),
    ConnectionClosed,
    AuthFailed(String),
    Protocol(String),
    DecodeError(String),
}

/// What a transport error says.
pub enum TransportErrorView {
    Io(Seq<char>),
    ConnectionClosed,
    AuthFailed(Seq<char>),
    Protocol(Seq<char>),
    DecodeError(Seq<char>),
}

impl View for TransportError {
    type V = TransportErrorView;

    open spec fn view(&self) -> TransportErrorView {
        match *self {
            TransportError::Io(s) => TransportErrorView::Io(s@),
            TransportError::ConnectionClosed => TransportErrorView::ConnectionClosed,
            TransportError::AuthFailed(s) => TransportErrorView::AuthFailed(s@),
            TransportError::Protocol(s) => TransportErrorView::Protocol(s@),
            TransportError::DecodeError(s) => TransportErrorView::DecodeError(s@),
        }
    }
}

impl TransportErrorView {
    /// The text of the error.
    pub open spec fn text(self) -> Seq<char> {
        match self {
            TransportErrorView::Io(s) => "IO error: "@ + s,
            TransportErrorView::ConnectionClosed => "Connection closed"@,
            TransportErrorView::AuthFailed(s) => "Authentication failed: "@ + s,
            TransportErrorView::Protocol(s) => "Protocol error: "@ + s,
            TransportErrorView::DecodeError(s) => "Message decode error: "@ + s,
        }
    }
}

impl TransportError {
    /// Says what is wrong.
    pub fn message(&self) -> (r: String)
        ensures
            r@ == self@.text(),
    {
        match self {
            TransportError::Io(s) => "IO error: ".to_owned().concat(s.as_str()),
            TransportError::ConnectionClosed => "Connection closed".to_owned(),
            TransportError::AuthFailed(s) => "Authentication failed: ".to_owned().concat(s.as_str()),
            TransportError::Protocol(s) => "Protocol error: ".to_owned().concat(s.as_str()),
            TransportError::DecodeError(s) => "Message decode error: ".to_owned().concat(
                s.as_str(),
            ),
        }
    }
}

/// One end of a connection: the bytes that have come in and not been read, and the cipher once
/// the peers have authenticated.
pub struct TransportConnection {
    read_buf: BytesMut,
    cipher: Option<PayloadCipher>,
}

/// What a connection's end holds.
pub struct TransportConnectionView {
    pub unread: Seq<u8>,
    pub key: Option<Seq<u8>>,
}

impl View for TransportConnection {
    type V = TransportConnectionView;

    closed spec fn view(&self) -> TransportConnectionView {
        TransportConnectionView {
            unread: held(self.read_buf),
            key: match self.cipher {
                Some(c) => Some(c@),
                None => None,
            },
        }
    }
}

/// Whether `wire` carries the message `m` over a connection with the given key: in clear
/// without a key, with its payload encrypted otherwise.
pub open spec fn carries(key: Option<Seq<u8>>, m: MessageView, wire: Seq<u8>) -> bool {
    match key {
        None => wire == frame(m),
        Some(k) => exists|body: Seq<u8>|
            encrypts(k, m.payload, body) && wire == #[trigger] frame(
                MessageView { payload: body, ..m },
            ),
    }
}

/// What receiving a message comes to: `r` is the outcome, without an outcome if bytes are
/// missing, and `left` the bytes that stay unread.
pub open spec fn receives(
    at: TransportConnectionView,
    r: Result<Option<MessageView>, TransportErrorView>,
    left: Seq<u8>,
) -> bool {
    exists|d: Result<Option<MessageView>, DecodeError>|
        #[trigger] decodes(at.unread, d, left) && r == match d {
            Err(e) => Err::<Option<MessageView>, TransportErrorView>(
                TransportErrorView::Io(e.text()),
            ),
            Ok(None) => Ok(None),
            Ok(Some(wire)) => opened(at.key, wire),
        }
}

/// The message that a frame's contents stand for over a connection with the given key.
pub open spec fn opened(key: Option<Seq<u8>>, wire: MessageView) -> Result<
    Option<MessageView>,
    TransportErrorView,
> {
    match key {
        None => Ok(Some(wire)),
        Some(k) => match decrypted(k, wire.payload) {
            Some(p) => Ok(Some(MessageView { payload: p, ..wire })),
            None => Err(TransportErrorView::Protocol("AES-GCM decryption failed"@)),
        },
    }
}

/// The view of what `TransportConnection::recv_message` returns.
pub open spec fn recv_view(r: Result<Option<Message>, TransportError>) -> Result<
    Option<MessageView>,
    TransportErrorView,
> {
    match r {
        Ok(Some(m)) => Ok(Some(m@)),
        Ok(None) => Ok(None),
        Err(e) => Err(e@),
    }
}

impl TransportConnection {
    /// Whether the cipher, if there is one, has a proper key.
    pub closed spec fn wf(&self) -> bool {
        self.cipher matches Some(c) ==> c.wf()
    }

    /// A connection over which nothing has come in and which sends in clear.
    pub fn new() -> (r: TransportConnection)
        ensures
            r.wf(),
            r@ == (TransportConnectionView { unread: Seq::empty(), key: None }),
    {
        TransportConnection { read_buf: new_buffer(), cipher: None }
    }

    /// Encrypts every message from now on.
    pub fn enable_encryption(&mut self, cipher: PayloadCipher)
        requires
            old(self).wf(),
            cipher.wf(),
        ensures
            final(self).wf(),
            final(self)@ == (TransportConnectionView { key: Some(cipher@), ..old(self)@ }),
    {
        self.cipher = Some(cipher);
    }

    /// The bytes to send for a message.
    pub fn send_message(&self, msg: &Message) -> (r: Bytes)
        requires
            self.wf(),
            msg.payload@.len() <= MAX_PLAINTEXT,
            msg.payload@.len() + 60 <= isize::MAX / 2,
        ensures
            carries(self@.key, msg@, frozen(r)),
    {
        let payload = match &self.cipher {
            Some(cipher) => cipher.encrypt(msg.payload.as_slice()),
            None => slice_to_vec(msg.payload.as_slice()),
        };
        let wire_msg = Message { msg_type: msg.msg_type, payload, timestamp: msg.timestamp };
        proof {
            match self@.key {
                Some(k) => {
                    assert(encrypts(k, msg@.payload, wire_msg@.payload));
                    assert(wire_msg@ == (MessageView { payload: wire_msg@.payload, ..msg@ }));
                },
                None => {
                    assert(wire_msg@ == msg@);
                },
            }
        }
        wire_msg.encode()
    }

    /// The number of bytes that have come in and not been read.
    pub fn unread_len(&self) -> (r: usize)
        ensures
            r == self@.unread.len(),
    {
        contents(&self.read_buf).len()
    }

    /// Takes in what was read from the stream. Reading nothing means that the peer has closed
    /// the connection.
    pub fn feed(&mut self, data: &[u8]) -> (r: Result<(), TransportError>)
        requires
            old(self).wf(),
            old(self)@.unread.len() + data@.len() <= isize::MAX / 2,
        ensures
            final(self).wf(),
            final(self)@ == (TransportConnectionView {
                unread: old(self)@.unread + data@,
                ..old(self)@
            }),
            r is Ok == (data@.len() > 0),
            r matches Err(e) ==> e@ == TransportErrorView::ConnectionClosed,
    {
        if data.len() == 0 {
            assert(self@.unread + data@ =~= self@.unread);
            return Err(TransportError::ConnectionClosed);
        }
        put_slice(&mut self.read_buf, data);
        Ok(())
    }

    /// Takes a message off the bytes that have come in. Gives nothing as long as bytes are
    /// missing.
    pub fn recv_message(&mut self) -> (r: Result<Option<Message>, TransportError>)
        requires
            old(self).wf(),
        ensures
            final(self).wf(),
            final(self)@.key == old(self)@.key,
            receives(old(self)@, recv_view(r), final(self)@.unread),
    {
        let ghost before = self@.unread;
        let d = Message::decode(&mut self.read_buf);
        let ghost dv = decode_view(d);
        assert(decodes(before, dv, self@.unread));
        match d {
            Err(e) => Err(TransportError::Io(e.message())),
            Ok(None) => Ok(None),
            Ok(Some(wire)) => match &self.cipher {
                None => Ok(Some(wire)),
                Some(cipher) => match cipher.decrypt(wire.payload.as_slice()) {
                    Some(payload) => Ok(
                        Some(
                            Message {
                                msg_type: wire.msg_type,
                                payload,
                                timestamp: wire.timestamp,
                            },
                        ),
                    ),
                    None => Err(TransportError::Protocol("AES-GCM decryption failed".to_owned())),
                },
            },
        }
    }
}

/// What one end sends, the other end receives, if both have the same key: the message comes
/// out, and what was sent behind it stays unread. The length field bounds the payload, to which
/// encryption adds a nonce and a tag.
pub proof fn received_is_what_was_sent(
    key: Option<Seq<u8>>,
    m: MessageView,
    wire: Seq<u8>,
    rest: Seq<u8>,
    r: Result<Option<MessageView>, TransportErrorView>,
    left: Seq<u8>,
)
    requires
        carries(key, m, wire),
        m.payload.len() + (if key is Some {
            NONCE_LEN + TAG_LEN
        } else {
            0
        }) < 0x1_0000_0000,
        i64::MIN <= m.timestamp <= i64::MAX,
        receives(TransportConnectionView { unread: wire + rest, key }, r, left),
    ensures
        r == Ok::<Option<MessageView>, TransportErrorView>(Some(m)),
        left == rest,
{
    let d = choose|d: Result<Option<MessageView>, DecodeError>|
        #[trigger] decodes(wire + rest, d, left) && r == match d {
            Err(e) => Err::<Option<MessageView>, TransportErrorView>(
                TransportErrorView::Io(e.text()),
            ),
            Ok(None) => Ok(None),
            Ok(Some(w)) => opened(key, w),
        };
    match key {
        None => {
            decode_undoes_encode(m, rest, d, left);
        },
        Some(k) => {
            let body = choose|body: Seq<u8>|
                encrypts(k, m.payload, body) && wire == #[trigger] frame(
                    MessageView { payload: body, ..m },
                );
            let w = MessageView { payload: body, ..m };
            decode_undoes_encode(w, rest, d, left);
            assert(MessageView { payload: m.payload, ..w } == m);
        },
    }
}

/// TCP transport with HMAC authentication and payload encryption.
pub struct TcpTransport {
    auth: HmacAuth,
    auth_key: Vec<u8>,
}

/// What a transport holds: the authenticator and the cluster's key.
pub struct TcpTransportView {
    pub auth: HmacAuthView,
    pub auth_key: Seq<u8>,
}

impl View for TcpTransport {
    type V = TcpTransportView;

    closed spec fn view(&self) -> TcpTransportView {
        TcpTransportView { auth: self.auth@, auth_key: self.auth_key@ }
    }
}

/// The longest age of a token that is accepted, in seconds.
pub const TOKEN_MAX_AGE_SECS: i64 = 30;

/// The authenticator of a cluster with the given key.
pub open spec fn cluster_auth(key: Seq<u8>) -> HmacAuthView {
    HmacAuthView { key, max_age_secs: TOKEN_MAX_AGE_SECS as int }
}

/// The payload that asks a node to accept the token of the given time.
pub open spec fn auth_payload(key: Seq<u8>, timestamp: int) -> Seq<u8> {
    be_i64(timestamp) + token_signature(key, timestamp)
}

/// What the connecting end makes of the answer to its token.
pub open spec fn connect_outcome(answer: MessageView) -> Result<(), TransportErrorView> {
    match answer.msg_type {
        MessageType::AuthOk => Ok(()),
        MessageType::AuthFailed => Err(
            TransportErrorView::AuthFailed(
                if valid_utf8(answer.payload) {
                    decode_utf8(answer.payload)
                } else {
                    "Unknown error"@
                },
            ),
        ),
        _ => Err(TransportErrorView::Protocol("Unexpected response to auth"@)),
    }
}

/// What the accepting end decides on the first message of a connection.
#[derive(Debug)]
pub enum AuthDecision {
    /// Answer with `AuthOk` and an empty payload, then encrypt.
    Welcome,
    /// Answer with `AuthFailed` and the given payload, then give the connection up.
    Refuse(Vec<u8>, TransportError),
    /// Give the connection up without an answer.
    Drop(TransportError),
}

/// What a decision comes to.
pub enum AuthDecisionView {
    Welcome,
    Refuse(Seq<u8>, TransportErrorView),
    Drop(TransportErrorView),
}

impl View for AuthDecision {
    type V = AuthDecisionView;

    open spec fn view(&self) -> AuthDecisionView {
        match *self {
            AuthDecision::Welcome => AuthDecisionView::Welcome,
            AuthDecision::Refuse(p, e) => AuthDecisionView::Refuse(p@, e@),
            AuthDecision::Drop(e) => AuthDecisionView::Drop(e@),
        }
    }
}

/// The decision on the first message of a connection at the time `now`, in a cluster with the
/// given key.
pub open spec fn auth_decision(key: Seq<u8>, first: MessageView, now: int) -> AuthDecisionView {
    if first.msg_type != MessageType::Auth {
        AuthDecisionView::Drop(TransportErrorView::Protocol("Expected auth message"@))
    } else {
        match auth_payload_parts(first.payload) {
            Err(e) => AuthDecisionView::Drop(TransportErrorView::AuthFailed(e.text())),
            Ok((timestamp, signature)) => match token_verdict(
                cluster_auth(key),
                timestamp,
                signature,
                now,
            ) {
                Ok(()) => AuthDecisionView::Welcome,
                Err(e) => AuthDecisionView::Refuse(
                    encode_utf8(e.text()),
                    TransportErrorView::AuthFailed(e.text()),
                ),
            },
        }
    }
}

impl TcpTransport {
    /// Whether the authenticator goes by the cluster's key.
    pub open spec fn wf(&self) -> bool {
        self@.auth == cluster_auth(self@.auth_key)
    }

    /// A transport with the given authentication key.
    pub fn new(key: &[u8]) -> (r: TcpTransport)
        ensures
            r.wf(),
            r@ == (TcpTransportView { auth: cluster_auth(key@), auth_key: key@ }),
    {
        TcpTransport {
            auth: HmacAuth::new(key, TOKEN_MAX_AGE_SECS),
            auth_key: slice_to_vec(key),
        }
    }

    /// The message with which a connecting node authenticates, at the current time.
    pub fn auth_request(&self) -> (r: Message)
        requires
            self.wf(),
        ensures
            r.msg_type == MessageType::Auth,
            r.payload@.len() == 40,
            exists|timestamp: int|
                i64::MIN <= timestamp <= i64::MAX && r.payload@ == #[trigger] auth_payload(
                    self@.auth_key,
                    timestamp,
                ),
    {
        let (timestamp, signature) = self.auth.generate_token();
        let payload = HmacAuth::serialize_auth_payload(timestamp, signature.as_slice());
        assert(payload@ == auth_payload(self@.auth_key, timestamp as int));
        proof {
            be_i64_reads_back(timestamp as int);
        }
        Message::new(MessageType::Auth, payload)
    }

    /// Acts on the answer to the authentication: encrypts from now on if the node was accepted.
    pub fn connect(&self, conn: &mut TransportConnection, answer: Message) -> (r: Result<
        (),
        TransportError,
    >)
        requires
            self.wf(),
            old(conn).wf(),
        ensures
            final(conn).wf(),
            match r {
                Ok(()) => {
                    &&& connect_outcome(answer@) is Ok
                    &&& final(conn)@ == (TransportConnectionView {
                        key: Some(sha256(self@.auth_key)),
                        ..old(conn)@
                    })
                },
                Err(e) => {
                    &&& connect_outcome(answer@) == Err::<(), TransportErrorView>(e@)
                    &&& final(conn)@ == old(conn)@
                },
            },
    {
        match answer.msg_type {
            MessageType::AuthOk => {
                conn.enable_encryption(PayloadCipher::new(self.auth_key.as_slice()));
                Ok(())
            },
            MessageType::AuthFailed => {
                let reason = match text_from_utf8(answer.payload) {
                    Some(s) => s,
                    None => "Unknown error".to_owned(),
                };
                Err(TransportError::AuthFailed(reason))
            },
            _ => Err(TransportError::Protocol("Unexpected response to auth".to_owned())),
        }
    }

    /// Decides on the first message of an incoming connection, at the current time.
    pub fn accept(&self, first: &Message) -> (r: AuthDecision)
        requires
            self.wf(),
        ensures
            exists|now: int|
                i64::MIN <= now <= i64::MAX && r@ == #[trigger] auth_decision(
                    self@.auth_key,
                    first@,
                    now,
                ),
    {
        let now: i64 = now_millis();
        let r = self.accept_at(first, now);
        assert(r@ == auth_decision(self@.auth_key, first@, now as int));
        r
    }

    /// Decides on the first message of an incoming connection, at the time `now`.
    pub fn accept_at(&self, first: &Message, now: i64) -> (r: AuthDecision)
        requires
            self.wf(),
        ensures
            r@ == auth_decision(self@.auth_key, first@, now as int),
    {
        match first.msg_type {
            MessageType::Auth => match HmacAuth::deserialize_auth_payload(
                first.payload.as_slice(),
            ) {
                Err(e) => AuthDecision::Drop(TransportError::AuthFailed(e.message())),
                Ok((timestamp, signature)) => match self.auth.validate_token_at(
                    timestamp,
                    signature.as_slice(),
                    now,
                ) {
                    Ok(()) => AuthDecision::Welcome,
                    Err(e) => {
                        let text = e.message();
                        AuthDecision::Refuse(
                            text.as_str().as_bytes_vec(),
                            TransportError::AuthFailed(e.message()),
                        )
                    },
                },
            },
            _ => AuthDecision::Drop(TransportError::Protocol("Expected auth message".to_owned())),
        }
    }

    /// Acts on a decision to welcome the peer: encrypts from now on.
    pub fn welcome(&self, conn: &mut TransportConnection)
        requires
            old(conn).wf(),
        ensures
            final(conn).wf(),
            final(conn)@ == (TransportConnectionView {
                key: Some(sha256(self@.auth_key)),
                ..old(conn)@
            }),
    {
        conn.enable_encryption(PayloadCipher::new(self.auth_key.as_slice()));
    }
}

/// Nodes with the same key accept each other: the token of a node is welcome to every node of
/// its cluster whose clock is at most the allowed age away.
pub proof fn same_key_is_welcome(key: Seq<u8>, first: MessageView, timestamp: int, now: int)
    requires
        first.msg_type == MessageType::Auth,
        i64::MIN <= timestamp <= i64::MAX,
        first.payload == auth_payload(key, timestamp),
        first.payload.len() == 40,
        age_secs(now, timestamp) <= TOKEN_MAX_AGE_SECS,
    ensures
        auth_decision(key, first, now) == AuthDecisionView::Welcome,
{
    be_i64_reads_back(timestamp);
    auth_payload_reads_back(timestamp, token_signature(key, timestamp));
}

/// No one is welcome without the signature of a fresh timestamp under the cluster's key.
pub proof fn only_key_holders_are_welcome(key: Seq<u8>, first: MessageView, now: int)
    requires
        auth_decision(key, first, now) == AuthDecisionView::Welcome,
    ensures
        first.msg_type == MessageType::Auth,
        first.payload.len() >= 40,
        ({
            let timestamp = be_i64_value(first.payload.take(8));
            &&& first.payload.subrange(8, 40) == token_signature(key, timestamp)
            &&& age_secs(now, timestamp) <= TOKEN_MAX_AGE_SECS
        }),
{
}

/// A refused node learns why: the answer to a refusal gives the connecting end the error that
/// the accepting end reports.
pub proof fn refusal_is_reported(key: Seq<u8>, first: MessageView, now: int, answer: MessageView)
    requires
        auth_decision(key, first, now) is Refuse,
        answer.msg_type == MessageType::AuthFailed,
        answer.payload == auth_decision(key, first, now)->Refuse_0,
    ensures
        connect_outcome(answer) == Err::<(), TransportErrorView>(
            auth_decision(key, first, now)->Refuse_1,
        ),
{
    broadcast use vstd::utf8::encode_utf8_valid_utf8;
    broadcast use vstd::utf8::encode_utf8_decode_utf8;

}

} // verus!
