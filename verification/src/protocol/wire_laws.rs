//! What the bytes on the wire and the authentication of nodes promise.

use vstd::prelude::*;
use vstd::string::*;
use vstd::utf8::{decode_utf8, valid_utf8};

use crate::number::decimal;
use crate::protocol::auth::{
    auth_payload_parts, hmac_tag, token_signature, token_verdict, AuthError, HmacAuthView,
};
use crate::protocol::big_endian::{be, be_i64, be_i64_value, be_value, lemma_be_len, twos};
use crate::protocol::cipher::{decrypted, encrypts, sealed, unsealed};
use crate::protocol::message::{decodes, frame, DecodeError, MessageType, MessageView};
use crate::protocol::transport::{
    auth_decision, auth_payload, cluster_auth, connect_outcome, opened, AuthDecisionView,
    TransportErrorView,
};

verus! {

broadcast use vstd::string::group_string_axioms;

/// Numbers are written with the most significant byte first.
pub proof fn highest_byte_comes_first(n: nat)
    ensures
        n < 0x1_0000 ==> be(n, 2).len() == 2 && be(n, 2)[0] * 256 + be(n, 2)[1] == n,
        n < 0x1_0000_0000 ==> be(n, 4).len() == 4 && be(n, 4)[0] * 0x100_0000 + be(n, 4)[1]
            * 0x1_0000 + be(n, 4)[2] * 0x100 + be(n, 4)[3] == n,
{
    reveal_with_fuel(be, 5);
    lemma_be_len(n, 2);
    lemma_be_len(n, 4);
    let (a, b, c) = (n / 256, n / 256 / 256, n / 256 / 256 / 256);
    assert(be(n, 2) =~= seq![(a % 256) as u8, (n % 256) as u8]);
    assert(be(n, 4) =~= seq![
        (c % 256) as u8,
        (b % 256) as u8,
        (a % 256) as u8,
        (n % 256) as u8,
    ]);
}

/// Bytes denote the number that they write, each counting 256 times the next.
pub proof fn bytes_denote_their_number(s: Seq<u8>, x: u8)
    ensures
        be_value(Seq::empty()) == 0,
        be_value(s.push(x)) == 256 * be_value(s) + x,
        be_i64_value(s) == if be_value(s) < 0x8000_0000_0000_0000 {
            be_value(s) as int
        } else {
            be_value(s) - 0x1_0000_0000_0000_0000
        },
{
    assert(s.push(x).drop_last() =~= s);
}

/// A frame begins with the letters `BTRF` and the version 1. The kind, the payload's length and the
/// time follow, and behind these 20 bytes the payload.
pub proof fn frame_is_laid_out(m: MessageView)
    requires
        m.payload.len() < 0x1_0000_0000,
    ensures
        ({
            let f = frame(m);
            &&& f.len() == 20 + m.payload.len()
            &&& f[0] == 0x42 && f[1] == 0x54 && f[2] == 0x52 && f[3] == 0x46
            &&& f[4] == 0 && f[5] == 1
            &&& f[6] * 256 + f[7] == m.msg_type.spec_code()
            &&& f[8] * 0x100_0000 + f[9] * 0x1_0000 + f[10] * 0x100 + f[11] == m.payload.len()
            &&& f.subrange(12, 20) == be_i64(m.timestamp)
            &&& f.skip(20) == m.payload
        }),
{
    let f = frame(m);
    let code = m.msg_type.spec_code() as nat;
    highest_byte_comes_first(1);
    highest_byte_comes_first(code);
    highest_byte_comes_first(m.payload.len());
    lemma_be_len(twos(m.timestamp), 8);
    assert(m.payload.len() % 0x1_0000_0000 == m.payload.len());
    assert(f[4] == be(1, 2)[0] && f[5] == be(1, 2)[1]);
    assert(f[6] == be(code, 2)[0] && f[7] == be(code, 2)[1]);
    let n = be(m.payload.len(), 4);
    assert(f[8] == n[0] && f[9] == n[1] && f[10] == n[2] && f[11] == n[3]);
    assert(f.subrange(12, 20) =~= be_i64(m.timestamp));
    assert(f.skip(20) =~= m.payload);
}

/// Every kind of message has its number.
pub proof fn kinds_have_their_numbers()
    ensures
        MessageType::Auth.spec_code() == 0x0001,
        MessageType::AuthOk.spec_code() == 0x0002,
        MessageType::AuthFailed.spec_code() == 0x0003,
        MessageType::Heartbeat.spec_code() == 0x0100,
        MessageType::HeartbeatAck.spec_code() == 0x0101,
        MessageType::CreateVolume.spec_code() == 0x0200,
        MessageType::CreateVolumeAck.spec_code() == 0x0201,
        MessageType::DeleteVolume.spec_code() == 0x0202,
        MessageType::DeleteVolumeAck.spec_code() == 0x0203,
        MessageType::GetVolumeInfo.spec_code() == 0x0204,
        MessageType::GetVolumeInfoAck.spec_code() == 0x0205,
        MessageType::SendStart.spec_code() == 0x0300,
        MessageType::SendData.spec_code() == 0x0301,
        MessageType::SendComplete.spec_code() == 0x0302,
        MessageType::SendError.spec_code() == 0x0303,
        MessageType::SendIncrementalStart.spec_code() == 0x0304,
        MessageType::NodeJoin.spec_code() == 0x0400,
        MessageType::NodeLeave.spec_code() == 0x0401,
        MessageType::NodeList.spec_code() == 0x0402,
        MessageType::NodeListAck.spec_code() == 0x0403,
        MessageType::StateSync.spec_code() == 0x0500,
        MessageType::StateSyncAck.spec_code() == 0x0501,
        MessageType::VolumeList.spec_code() == 0x0502,
        MessageType::VolumeListAck.spec_code() == 0x0503,
{
}

/// Every kind of message is called by its name.
pub proof fn kinds_are_called_by_their_names()
    ensures
        MessageType::Auth.spec_name() == "Auth"@,
        MessageType::AuthOk.spec_name() == "AuthOk"@,
        MessageType::AuthFailed.spec_name() == "AuthFailed"@,
        MessageType::Heartbeat.spec_name() == "Heartbeat"@,
        MessageType::HeartbeatAck.spec_name() == "HeartbeatAck"@,
        MessageType::CreateVolume.spec_name() == "CreateVolume"@,
        MessageType::CreateVolumeAck.spec_name() == "CreateVolumeAck"@,
        MessageType::DeleteVolume.spec_name() == "DeleteVolume"@,
        MessageType::DeleteVolumeAck.spec_name() == "DeleteVolumeAck"@,
        MessageType::GetVolumeInfo.spec_name() == "GetVolumeInfo"@,
        MessageType::GetVolumeInfoAck.spec_name() == "GetVolumeInfoAck"@,
        MessageType::SendStart.spec_name() == "SendStart"@,
        MessageType::SendData.spec_name() == "SendData"@,
        MessageType::SendComplete.spec_name() == "SendComplete"@,
        MessageType::SendError.spec_name() == "SendError"@,
        MessageType::SendIncrementalStart.spec_name() == "SendIncrementalStart"@,
        MessageType::NodeJoin.spec_name() == "NodeJoin"@,
        MessageType::NodeLeave.spec_name() == "NodeLeave"@,
        MessageType::NodeList.spec_name() == "NodeList"@,
        MessageType::NodeListAck.spec_name() == "NodeListAck"@,
        MessageType::StateSync.spec_name() == "StateSync"@,
        MessageType::StateSyncAck.spec_name() == "StateSyncAck"@,
        MessageType::VolumeList.spec_name() == "VolumeList"@,
        MessageType::VolumeListAck.spec_name() == "VolumeListAck"@,
{
}

/// Bytes that are no frame are refused for what is wrong with them: the letters at the head first,
/// then the version, and the kind once the whole frame is there. Less than a header is waited on.
pub proof fn bytes_that_are_no_frame_are_refused(
    s: Seq<u8>,
    r: Result<Option<MessageView>, DecodeError>,
    left: Seq<u8>,
)
    requires
        decodes(s, r, left),
    ensures
        s.len() < 20 ==> r == Ok::<Option<MessageView>, DecodeError>(None) && left == s,
        s.len() >= 20 && s.take(4) != seq![0x42u8, 0x54u8, 0x52u8, 0x46u8] ==> r == Err::<
            Option<MessageView>,
            DecodeError,
        >(DecodeError::InvalidMagic) && left == s,
        s.len() >= 20 && s.take(4) == seq![0x42u8, 0x54u8, 0x52u8, 0x46u8] ==> {
            let version = s[4] * 256 + s[5];
            let code = s[6] * 256 + s[7];
            let len = s[8] * 0x100_0000 + s[9] * 0x1_0000 + s[10] * 0x100 + s[11];
            &&& version != 1 ==> r == Err::<Option<MessageView>, DecodeError>(
                DecodeError::UnsupportedVersion(version as u16),
            ) && left == s
            &&& version == 1 && s.len() < 20 + len ==> r == Ok::<
                Option<MessageView>,
                DecodeError,
            >(None) && left == s
            &&& version == 1 && s.len() >= 20 + len ==> {
                &&& left == s.skip(20 + len)
                &&& (forall|t: MessageType| #[trigger] t.spec_code() != code) ==> r == Err::<
                    Option<MessageView>,
                    DecodeError,
                >(DecodeError::UnknownMessageType)
                &&& (exists|t: MessageType| #[trigger] t.spec_code() == code) ==> (r matches Ok(
                    Some(m),
                ) && m.msg_type.spec_code() == code && m.payload == s.subrange(20, 20 + len)
                    && m.timestamp == be_i64_value(s.subrange(12, 20)))
            }
        },
{
    if s.len() >= 20 {
        reveal_with_fuel(be_value, 5);
        let v = s.subrange(4, 6);
        assert(v.drop_last().last() == s[4] && v.last() == s[5]);
        let c = s.subrange(6, 8);
        assert(c.drop_last().last() == s[6] && c.last() == s[7]);
        let l = s.subrange(8, 12);
        assert(l.last() == s[11] && l.drop_last().last() == s[10]);
        assert(l.drop_last().drop_last().last() == s[9]);
        assert(l.drop_last().drop_last().drop_last().last() == s[8]);
    }
}

/// What is wrong with bytes or a token is said in words.
pub proof fn errors_are_said_in_words(v: u16, s: Seq<char>)
    ensures
        DecodeError::InvalidMagic.text() == "Invalid magic bytes"@,
        DecodeError::UnsupportedVersion(v).text() == "Unsupported protocol version: "@ + decimal(
            v as nat,
        ),
        DecodeError::UnknownMessageType.text() == "Unknown message type"@,
        AuthError::InvalidSignature.text() == "Invalid HMAC signature"@,
        AuthError::TimestampExpired.text() == "Timestamp expired"@,
        AuthError::InvalidTimestamp.text() == "Invalid timestamp"@,
        AuthError::KeyGenerationFailed.text() == "Key generation failed"@,
        TransportErrorView::Io(s).text() == "IO error: "@ + s,
        TransportErrorView::ConnectionClosed.text() == "Connection closed"@,
        TransportErrorView::AuthFailed(s).text() == "Authentication failed: "@ + s,
        TransportErrorView::Protocol(s).text() == "Protocol error: "@ + s,
        TransportErrorView::DecodeError(s).text() == "Message decode error: "@ + s,
{
}

/// A token is judged by its age first, then by its signature, which is the tag of the time's eight
/// bytes. It may come from the past or from the future, by less than a second more than allowed.
pub proof fn tokens_are_judged_by_age_and_signature(
    auth: HmacAuthView,
    timestamp: int,
    signature: Seq<u8>,
    now: int,
)
    requires
        auth.max_age_secs >= 0,
    ensures
        ({
            let r = token_verdict(auth, timestamp, signature, now);
            let limit = (auth.max_age_secs + 1) * 1000;
            let fresh = now - timestamp < limit && timestamp - now < limit;
            &&& !fresh ==> r == Err::<(), AuthError>(AuthError::TimestampExpired)
            &&& fresh && signature != hmac_tag(auth.key, be_i64(timestamp)) ==> r == Err::<
                (),
                AuthError,
            >(AuthError::InvalidSignature)
            &&& fresh && signature == hmac_tag(auth.key, be_i64(timestamp)) ==> r is Ok
        }),
{
}

/// The payload of an authentication is the time's eight bytes and the tag's thirty-two; one that is
/// shorter is refused.
pub proof fn authentication_is_laid_out(key: Seq<u8>, timestamp: int, data: Seq<u8>)
    ensures
        auth_payload(key, timestamp) == be_i64(timestamp) + hmac_tag(key, be_i64(timestamp)),
        token_signature(key, timestamp) == hmac_tag(key, be_i64(timestamp)),
        data.len() < 40 ==> auth_payload_parts(data) == Err::<(int, Seq<u8>), AuthError>(
            AuthError::InvalidSignature,
        ),
        data.len() >= 40 ==> auth_payload_parts(data) == Ok::<(int, Seq<u8>), AuthError>(
            (be_i64_value(data.subrange(0, 8)), data.subrange(8, 40)),
        ),
{
    if data.len() >= 40 {
        assert(data.subrange(0, 8) =~= data.take(8));
    }
}

/// A node is welcome whose first message is an authentication with the tag of a time that is less
/// than 31 seconds away. Another one is dropped without an answer where its message is none or too
/// short, and is refused with the reason otherwise.
pub proof fn nodes_are_welcome_within_half_a_minute(key: Seq<u8>, first: MessageView, now: int)
    ensures
        ({
            let r = auth_decision(key, first, now);
            let timestamp = be_i64_value(first.payload.subrange(0, 8));
            let fresh = now - timestamp < 31_000 && timestamp - now < 31_000;
            let genuine = first.payload.subrange(8, 40) == hmac_tag(key, be_i64(timestamp));
            &&& first.msg_type != MessageType::Auth ==> r == AuthDecisionView::Drop(
                TransportErrorView::Protocol("Expected auth message"@),
            )
            &&& first.msg_type == MessageType::Auth && first.payload.len() < 40 ==> r
                == AuthDecisionView::Drop(
                TransportErrorView::AuthFailed("Invalid HMAC signature"@),
            )
            &&& first.msg_type == MessageType::Auth && first.payload.len() >= 40 ==> {
                &&& fresh && genuine ==> r == AuthDecisionView::Welcome
                &&& !fresh ==> r == AuthDecisionView::Refuse(
                    vstd::utf8::encode_utf8("Timestamp expired"@),
                    TransportErrorView::AuthFailed("Timestamp expired"@),
                )
                &&& fresh && !genuine ==> r == AuthDecisionView::Refuse(
                    vstd::utf8::encode_utf8("Invalid HMAC signature"@),
                    TransportErrorView::AuthFailed("Invalid HMAC signature"@),
                )
            }
        }),
        cluster_auth(key).key == key,
        cluster_auth(key).max_age_secs == 30,
{
    if first.payload.len() >= 40 {
        assert(first.payload.subrange(0, 8) =~= first.payload.take(8));
    }
}

/// The connecting node goes by the answer: it is in when it is welcome, and otherwise fails with
/// the reason that it was given, if that is text.
pub proof fn answer_decides_on_the_connection(answer: MessageView)
    ensures
        connect_outcome(answer) is Ok == (answer.msg_type == MessageType::AuthOk),
        answer.msg_type == MessageType::AuthFailed && valid_utf8(answer.payload)
            ==> connect_outcome(answer) == Err::<(), TransportErrorView>(
            TransportErrorView::AuthFailed(decode_utf8(answer.payload)),
        ),
        answer.msg_type == MessageType::AuthFailed && !valid_utf8(answer.payload)
            ==> connect_outcome(answer) == Err::<(), TransportErrorView>(
            TransportErrorView::AuthFailed("Unknown error"@),
        ),
        answer.msg_type != MessageType::AuthOk && answer.msg_type != MessageType::AuthFailed
            ==> connect_outcome(answer) == Err::<(), TransportErrorView>(
            TransportErrorView::Protocol("Unexpected response to auth"@),
        ),
{
}

/// An encrypted payload is a nonce of 24 bytes, and behind it what the cipher made under that nonce,
/// with a tag of 16 bytes. What is shorter than both was never encrypted.
pub proof fn encrypted_payload_is_laid_out(
    key: Seq<u8>,
    nonce: Seq<u8>,
    body: Seq<u8>,
    plain: Seq<u8>,
)
    requires
        nonce.len() == 24,
    ensures
        16 <= body.len() <= 274_877_906_816 + 16 ==> decrypted(key, nonce + body) == unsealed(
            key,
            nonce,
            body,
        ),
        body.len() < 16 ==> decrypted(key, nonce + body) is None,
        body.len() > 274_877_906_816 + 16 ==> decrypted(key, nonce + body) is None,
        encrypts(key, plain, nonce + body) ==> body == sealed(key, nonce, plain) && body.len()
            == plain.len() + 16 && decrypted(key, nonce + body) == Some(plain),
{
    assert((nonce + body).take(24) =~= nonce);
    assert((nonce + body).skip(24) =~= body);
}

/// Over an encrypted connection a message is what its payload decrypts to, and one that does not
/// decrypt is an error; over one in clear, it is what has come in.
pub proof fn messages_are_opened_with_the_key(key: Seq<u8>, wire: MessageView, plain: Seq<u8>)
    ensures
        opened(None, wire) == Ok::<Option<MessageView>, TransportErrorView>(Some(wire)),
        decrypted(key, wire.payload) == Some(plain) ==> opened(Some(key), wire) == Ok::<
            Option<MessageView>,
            TransportErrorView,
        >(
            Some(
                MessageView {
                    msg_type: wire.msg_type,
                    payload: plain,
                    timestamp: wire.timestamp,
                },
            ),
        ),
        decrypted(key, wire.payload) is None ==> opened(Some(key), wire) == Err::<
            Option<MessageView>,
            TransportErrorView,
        >(TransportErrorView::Protocol("AES-GCM decryption failed"@)),
{
}

} // verus!
