use btrfs_csi::protocol::auth::{AuthError, HmacAuth};
use btrfs_csi::protocol::cipher::PayloadCipher;
use btrfs_csi::protocol::message::{DecodeError, Message, MessageType};
use btrfs_csi::protocol::transport::{
    AuthDecision, TcpTransport, TransportConnection, TransportError,
};
use bytes::BytesMut;
use chacha20poly1305::aead::Aead;
use chacha20poly1305::KeyInit;

#[test]
fn test_generate_and_validate_token() {
    let key = HmacAuth::generate_key().unwrap();
    let auth = HmacAuth::new(&key, 30);

    let (timestamp, signature) = auth.generate_token();
    assert!(auth.validate_token(timestamp, &signature).is_ok());
}

#[test]
fn test_invalid_signature() {
    let key = HmacAuth::generate_key().unwrap();
    let auth = HmacAuth::new(&key, 30);

    let (timestamp, _) = auth.generate_token();
    let wrong_signature = vec![0u8; 32];

    assert!(auth.validate_token(timestamp, &wrong_signature).is_err());
}

#[test]
fn test_expired_timestamp() {
    let key = HmacAuth::generate_key().unwrap();
    let auth = HmacAuth::new(&key, 1); // 1 second max age

    let (timestamp, signature) = auth.generate_token();
    // Simulate old timestamp
    let old_timestamp = timestamp - 5000; // 5 seconds ago
    assert!(auth.validate_token(old_timestamp, &signature).is_err());
}

#[test]
fn signature_is_the_hmac_of_the_timestamp() {
    let auth = HmacAuth::new(b"secret", 30);
    let mut mac = <hmac::Hmac<sha2::Sha256> as hmac::Mac>::new_from_slice(b"secret").unwrap();
    hmac::Mac::update(&mut mac, &1_700_000_000_123i64.to_be_bytes());
    let expected = hmac::Mac::finalize(mac).into_bytes().to_vec();
    assert_eq!(auth.compute_hmac(1_700_000_000_123), expected);
}

#[test]
fn verdict_depends_on_age_and_signature() {
    let auth = HmacAuth::new(b"secret", 30);
    let signature = auth.compute_hmac(100_000);
    assert_eq!(auth.validate_token_at(100_000, &signature, 100_000), Ok(()));
    assert_eq!(auth.validate_token_at(100_000, &signature, 130_999), Ok(()));
    assert_eq!(auth.validate_token_at(100_000, &signature, 69_001), Ok(()));
    assert_eq!(
        auth.validate_token_at(100_000, &signature, 131_000),
        Err(AuthError::TimestampExpired)
    );
    assert_eq!(
        auth.validate_token_at(100_000, &[0u8; 32], 100_000),
        Err(AuthError::InvalidSignature)
    );
    assert_eq!(
        auth.validate_token_at(i64::MIN, &signature, i64::MAX),
        Err(AuthError::TimestampExpired)
    );
    assert_eq!(AuthError::InvalidSignature.message(), "Invalid HMAC signature");
    assert_eq!(AuthError::TimestampExpired.message(), "Timestamp expired");
    assert_eq!(AuthError::InvalidTimestamp.message(), "Invalid timestamp");
    assert_eq!(AuthError::KeyGenerationFailed.message(), "Key generation failed");
}

#[test]
fn generated_keys_differ() {
    let a = HmacAuth::generate_key().unwrap();
    let b = HmacAuth::generate_key().unwrap();
    assert_eq!(a.len(), 32);
    assert_ne!(a, b);
}

#[test]
fn auth_payload_reads_back() {
    let hmac = vec![7u8; 32];
    let payload = HmacAuth::serialize_auth_payload(-5, &hmac);
    assert_eq!(payload.len(), 40);
    assert_eq!(&payload[..8], &(-5i64).to_be_bytes());
    assert_eq!(HmacAuth::deserialize_auth_payload(&payload), Ok((-5, hmac)));
    assert_eq!(
        HmacAuth::deserialize_auth_payload(&payload[..39]),
        Err(AuthError::InvalidSignature)
    );
}

#[test]
fn frame_layout() {
    let m = Message { msg_type: MessageType::SendData, payload: vec![1, 2, 3], timestamp: -2 };
    let frame = m.encode();
    let mut expected = vec![0x42, 0x54, 0x52, 0x46, 0, 1, 3, 1, 0, 0, 0, 3];
    expected.extend_from_slice(&(-2i64).to_be_bytes());
    expected.extend_from_slice(&[1, 2, 3]);
    assert_eq!(frame.as_ref(), expected.as_slice());
}

#[test]
fn message_reads_back_from_frame() {
    let m = Message { msg_type: MessageType::StateSync, payload: vec![9; 300], timestamp: 77 };
    let mut buf = BytesMut::new();
    buf.extend_from_slice(&m.encode());
    buf.extend_from_slice(b"more");
    let got = Message::decode(&mut buf).unwrap().unwrap();
    assert_eq!(got.msg_type, MessageType::StateSync);
    assert_eq!(got.payload, vec![9; 300]);
    assert_eq!(got.timestamp, 77);
    assert_eq!(buf.as_ref(), b"more");
}

#[test]
fn partial_frame_waits() {
    let frame = Message { msg_type: MessageType::Auth, payload: vec![1; 10], timestamp: 0 }.encode();
    for k in 0..frame.len() {
        let mut buf = BytesMut::from(&frame[..k]);
        assert!(Message::decode(&mut buf).unwrap().is_none());
        assert_eq!(buf.as_ref(), &frame[..k]);
    }
}

#[test]
fn bad_frames_are_refused() {
    let frame = Message { msg_type: MessageType::Auth, payload: vec![], timestamp: 0 }.encode();
    let mut bad = frame.to_vec();
    bad[0] = 0;
    let e = Message::decode(&mut BytesMut::from(bad.as_slice())).unwrap_err();
    assert_eq!(e, DecodeError::InvalidMagic);
    assert_eq!(e.message(), "Invalid magic bytes");
    let mut bad = frame.to_vec();
    bad[5] = 2;
    let e = Message::decode(&mut BytesMut::from(bad.as_slice())).unwrap_err();
    assert_eq!(e, DecodeError::UnsupportedVersion(2));
    assert_eq!(e.message(), "Unsupported protocol version: 2");
    let mut bad = frame.to_vec();
    bad[6] = 9;
    let mut buf = BytesMut::from(bad.as_slice());
    let e = Message::decode(&mut buf).unwrap_err();
    assert_eq!(e, DecodeError::UnknownMessageType);
    assert_eq!(e.message(), "Unknown message type");
    assert_eq!(buf.len(), 0);
}

#[test]
fn kinds_and_their_numbers() {
    for code in 0..=0x0600u16 {
        if let Some(t) = MessageType::from_code(code) {
            assert_eq!(t.code(), code);
            assert_eq!(t.name(), format!("{:?}", t));
        }
    }
    assert_eq!((0..=u16::MAX).filter(|c| MessageType::from_code(*c).is_some()).count(), 24);
    assert_eq!(MessageType::VolumeListAck.code(), 0x0503);
}

#[test]
fn new_message_bears_the_time() {
    let before = chrono::Utc::now().timestamp_millis();
    let m = Message::new(MessageType::Heartbeat, vec![1]);
    let after = chrono::Utc::now().timestamp_millis();
    assert!(before <= m.timestamp && m.timestamp <= after);
    assert_eq!(m.payload, vec![1]);
}

#[test]
fn cipher_opens_what_it_sealed() {
    let cipher = PayloadCipher::new(b"secret");
    let sealed = cipher.encrypt(b"payload");
    assert_eq!(sealed.len(), 7 + 24 + 16);
    assert_ne!(&sealed[24..31], b"payload");
    assert_eq!(cipher.decrypt(&sealed), Some(b"payload".to_vec()));
    assert_eq!(PayloadCipher::new(b"other").decrypt(&sealed), None);
    let mut changed = sealed.clone();
    changed[30] ^= 1;
    assert_eq!(cipher.decrypt(&changed), None);
    assert_eq!(cipher.decrypt(&sealed[..39]), None);
    assert_ne!(cipher.encrypt(b"payload"), sealed);
}

#[test]
fn sealed_payload_is_that_of_the_digested_key() {
    let key = <sha2::Sha256 as sha2::Digest>::digest(b"secret");
    let reference =
        chacha20poly1305::XChaCha20Poly1305::new(chacha20poly1305::Key::from_slice(&key));
    let nonce = vec![5u8; 24];
    let expected = reference
        .encrypt(chacha20poly1305::XNonce::from_slice(&nonce), b"data".as_slice())
        .unwrap();
    let sealed = PayloadCipher::new(b"secret").encrypt_with(nonce.clone(), b"data");
    assert_eq!(&sealed[..24], nonce.as_slice());
    assert_eq!(&sealed[24..], expected.as_slice());
}

fn transfer(from: &TransportConnection, to: &mut TransportConnection, m: &Message) -> Message {
    let bytes = from.send_message(m);
    to.feed(&bytes[..5]).unwrap();
    assert_eq!(to.unread_len(), 5);
    assert!(to.recv_message().unwrap().is_none());
    to.feed(&bytes[5..]).unwrap();
    to.recv_message().unwrap().unwrap()
}

#[test]
fn authenticated_connection_carries_messages() {
    let transport = TcpTransport::new(b"cluster-key");
    let mut client = TransportConnection::new();
    let mut server = TransportConnection::new();

    let request = transfer(&client, &mut server, &transport.auth_request());
    assert_eq!(request.msg_type, MessageType::Auth);
    assert!(matches!(transport.accept(&request), AuthDecision::Welcome));
    let ok = Message::new(MessageType::AuthOk, vec![]);
    let answer = transfer(&server, &mut client, &ok);
    transport.welcome(&mut server);
    assert!(transport.connect(&mut client, answer).is_ok());

    let m = Message { msg_type: MessageType::Heartbeat, payload: vec![1, 2, 3], timestamp: 5 };
    let wire = client.send_message(&m);
    assert_eq!(wire.len(), 20 + 3 + 40);
    let got = transfer(&client, &mut server, &m);
    assert_eq!(got.msg_type, MessageType::Heartbeat);
    assert_eq!(got.payload, vec![1, 2, 3]);
    assert_eq!(got.timestamp, 5);
}

#[test]
fn refused_node_learns_why() {
    let transport = TcpTransport::new(b"cluster-key");
    let stranger = TcpTransport::new(b"other-key");
    let request = stranger.auth_request();
    let (reason, error) = match transport.accept(&request) {
        AuthDecision::Refuse(reason, error) => (reason, error),
        _ => panic!("expected a refusal"),
    };
    assert_eq!(reason, b"Invalid HMAC signature".to_vec());
    assert_eq!(error.message(), "Authentication failed: Invalid HMAC signature");
    let mut conn = TransportConnection::new();
    let answer = Message::new(MessageType::AuthFailed, reason);
    match stranger.connect(&mut conn, answer) {
        Err(TransportError::AuthFailed(s)) => assert_eq!(s, "Invalid HMAC signature"),
        _ => panic!("expected an error"),
    }
}

#[test]
fn handshake_errors() {
    let transport = TcpTransport::new(b"k");
    let stale = Message {
        msg_type: MessageType::Auth,
        payload: transport.auth_request().payload,
        timestamp: 0,
    };
    match transport.accept_at(&stale, 0) {
        AuthDecision::Refuse(reason, _) => assert_eq!(reason, b"Timestamp expired".to_vec()),
        _ => panic!("expected a refusal"),
    }
    let short = Message { msg_type: MessageType::Auth, payload: vec![0; 39], timestamp: 0 };
    match transport.accept_at(&short, 0) {
        AuthDecision::Drop(TransportError::AuthFailed(s)) => {
            assert_eq!(s, "Invalid HMAC signature")
        }
        _ => panic!("expected a drop"),
    }
    let other = Message { msg_type: MessageType::Heartbeat, payload: vec![], timestamp: 0 };
    match transport.accept_at(&other, 0) {
        AuthDecision::Drop(e) => assert_eq!(e.message(), "Protocol error: Expected auth message"),
        _ => panic!("expected a drop"),
    }
    let mut conn = TransportConnection::new();
    match transport.connect(&mut conn, other) {
        Err(TransportError::Protocol(s)) => assert_eq!(s, "Unexpected response to auth"),
        _ => panic!("expected an error"),
    }
    let garbled =
        Message { msg_type: MessageType::AuthFailed, payload: vec![0xff, 0xfe], timestamp: 0 };
    match transport.connect(&mut conn, garbled) {
        Err(TransportError::AuthFailed(s)) => assert_eq!(s, "Unknown error"),
        _ => panic!("expected an error"),
    }
}

#[test]
fn connection_errors() {
    let mut conn = TransportConnection::new();
    match conn.feed(&[]) {
        Err(e) => assert_eq!(e.message(), "Connection closed"),
        Ok(()) => panic!("expected an error"),
    }
    conn.feed(&[0u8; 20]).unwrap();
    match conn.recv_message() {
        Err(e) => assert_eq!(e.message(), "IO error: Invalid magic bytes"),
        Ok(_) => panic!("expected an error"),
    }
    let mut conn = TransportConnection::new();
    conn.enable_encryption(PayloadCipher::new(b"k"));
    let clear = Message { msg_type: MessageType::Heartbeat, payload: vec![1; 50], timestamp: 0 };
    conn.feed(&clear.encode()).unwrap();
    match conn.recv_message() {
        Err(e) => assert_eq!(e.message(), "Protocol error: AES-GCM decryption failed"),
        Ok(_) => panic!("expected an error"),
    }
    assert_eq!(TransportError::DecodeError("x".to_string()).message(), "Message decode error: x");
}
