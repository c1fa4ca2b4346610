//! Receiving a snapshot from another node.

use vstd::prelude::*;
use vstd::string::*;

use crate::exchange::config::ExchangeConfig;
use crate::number::{decimal, u64_text};
use crate::ops::commands::{below, path_below, CommandLine, CommandView};
use crate::protocol::message::{Message, MessageType, MessageView};
use crate::protocol::payload::{
    SendCompleteResponse, SendCompleteResponseView, SendStartRequest,
};
use crate::protocol::utf8::{lossy_text, text_from_utf8_lossy};

verus! {

broadcast use vstd::string::group_string_axioms;

/// The incremental hasher `blake3::Hasher`.
#[verifier::external_type_specification]
#[verifier::external_body]
pub struct ExHasher(blake3::Hasher);

/// The bytes that a hasher has taken in.
pub uninterp spec fn absorbed(h: blake3::Hasher) -> Seq<u8>;

/// The BLAKE3 hash of bytes, in hexadecimal.
pub uninterp spec fn blake3_hex(data: Seq<u8>) -> Seq<char>;

/// `blake3::Hasher::new` gives a hasher that has taken nothing in.
#[verifier::external_body]
fn new_hasher() -> (r: blake3::Hasher)
    ensures
        absorbed(r) == Seq::<u8>::empty(),
{
    blake3::Hasher::new()
}

/// `blake3::Hasher::update` takes bytes in behind those before.
#[verifier::external_body]
fn absorb(h: &mut blake3::Hasher, data: &[u8])
    ensures
        absorbed(*final(h)) == absorbed(*old(h)) + data@,
{
    h.update(data);
}

/// `blake3::Hasher::finalize` and `blake3::Hash::to_hex`: 64 characters that depend on the bytes
/// taken in alone.
#[verifier::external_body]
fn hex_digest(h: &blake3::Hasher) -> (r: String)
    ensures
        r@ == blake3_hex(absorbed(*h)),
        r@.len() == 64,
{
    h.finalize().to_hex().to_string()
}

/// A stream that is being received.
pub struct ReceiveSession {
    volume_id: String,
    hasher: blake3::Hasher,
    total_bytes: u64,
    chunk_count: u64,
}

/// What has been received of a stream.
#[verifier::ext_equal]
pub struct ReceiveView {
    pub volume_id: Seq<char>,
    pub data: Seq<u8>,
    pub total_bytes: u64,
    pub chunk_count: u64,
}

impl View for ReceiveSession {
    type V = ReceiveView;

    closed spec fn view(&self) -> ReceiveView {
        ReceiveView {
            volume_id: self.volume_id@,
            data: absorbed(self.hasher),
            total_bytes: self.total_bytes,
            chunk_count: self.chunk_count,
        }
    }
}

/// What a message makes the receiver do.
#[derive(Debug)]
pub enum ReceiveStep {
    /// Hand the message's payload to the command, and report progress if told to.
    Write { report: bool },
    /// Close the command's input and wait for its end.
    Finish,
    /// Kill the command and give up.
    Abort(String),
    /// Pass over the message.
    Ignore,
}

/// What a message makes the receiver do.
pub enum ReceiveStepView {
    Write { report: bool },
    Finish,
    Abort(Seq<char>),
    Ignore,
}

impl View for ReceiveStep {
    type V = ReceiveStepView;

    open spec fn view(&self) -> ReceiveStepView {
        match *self {
            ReceiveStep::Write { report } => ReceiveStepView::Write { report },
            ReceiveStep::Finish => ReceiveStepView::Finish,
            ReceiveStep::Abort(s) => ReceiveStepView::Abort(s@),
            ReceiveStep::Ignore => ReceiveStepView::Ignore,
        }
    }
}

/// What has been received after a message.
pub open spec fn after_chunk(s: ReceiveView, m: MessageView) -> ReceiveView {
    if m.msg_type == MessageType::SendData {
        ReceiveView {
            data: s.data + m.payload,
            total_bytes: (s.total_bytes + m.payload.len()) as u64,
            chunk_count: (s.chunk_count + 1) as u64,
            ..s
        }
    } else {
        s
    }
}

/// What a message makes the receiver do: data is written, with a report at every hundredth
/// message of data.
pub open spec fn receive_step(s: ReceiveView, m: MessageView) -> ReceiveStepView {
    match m.msg_type {
        MessageType::SendData => ReceiveStepView::Write {
            report: (s.chunk_count + 1) % 100 == 0,
        },
        MessageType::SendComplete => ReceiveStepView::Finish,
        MessageType::SendError => ReceiveStepView::Abort(
            "Remote send error: "@ + lossy_text(m.payload),
        ),
        _ => ReceiveStepView::Ignore,
    }
}

/// Tells whether a connection begins as it must: with the announcement of a stream.
pub fn expect_start(first: MessageType) -> (r: Result<(), String>)
    ensures
        r is Ok == (first == MessageType::SendStart),
        r matches Err(e) ==> e@ == "Expected SendStart, got "@ + first.spec_name(),
{
    if first == MessageType::SendStart {
        Ok(())
    } else {
        let mut e = "Expected SendStart, got ".to_owned();
        e.append(first.name());
        Err(e)
    }
}

/// Accepts the streams that other nodes send.
#[derive(Debug)]
pub struct ReplicationReceiver {
    address: String,
    snapshot_dir: String,
}

/// Where streams are accepted and stored.
pub struct ReplicationReceiverView {
    pub address: Seq<char>,
    pub snapshot_dir: Seq<char>,
}

impl View for ReplicationReceiver {
    type V = ReplicationReceiverView;

    closed spec fn view(&self) -> ReplicationReceiverView {
        ReplicationReceiverView { address: self.address@, snapshot_dir: self.snapshot_dir@ }
    }
}

impl ReplicationReceiver {
    /// A receiver that listens on the replication port.
    pub fn new(config: &ExchangeConfig) -> (r: ReplicationReceiver)
        ensures
            r@ == (ReplicationReceiverView {
                address: config.listen_addr@ + ":"@ + decimal(config.replication_port as nat),
                snapshot_dir: config.replication.snapshot_dir@,
            }),
    {
        let mut address = config.listen_addr.clone();
        address.append(":");
        address.append(u64_text(config.replication_port as u64).as_str());
        ReplicationReceiver { address, snapshot_dir: config.replication.snapshot_dir.clone() }
    }

    /// The address to listen on.
    pub fn listen_address(&self) -> (r: String)
        ensures
            r@ == self@.address,
    {
        self.address.clone()
    }

    /// Begins to receive an announced stream: gives the session, and the command that takes the
    /// stream as its input.
    pub fn handle_connection(&self, request: SendStartRequest) -> (r: (ReceiveSession, CommandLine))
        ensures
            r.0@ == (ReceiveView {
                volume_id: request@.volume_id,
                data: Seq::empty(),
                total_bytes: 0,
                chunk_count: 0,
            }),
            r.1@ == (CommandView {
                program: "btrfs"@,
                args: seq!["receive"@, below(self@.snapshot_dir, request@.volume_id)],
            }),
    {
        ReceiveSession::begin(self.snapshot_dir.as_str(), request)
    }
}

impl ReceiveSession {
    /// Begins to receive an announced stream: gives the session, and the command that takes the
    /// stream as its input.
    fn begin(snapshot_dir: &str, request: SendStartRequest) -> (r: (
        ReceiveSession,
        CommandLine,
    ))
        ensures
            r.0@ == (ReceiveView {
                volume_id: request@.volume_id,
                data: Seq::empty(),
                total_bytes: 0,
                chunk_count: 0,
            }),
            r.1@ == (CommandView {
                program: "btrfs"@,
                args: seq!["receive"@, below(snapshot_dir@, request@.volume_id)],
            }),
    {
        let path = path_below(snapshot_dir, request.volume_id.as_str());
        let command = CommandLine::new("btrfs").arg("receive").arg(path.as_str());
        assert(command@ =~= (CommandView {
            program: "btrfs"@,
            args: seq!["receive"@, below(snapshot_dir@, request@.volume_id)],
        }));
        let session = ReceiveSession {
            volume_id: request.volume_id,
            hasher: new_hasher(),
            total_bytes: 0,
            chunk_count: 0,
        };
        (session, command)
    }

    /// The bytes received so far.
    pub fn bytes_received(&self) -> (r: u64)
        ensures
            r == self@.total_bytes,
    {
        self.total_bytes
    }

    /// The messages of data received so far.
    pub fn chunks_received(&self) -> (r: u64)
        ensures
            r == self@.chunk_count,
    {
        self.chunk_count
    }

    /// Takes a message of the stream in, and tells what is to be done.
    pub fn on_message(&mut self, m: &Message) -> (r: ReceiveStep)
        requires
            old(self)@.total_bytes + m.payload@.len() <= u64::MAX,
            old(self)@.chunk_count < u64::MAX,
        ensures
            final(self)@ == after_chunk(old(self)@, m@),
            r@ == receive_step(old(self)@, m@),
    {
        match m.msg_type {
            MessageType::SendData => {
                absorb(&mut self.hasher, m.payload.as_slice());
                self.total_bytes = self.total_bytes + m.payload.len() as u64;
                self.chunk_count = self.chunk_count + 1;
                ReceiveStep::Write { report: self.chunk_count % 100 == 0 }
            },
            MessageType::SendComplete => ReceiveStep::Finish,
            MessageType::SendError => {
                let mut e = "Remote send error: ".to_owned();
                e.append(text_from_utf8_lossy(m.payload.as_slice()).as_str());
                ReceiveStep::Abort(e)
            },
            _ => ReceiveStep::Ignore,
        }
    }

    /// Acts on the end of the command: gives the message that confirms the stream with its
    /// checksum, if the command succeeded.
    pub fn on_received(&self, success: bool, stderr: &str) -> (r: Result<
        SendCompleteResponse,
        String,
    >)
        ensures
            r is Ok == success,
            r matches Ok(c) ==> c@ == (SendCompleteResponseView {
                volume_id: self@.volume_id,
                success: true,
                error: None,
                checksum: Some(blake3_hex(self@.data)),
            }),
            r matches Err(e) ==> e@ == "btrfs receive failed: "@ + stderr@,
    {
        if success {
            Ok(
                SendCompleteResponse {
                    volume_id: self.volume_id.clone(),
                    success: true,
                    error: None,
                    checksum: Some(hex_digest(&self.hasher)),
                },
            )
        } else {
            let mut e = "btrfs receive failed: ".to_owned();
            e.append(stderr);
            Err(e)
        }
    }
}

/// What has been received after some messages.
pub open spec fn after_chunks(s: ReceiveView, m: Seq<MessageView>) -> ReceiveView
    decreases m.len(),
{
    if m.len() == 0 {
        s
    } else {
        after_chunk(after_chunks(s, m.drop_last()), m.last())
    }
}

/// The data that messages carry.
pub open spec fn data_of(m: Seq<MessageView>) -> Seq<u8>
    decreases m.len(),
{
    if m.len() == 0 {
        Seq::empty()
    } else if m.last().msg_type == MessageType::SendData {
        data_of(m.drop_last()) + m.last().payload
    } else {
        data_of(m.drop_last())
    }
}

/// The checksum is that of the data of all messages in their order, whatever other messages come
/// between them, and the count of bytes is the length of that data.
pub proof fn stream_is_the_data_sent(s: ReceiveView, m: Seq<MessageView>)
    requires
        s.data == Seq::<u8>::empty(),
        s.total_bytes == 0,
    ensures
        after_chunks(s, m).data == data_of(m),
        after_chunks(s, m).volume_id == s.volume_id,
        data_of(m).len() <= u64::MAX ==> after_chunks(s, m).total_bytes == data_of(m).len(),
    decreases m.len(),
{
    if m.len() > 0 {
        stream_is_the_data_sent(s, m.drop_last());
    }
}

} // verus!
