//! Sending a snapshot to another node.

use vstd::prelude::*;
use vstd::string::*;

use crate::exchange::replicator::{backoff, backoff_ms, MAX_RETRIES};
use crate::number::{decimal, u64_text};
use crate::ops::commands::{CommandLine, CommandView};
use crate::ops::snapshot::{Snapshot, SnapshotView};
use crate::protocol::message::MessageType;
use crate::protocol::payload::{
    SendCompleteResponse, SendCompleteResponseView, SendStartRequest, SendStartRequestView,
};
use crate::text::opt_view;

verus! {

broadcast use vstd::string::group_string_axioms;

/// What the sender knows of a snapshot's parent.
pub open spec fn parent_view(p: Option<Snapshot>) -> Option<SnapshotView> {
    match p {
        Some(s) => Some(s@),
        None => None,
    }
}

/// The path of a parent.
pub open spec fn parent_path(p: Option<SnapshotView>) -> Option<Seq<char>> {
    match p {
        Some(s) => Some(s.path),
        None => None,
    }
}

/// The announcement of a stream. It is incremental if there is a parent.
pub open spec fn announcement(s: SnapshotView, p: Option<SnapshotView>) -> SendStartRequestView {
    SendStartRequestView {
        volume_id: s.name,
        snapshot_name: s.path,
        is_incremental: p is Some,
        parent_snapshot: parent_path(p),
    }
}

/// The command whose output is the stream.
pub open spec fn send_call(s: SnapshotView, p: Option<SnapshotView>) -> CommandView {
    CommandView {
        program: "btrfs"@,
        args: match p {
            Some(parent) => seq!["send"@, "-p"@, parent.path, s.path],
            None => seq!["send"@, s.path],
        },
    }
}

/// The announcement of a stream.
pub fn announce(snapshot: &Snapshot, previous: &Option<Snapshot>) -> (r: SendStartRequest)
    ensures
        r@ == announcement(snapshot@, parent_view(*previous)),
{
    let (is_incremental, parent_snapshot) = match previous {
        Some(p) => (true, Some(p.path.clone())),
        None => (false, None),
    };
    SendStartRequest {
        volume_id: snapshot.name.clone(),
        snapshot_name: snapshot.path.clone(),
        is_incremental,
        parent_snapshot,
    }
}

/// Acts on the answer to the announcement: gives the command whose output is the stream, if the
/// receiver is ready.
pub fn on_answer(snapshot: &Snapshot, previous: &Option<Snapshot>, answer: MessageType) -> (r:
    Result<CommandLine, String>)
    ensures
        r is Ok == (answer == MessageType::SendStart),
        r matches Ok(c) ==> c@ == send_call(snapshot@, parent_view(*previous)),
        r matches Err(e) ==> e@ == "Unexpected response: "@ + answer.spec_name(),
{
    if answer != MessageType::SendStart {
        let mut e = "Unexpected response: ".to_owned();
        e.append(answer.name());
        return Err(e);
    }
    let start = CommandLine::new("btrfs").arg("send");
    let c = match previous {
        Some(p) => start.arg("-p").arg(p.path.as_str()).arg(snapshot.path.as_str()),
        None => start.arg(snapshot.path.as_str()),
    };
    assert(c@ =~= send_call(snapshot@, parent_view(*previous)));
    Ok(c)
}

/// Acts on the end of the command: gives the message that completes the stream, if the command
/// succeeded.
pub fn on_sent(snapshot: &Snapshot, success: bool, stderr: &str) -> (r: Result<
    SendCompleteResponse,
    String,
>)
    ensures
        r is Ok == success,
        r matches Ok(c) ==> c@ == (SendCompleteResponseView {
            volume_id: snapshot@.name,
            success: true,
            error: None,
            checksum: None,
        }),
        r matches Err(e) ==> e@ == "btrfs send failed: "@ + stderr@,
{
    if success {
        Ok(
            SendCompleteResponse {
                volume_id: snapshot.name.clone(),
                success: true,
                error: None,
                checksum: None,
            },
        )
    } else {
        let mut e = "btrfs send failed: ".to_owned();
        e.append(stderr);
        Err(e)
    }
}

/// What follows an attempt at a transfer.
#[derive(Debug)]
pub enum AttemptStep {
    /// The transfer has succeeded.
    Done,
    /// Try again after that many milliseconds.
    RetryAfter(u64),
    /// Give the target up.
    GiveUp(String),
}

/// What follows an attempt at a transfer.
pub enum AttemptStepView {
    Done,
    RetryAfter(nat),
    GiveUp(Seq<char>),
}

impl View for AttemptStep {
    type V = AttemptStepView;

    open spec fn view(&self) -> AttemptStepView {
        match *self {
            AttemptStep::Done => AttemptStepView::Done,
            AttemptStep::RetryAfter(ms) => AttemptStepView::RetryAfter(ms as nat),
            AttemptStep::GiveUp(s) => AttemptStepView::GiveUp(s@),
        }
    }
}

/// What follows attempt number `attempt`, counted from zero, by the error that it ended in.
pub open spec fn attempt_step(attempt: nat, error: Option<Seq<char>>) -> AttemptStepView {
    match error {
        None => AttemptStepView::Done,
        Some(e) => if attempt < MAX_RETRIES {
            AttemptStepView::RetryAfter(backoff(attempt))
        } else {
            AttemptStepView::GiveUp(
                "Failed after "@ + decimal(MAX_RETRIES as nat) + " retries: "@ + e,
            )
        },
    }
}

/// Decides what follows an attempt at a transfer.
pub fn after_attempt(attempt: u32, error: &Option<String>) -> (r: AttemptStep)
    ensures
        r@ == attempt_step(attempt as nat, opt_view(*error)),
{
    match error {
        None => AttemptStep::Done,
        Some(e) => if attempt < MAX_RETRIES {
            AttemptStep::RetryAfter(backoff_ms(attempt))
        } else {
            let mut s = "Failed after ".to_owned();
            s.append(u64_text(MAX_RETRIES as u64).as_str());
            s.append(" retries: ");
            s.append(e.as_str());
            AttemptStep::GiveUp(s)
        },
    }
}

} // verus!
