//! Snapshots of volumes.

use vstd::prelude::*;
use vstd::string::*;

use crate::csi::controller::{
    entry_views, find_snapshot, find_volume, first_with, snapshot_ids, volume_ids, CsiController,
    DirEntry, DirEntryView, SnapshotEntry, SnapshotEntryView,
};
use crate::csi::create_volume::attribute_views;
use crate::csi::error::{text3, CsiError, CsiErrorView};
use crate::csi::names::{name_objection, validate_volume_name};
use crate::csi::paging::{lemma_page_bounds, next_token, page, page_of, page_start};
use crate::identifier::is_uuid_v4;
use crate::number::{
    decimal, decimal_reads_back, i64_text, signed_decimal, signed_decimal_reads_back, u64_text,
};
use crate::ops::commands::{below, btrfs_call, CommandLine, CommandView};
use crate::ops::xattr::{i64_attr, parse_i64_attr, parse_u64_attr, u64_attr};
use crate::protocol::big_endian::{as_signed, from_twos};
use crate::text::{opt_view, same};

verus! {

broadcast use vstd::string::group_string_axioms;

/// What snapshots say.
pub open spec fn snapshot_entry_views(v: Seq<SnapshotEntry>) -> Seq<SnapshotEntryView> {
    v.map_values(|x: SnapshotEntry| x@)
}

/// The snapshot that an entry with an identifier stands for.
pub open spec fn snapshot_of(e: DirEntryView, id: Seq<char>) -> SnapshotEntryView {
    SnapshotEntryView {
        snapshot_id: id,
        source_volume_id: match e.source_volume_id {
            Some(s) => s,
            None => Seq::empty(),
        },
        creation_time: i64_attr(e.creation_time) as int,
        size_bytes: from_twos(u64_attr(e.size) as nat),
    }
}

/// The snapshots of the entries that have an identifier, of a source if one is given.
pub open spec fn snapshots_in(e: Seq<DirEntryView>, source: Seq<char>) -> Seq<SnapshotEntryView>
    decreases e.len(),
{
    if e.len() == 0 {
        Seq::empty()
    } else {
        let before = snapshots_in(e.drop_last(), source);
        match e.last().snapshot_id {
            Some(id) => {
                let s = snapshot_of(e.last(), id);
                if source.len() > 0 && s.source_volume_id != source {
                    before
                } else {
                    before.push(s)
                }
            },
            None => before,
        }
    }
}

fn read_snapshot(e: &DirEntry, id: &String) -> (r: SnapshotEntry)
    ensures
        r@ == snapshot_of(e@, id@),
{
    let source_volume_id = match &e.source_volume_id {
        Some(s) => s.clone(),
        None => String::new(),
    };
    assert(e@.source_volume_id is None ==> source_volume_id@ =~= Seq::<char>::empty());
    let creation_time: i64 = match &e.creation_time {
        Some(s) => parse_i64_attr(Some(s)),
        None => parse_i64_attr(None),
    };
    let size: u64 = match &e.size {
        Some(s) => parse_u64_attr(Some(s)),
        None => parse_u64_attr(None),
    };
    SnapshotEntry {
        snapshot_id: id.clone(),
        source_volume_id,
        creation_time,
        size_bytes: as_signed(size),
    }
}

fn read_snapshots(entries: &Vec<DirEntry>, source: &str) -> (r: Vec<SnapshotEntry>)
    ensures
        snapshot_entry_views(r@) == snapshots_in(entry_views(entries@), source@),
{
    let ghost all = entry_views(entries@);
    let any = source.unicode_len() == 0;
    let mut r: Vec<SnapshotEntry> = Vec::new();
    let mut i: usize = 0;
    assert(all.take(0) =~= Seq::<DirEntryView>::empty());
    assert(snapshot_entry_views(r@) =~= Seq::<SnapshotEntryView>::empty());
    while i < entries.len()
        invariant
            i <= entries@.len(),
            any == (source@.len() == 0),
            all == entry_views(entries@),
            snapshot_entry_views(r@) == snapshots_in(all.take(i as int), source@),
        decreases entries@.len() - i,
    {
        proof {
            assert(all[i as int] == entries@[i as int]@);
            assert(all.take(i + 1).drop_last() =~= all.take(i as int));
        }
        match &entries[i].snapshot_id {
            Some(id) => {
                let s = read_snapshot(&entries[i], id);
                if any || same(s.source_volume_id.as_str(), source) {
                    let ghost before = r@;
                    r.push(s);
                    assert(snapshot_entry_views(r@) =~= snapshot_entry_views(before).push(s@));
                }
            },
            None => {},
        }
        i += 1;
    }
    assert(all.take(i as int) =~= all);
    r
}

/// The attributes of a new snapshot. Its size is not known beforehand.
pub open spec fn snapshot_attributes(
    name: Seq<char>,
    snapshot_id: Seq<char>,
    source_volume_id: Seq<char>,
    now: i64,
) -> Seq<(Seq<char>, Seq<char>)> {
    seq![
        ("snapshot_id"@, snapshot_id),
        ("source_volume_id"@, source_volume_id),
        ("snapshot_name"@, name),
        ("size"@, decimal(0)),
        ("creation_time"@, signed_decimal(now as int)),
    ]
}

/// A new snapshot.
#[derive(Debug)]
pub struct NewSnapshot {
    /// The snapshot, to answer with.
    pub snapshot: SnapshotEntry,
    /// The attributes to set, in their order.
    pub attributes: Vec<(String, String)>,
}

/// How far the creation of a snapshot has come.
#[derive(Debug, Clone, Copy, PartialEq, Eq, Structural)]
pub enum SnapshotState {
    /// It is being asked whether the subvolume exists.
    Probing,
    /// The subvolume exists, and its attributes are being read.
    Reading,
    /// The source volume is being looked for.
    Finding,
    /// The snapshot is being made.
    Making,
    /// The snapshot is there and needs its attributes.
    Completing,
    /// The request has been answered.
    Finished,
}

/// What an action has come to.
#[derive(Debug)]
pub enum SnapshotEvent {
    /// Whether the subvolume exists.
    Shown(bool),
    /// The subvolume's entry of the directory.
    Entry(DirEntry),
    /// The entries of the directory of the volumes.
    Entries(Vec<DirEntry>),
    /// What the command that makes the snapshot complained of, or why it could not be run, if the
    /// snapshot is not there.
    Made(Option<String>),
}

/// What an action has come to.
pub enum SnapshotEventView {
    Shown(bool),
    Entry(DirEntryView),
    Entries(Seq<DirEntryView>),
    Made(Option<Seq<char>>),
}

impl View for SnapshotEvent {
    type V = SnapshotEventView;

    open spec fn view(&self) -> SnapshotEventView {
        match *self {
            SnapshotEvent::Shown(b) => SnapshotEventView::Shown(b),
            SnapshotEvent::Entry(e) => SnapshotEventView::Entry(e@),
            SnapshotEvent::Entries(e) => SnapshotEventView::Entries(entry_views(e@)),
            SnapshotEvent::Made(c) => SnapshotEventView::Made(opt_view(c)),
        }
    }
}

/// What is to be done next.
#[derive(Debug)]
pub enum SnapshotAction {
    /// Read the entry of the subvolume with the snapshot's name.
    ReadEntry,
    /// Read the entries of the directory of the volumes.
    ReadEntries,
    /// Run the command that makes the snapshot.
    Run(CommandLine),
    /// Give the snapshot its attributes.
    Complete,
    /// Answer with the snapshot.
    Reply(SnapshotEntry),
    /// Refuse the request.
    Refuse(CsiError),
}

/// What is to be done next.
pub enum SnapshotActionView {
    ReadEntry,
    ReadEntries,
    Run(CommandView),
    Complete,
    Reply(SnapshotEntryView),
    Refuse(CsiErrorView),
}

impl View for SnapshotAction {
    type V = SnapshotActionView;

    open spec fn view(&self) -> SnapshotActionView {
        match *self {
            SnapshotAction::ReadEntry => SnapshotActionView::ReadEntry,
            SnapshotAction::ReadEntries => SnapshotActionView::ReadEntries,
            SnapshotAction::Run(c) => SnapshotActionView::Run(c@),
            SnapshotAction::Complete => SnapshotActionView::Complete,
            SnapshotAction::Reply(s) => SnapshotActionView::Reply(s@),
            SnapshotAction::Refuse(e) => SnapshotActionView::Refuse(e@),
        }
    }
}

/// The creation of a snapshot of a volume.
#[derive(Debug)]
pub struct CreateSnapshot {
    name: String,
    source_volume_id: String,
    state: SnapshotState,
}

/// What is known of the creation of a snapshot.
pub struct CreateSnapshotView {
    pub name: Seq<char>,
    pub source_volume_id: Seq<char>,
    pub state: SnapshotState,
}

impl View for CreateSnapshot {
    type V = CreateSnapshotView;

    closed spec fn view(&self) -> CreateSnapshotView {
        CreateSnapshotView {
            name: self.name@,
            source_volume_id: self.source_volume_id@,
            state: self.state,
        }
    }
}

/// Whether an event is one that the state waits for.
pub open spec fn snapshot_awaits(s: SnapshotState, e: SnapshotEventView) -> bool {
    match s {
        SnapshotState::Probing => e is Shown,
        SnapshotState::Reading => e is Entry,
        SnapshotState::Finding => e is Entries,
        SnapshotState::Making => e is Made,
        SnapshotState::Completing => false,
        SnapshotState::Finished => false,
    }
}

/// The state after an event. A subvolume that exists with the identifier of a snapshot is the
/// snapshot that was asked for; otherwise one is made of the source volume, if there is one.
pub open spec fn snapshot_next(v: CreateSnapshotView, e: SnapshotEventView) -> SnapshotState {
    match (v.state, e) {
        (SnapshotState::Probing, SnapshotEventView::Shown(exists)) => if exists {
            SnapshotState::Reading
        } else {
            SnapshotState::Finding
        },
        (SnapshotState::Reading, SnapshotEventView::Entry(x)) => if x.snapshot_id is Some {
            SnapshotState::Finished
        } else {
            SnapshotState::Finding
        },
        (SnapshotState::Finding, SnapshotEventView::Entries(all)) => if first_with(
            volume_ids(all),
            v.source_volume_id,
        ) is Some {
            SnapshotState::Making
        } else {
            SnapshotState::Finished
        },
        (SnapshotState::Making, SnapshotEventView::Made(None)) => SnapshotState::Completing,
        _ => SnapshotState::Finished,
    }
}

/// What is to be done upon an event.
pub open spec fn snapshot_action(
    v: CreateSnapshotView,
    e: SnapshotEventView,
    data_dir: Seq<char>,
) -> SnapshotActionView {
    match (v.state, e) {
        (SnapshotState::Probing, SnapshotEventView::Shown(exists)) => if exists {
            SnapshotActionView::ReadEntry
        } else {
            SnapshotActionView::ReadEntries
        },
        (SnapshotState::Reading, SnapshotEventView::Entry(x)) => match x.snapshot_id {
            Some(id) => SnapshotActionView::Reply(snapshot_of(x, id)),
            None => SnapshotActionView::ReadEntries,
        },
        (SnapshotState::Finding, SnapshotEventView::Entries(all)) => match first_with(
            volume_ids(all),
            v.source_volume_id,
        ) {
            Some(i) => SnapshotActionView::Run(
                btrfs_call(
                    "subvolume"@,
                    seq![
                        "snapshot"@,
                        "-r"@,
                        below(data_dir, all[i].name),
                        below(data_dir, v.name),
                    ],
                ),
            ),
            None => SnapshotActionView::Refuse(
                CsiErrorView::NotFound("Source volume "@ + v.source_volume_id + " not found"@),
            ),
        },
        (SnapshotState::Making, SnapshotEventView::Made(None)) => SnapshotActionView::Complete,
        (SnapshotState::Making, SnapshotEventView::Made(Some(why))) => SnapshotActionView::Refuse(
            CsiErrorView::Internal("Failed to create snapshot: "@ + why),
        ),
        _ => SnapshotActionView::ReadEntries,
    }
}

impl CreateSnapshot {
    /// The name of the snapshot.
    pub fn name(&self) -> (r: &str)
        ensures
            r@ == self@.name,
    {
        self.name.as_str()
    }

    /// Takes in what an action has come to, and tells what is to be done next.
    pub fn step(&mut self, controller: &CsiController, event: SnapshotEvent) -> (r: SnapshotAction)
        requires
            snapshot_awaits(old(self)@.state, event@),
        ensures
            final(self)@ == (CreateSnapshotView {
                state: snapshot_next(old(self)@, event@),
                ..old(self)@
            }),
            r@ == snapshot_action(old(self)@, event@, controller@.data_dir),
    {
        let state = self.state;
        self.state = SnapshotState::Finished;
        match (state, event) {
            (SnapshotState::Probing, SnapshotEvent::Shown(exists)) => if exists {
                self.state = SnapshotState::Reading;
                SnapshotAction::ReadEntry
            } else {
                self.state = SnapshotState::Finding;
                SnapshotAction::ReadEntries
            },
            (SnapshotState::Reading, SnapshotEvent::Entry(entry)) => match &entry.snapshot_id {
                Some(id) => SnapshotAction::Reply(read_snapshot(&entry, id)),
                None => {
                    self.state = SnapshotState::Finding;
                    SnapshotAction::ReadEntries
                },
            },
            (SnapshotState::Finding, SnapshotEvent::Entries(entries)) => match find_volume(
                &entries,
                self.source_volume_id.as_str(),
            ) {
                Some(i) => {
                    assert(entry_views(entries@)[i as int] == entries@[i as int]@);
                    let from = controller.subvol_path(entries[i].name.as_str());
                    let to = controller.subvol_path(self.name.as_str());
                    let c = CommandLine::new("btrfs").arg("subvolume").arg("snapshot").arg(
                        "-r",
                    ).arg(from.as_str()).arg(to.as_str());
                    assert(c@ =~= btrfs_call(
                        "subvolume"@,
                        seq![
                            "snapshot"@,
                            "-r"@,
                            below(controller@.data_dir, entries@[i as int]@.name),
                            below(controller@.data_dir, self@.name),
                        ],
                    ));
                    self.state = SnapshotState::Making;
                    SnapshotAction::Run(c)
                },
                None => SnapshotAction::Refuse(
                    CsiError::NotFound(
                        text3("Source volume ", self.source_volume_id.as_str(), " not found"),
                    ),
                ),
            },
            (SnapshotState::Making, SnapshotEvent::Made(None)) => {
                self.state = SnapshotState::Completing;
                SnapshotAction::Complete
            },
            (SnapshotState::Making, SnapshotEvent::Made(Some(why))) => {
                let mut e = "Failed to create snapshot: ".to_owned();
                e.append(why.as_str());
                SnapshotAction::Refuse(CsiError::Internal(e))
            },
            _ => SnapshotAction::ReadEntries,
        }
    }
}

/// The command that deletes the snapshot with an identifier, if there is one.
pub open spec fn snapshot_deletion(
    e: Seq<DirEntryView>,
    snapshot_id: Seq<char>,
    data_dir: Seq<char>,
) -> Option<CommandView> {
    match first_with(snapshot_ids(e), snapshot_id) {
        Some(i) => Some(btrfs_call("subvolume"@, seq!["delete"@, below(data_dir, e[i].name)])),
        None => None,
    }
}

impl CsiController {
    /// Begins to create a snapshot of a volume: gives the command that tells whether the
    /// snapshot's subvolume exists.
    pub fn create_snapshot(&self, name: &str, source_volume_id: &str) -> (r: Result<
        (CreateSnapshot, CommandLine),
        CsiError,
    >)
        ensures
            match r {
                Ok((v, c)) => {
                    &&& name_objection(name@) is None
                    &&& v@ == (CreateSnapshotView {
                        name: name@,
                        source_volume_id: source_volume_id@,
                        state: SnapshotState::Probing,
                    })
                    &&& c@ == btrfs_call(
                        "subvolume"@,
                        seq!["show"@, below(self@.data_dir, name@)],
                    )
                },
                Err(e) => name_objection(name@) == Some(e@),
            },
    {
        match validate_volume_name(name) {
            Ok(()) => {
                let v = CreateSnapshot {
                    name: name.to_owned(),
                    source_volume_id: source_volume_id.to_owned(),
                    state: SnapshotState::Probing,
                };
                Ok((v, self.show_command(name)))
            },
            Err(e) => Err(e),
        }
    }

    /// Completes the creation of a snapshot under a fresh identifier, at the time `now` in
    /// seconds.
    pub fn finish_snapshot(&self, v: &CreateSnapshot, now: i64) -> (r: NewSnapshot)
        ensures
            ({
                let id = r.snapshot@.snapshot_id;
                &&& id.take("snap-"@.len() as int) == "snap-"@
                &&& is_uuid_v4(id.skip("snap-"@.len() as int))
                &&& r.snapshot@ == (SnapshotEntryView {
                    snapshot_id: id,
                    source_volume_id: v@.source_volume_id,
                    creation_time: now as int,
                    size_bytes: 0,
                })
                &&& attribute_views(r.attributes@) == snapshot_attributes(
                    v@.name,
                    id,
                    v@.source_volume_id,
                    now,
                )
            }),
    {
        let id = self.snapshot_id();
        self.finish_snapshot_as(v, id, now)
    }

    /// Completes the creation of a snapshot under the given identifier, at the time `now` in
    /// seconds: the attributes to set, and the snapshot to answer with.
    pub fn finish_snapshot_as(&self, v: &CreateSnapshot, snapshot_id: String, now: i64) -> (r:
        NewSnapshot)
        ensures
            r.snapshot@ == (SnapshotEntryView {
                snapshot_id: snapshot_id@,
                source_volume_id: v@.source_volume_id,
                creation_time: now as int,
                size_bytes: 0,
            }),
            attribute_views(r.attributes@) == snapshot_attributes(
                v@.name,
                snapshot_id@,
                v@.source_volume_id,
                now,
            ),
    {
        let mut attributes: Vec<(String, String)> = Vec::new();
        attributes.push(("snapshot_id".to_owned(), snapshot_id.clone()));
        attributes.push(("source_volume_id".to_owned(), v.source_volume_id.clone()));
        attributes.push(("snapshot_name".to_owned(), v.name.clone()));
        attributes.push(("size".to_owned(), u64_text(0)));
        attributes.push(("creation_time".to_owned(), i64_text(now)));
        assert(attribute_views(attributes@) =~= snapshot_attributes(
            v@.name,
            snapshot_id@,
            v@.source_volume_id,
            now,
        ));
        NewSnapshot {
            snapshot: SnapshotEntry {
                snapshot_id,
                source_volume_id: v.source_volume_id.clone(),
                creation_time: now,
                size_bytes: 0,
            },
            attributes,
        }
    }

    /// The command that deletes a snapshot. A snapshot that is not found counts as deleted.
    pub fn delete_snapshot(&self, entries: &Vec<DirEntry>, snapshot_id: &str) -> (r: Option<
        CommandLine,
    >)
        ensures
            ({
                let e = entry_views(entries@);
                match first_with(snapshot_ids(e), snapshot_id@) {
                    Some(i) => r matches Some(c) && c@ == btrfs_call(
                        "subvolume"@,
                        seq!["delete"@, below(self@.data_dir, e[i].name)],
                    ),
                    None => r is None,
                }
            }),
            match r {
                Some(c) => snapshot_deletion(
                    entry_views(entries@),
                    snapshot_id@,
                    self@.data_dir,
                ) == Some(c@),
                None => snapshot_deletion(
                    entry_views(entries@),
                    snapshot_id@,
                    self@.data_dir,
                ) is None,
            },
    {
        match find_snapshot(entries, snapshot_id) {
            Some(i) => {
                assert(entry_views(entries@)[i as int] == entries@[i as int]@);
                Some(self.delete_command(entries[i].name.as_str()))
            },
            None => None,
        }
    }

    /// A page of the snapshots, of a source volume if one is given, and the token of the next
    /// page.
    pub fn list_snapshots(
        &self,
        entries: &Vec<DirEntry>,
        source_volume_id: &str,
        starting_token: &str,
        max_entries: i32,
    ) -> (r: (Vec<SnapshotEntry>, String))
        ensures
            ({
                let all = snapshots_in(entry_views(entries@), source_volume_id@);
                let start = page_start(starting_token@);
                &&& snapshot_entry_views(r.0@) == page_of(all, start, max_entries)
                &&& r.1@ == next_token(all.len(), start, max_entries)
            }),
    {
        let all = read_snapshots(entries, source_volume_id);
        let ghost v = snapshot_entry_views(all@);
        let (from, to, token) = page(all.len(), starting_token, max_entries);
        let mut rest = all;
        let ghost before = rest@;
        let mut tail = rest.split_off(from);
        tail.truncate(to - from);
        proof {
            assert(v.len() == before.len());
            lemma_page_bounds(
                v,
                page_start(starting_token@),
                max_entries,
                from as int,
                to as int,
            );
            assert(snapshot_entry_views(tail@) =~= v.subrange(from as int, to as int));
        }
        (tail, token)
    }
}

/// A snapshot whose attributes are stored is reported as it was when it was created.
pub proof fn stored_snapshot_reads_back(
    e: DirEntryView,
    id: Seq<char>,
    source: Seq<char>,
    now: i64,
)
    requires
        e.source_volume_id == Some(source),
        e.creation_time == Some(signed_decimal(now as int)),
        e.size == Some(decimal(0)),
    ensures
        snapshot_of(e, id) == (SnapshotEntryView {
            snapshot_id: id,
            source_volume_id: source,
            creation_time: now as int,
            size_bytes: 0,
        }),
{
    signed_decimal_reads_back(now as int);
    decimal_reads_back(0, u64::MAX as nat);
}

/// Creating a snapshot again gives the one that is there: once the attributes that a new snapshot
/// is given are stored, the request is answered with the same snapshot, and none is made.
pub proof fn snapshot_creation_is_idempotent(
    v: CreateSnapshotView,
    e: DirEntryView,
    id: Seq<char>,
    source: Seq<char>,
    now: i64,
    data_dir: Seq<char>,
)
    requires
        v.state == SnapshotState::Probing,
        e.snapshot_id == Some(id),
        e.source_volume_id == Some(source),
        e.creation_time == Some(signed_decimal(now as int)),
        e.size == Some(decimal(0)),
    ensures
        ({
            let shown = CreateSnapshotView {
                state: snapshot_next(v, SnapshotEventView::Shown(true)),
                ..v
            };
            &&& snapshot_action(v, SnapshotEventView::Shown(true), data_dir) is ReadEntry
            &&& snapshot_action(shown, SnapshotEventView::Entry(e), data_dir)
                == SnapshotActionView::Reply(
                SnapshotEntryView {
                    snapshot_id: id,
                    source_volume_id: source,
                    creation_time: now as int,
                    size_bytes: 0,
                },
            )
        }),
{
    stored_snapshot_reads_back(e, id, source, now);
}

} // verus!
