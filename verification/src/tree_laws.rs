//! What a folder goes through on its way out: how it is walked and how it is
//! sent, one situation at a time.

use crate::event::{Event, SyncEvent};
use crate::ipc::{Direction, Row, TransferKind, TransferState};
use crate::names::{texts, Location, Place};
use crate::outgoing::Move;
use crate::proto::{Msg, SyncMessage};
use crate::send_tree::{
    offsets, own_report, FolderSending, SendTree, Sent, TreeMove, TreeProgress, TreeStage, TreeStep,
};
use crate::table::{erased, stored};
use crate::text::bytes_less;
use crate::walk::{
    inserted, listing, name_before, rel_of, sorted, DirEntry, Entry, EntryKind, Plan, Planned,
    PlannedFile, TreePlan, Walker, Walking,
};
use vstd::prelude::*;
use vstd::string::*;
use vstd::utf8::encode_utf8;

verus! {

/* ---------------------------------- walking ---------------------------------- */

/// A walk begins with nothing planned and the folder itself to be listed.
pub proof fn walks_begin_at_the_root(root: Place)
    ensures
        Walking::fresh(root).plan.dirs.len() == 0,
        Walking::fresh(root).plan.files.len() == 0,
        Walking::fresh(root).plan.bytes == 0,
        Walking::fresh(root).pending.len() == 1,
        Walking::fresh(root).pending[0].0 == root,
        Walking::fresh(root).pending[0].1.len() == 0,
{
}

/// What is in the folder itself is called by its name, what is deeper by its
/// directory, a slash and its name.
pub proof fn paths_have_slashes(prefix: Seq<char>, name: Seq<char>)
    ensures
        prefix.len() == 0 ==> rel_of(prefix, name) == name,
        prefix.len() > 0 ==> rel_of(prefix, name) == prefix + seq!['/'] + name,
{
    reveal_strlit("/");
    assert("/"@ =~= seq!['/']);
}

/// A symlink is passed over; a directory is planned, and will be listed; a
/// file is planned with its size, and its bytes count. The millionth entry is
/// the last.
pub proof fn entries_are_planned(
    w: Walking,
    dir: Place,
    prefix: Seq<char>,
    name: Seq<char>,
    size: u64,
)
    ensures
        w.seen(dir, prefix, Entry { name, kind: EntryKind::Symlink }) == Some(w),
        w.plan.dirs.len() + w.plan.files.len() >= 1_000_000 ==> {
            &&& w.seen(dir, prefix, Entry { name, kind: EntryKind::Directory }) is None
            &&& w.seen(dir, prefix, Entry { name, kind: EntryKind::File(size) }) is None
        },
        w.plan.dirs.len() + w.plan.files.len() < 1_000_000 ==> {
            let path = Place { base: dir.base, parts: dir.parts.push(name) };
            let rel = rel_of(prefix, name);
            let d = w.seen(dir, prefix, Entry { name, kind: EntryKind::Directory });
            let f = w.seen(dir, prefix, Entry { name, kind: EntryKind::File(size) });
            &&& d == Some(
                Walking {
                    plan: Plan { dirs: w.plan.dirs.push(rel), ..w.plan },
                    pending: w.pending.push((path, rel)),
                },
            )
            &&& f is Some
            &&& f->0.pending == w.pending
            &&& f->0.plan.dirs == w.plan.dirs
            &&& f->0.plan.files == w.plan.files.push(Planned { rel, path, size })
            &&& w.plan.bytes + size <= u64::MAX ==> f->0.plan.bytes == w.plan.bytes + size
            &&& w.plan.bytes + size > u64::MAX ==> f->0.plan.bytes == u64::MAX
        },
{
}

/// Entries are planned one after the other; the first that is too many stops
/// the walk.
pub proof fn entries_are_planned_in_order(
    w: Walking,
    dir: Place,
    prefix: Seq<char>,
    entries: Seq<Entry>,
    e: Entry,
)
    ensures
        w.seen_all(dir, prefix, Seq::empty()) == Some(w),
        w.seen_all(dir, prefix, entries) is Some ==> w.seen_all(dir, prefix, entries.push(e))
            == w.seen_all(dir, prefix, entries)->0.seen(dir, prefix, e),
        w.seen_all(dir, prefix, entries) is None ==> w.seen_all(dir, prefix, entries.push(e))
            is None,
{
    assert(entries.push(e).drop_last() =~= entries);
}

/* ---------------------------------- sorting ---------------------------------- */

/// `a` does not come after `b`.
pub open spec fn not_after(a: Seq<char>, b: Seq<char>) -> bool {
    !bytes_less(encode_utf8(b), encode_utf8(a))
}

proof fn orders_chain(a: Seq<u8>, b: Seq<u8>, c: Seq<u8>)
    requires
        !bytes_less(b, a),
        !bytes_less(c, b),
    ensures
        !bytes_less(c, a),
    decreases a.len(),
{
    if a.len() > 0 && b.len() > 0 && c.len() > 0 {
        if a[0] == b[0] && b[0] == c[0] {
            orders_chain(a.drop_first(), b.drop_first(), c.drop_first());
        }
    }
}

/// A listing is in the order of its names, byte by byte.
pub proof fn listings_are_in_order(s: Seq<Entry>, i: int, j: int)
    requires
        0 <= i < j < s.len(),
    ensures
        sorted(s).len() == s.len(),
        not_after(sorted(s)[i].name, sorted(s)[j].name),
{
    sorted_is_in_order(s);
    assert(in_order(sorted(s)));
}

/// No entry comes after a later one.
spec fn in_order(s: Seq<Entry>) -> bool {
    forall|i: int, j: int|
        0 <= i < j < s.len() ==> not_after((#[trigger] s[i]).name, (#[trigger] s[j]).name)
}

proof fn sorted_is_in_order(s: Seq<Entry>)
    ensures
        sorted(s).len() == s.len(),
        in_order(sorted(s)),
    decreases s.len(),
{
    if s.len() > 0 {
        sorted_is_in_order(s.drop_last());
        inserted_is_in_order(sorted(s.drop_last()), s.last());
    }
}

proof fn inserted_holds_only(s: Seq<Entry>, e: Entry, k: int)
    requires
        0 <= k < inserted(s, e).len(),
    ensures
        inserted(s, e)[k] == e || s.contains(inserted(s, e)[k]),
    decreases s.len(),
{
    if s.len() > 0 && name_before(e.name, s.last().name) {
        let front = s.drop_last();
        if k < inserted(front, e).len() {
            inserted_holds_only(front, e, k);
            let x = inserted(front, e)[k];
            if front.contains(x) {
                let i = choose|i: int| 0 <= i < front.len() && front[i] == x;
                assert(s[i] == x);
            }
        } else {
            assert(s[s.len() - 1] == s.last());
        }
    } else if k < s.len() {
        assert(s[k] == s.push(e)[k]);
    }
}

proof fn inserted_is_in_order(s: Seq<Entry>, e: Entry)
    requires
        in_order(s),
    ensures
        inserted(s, e).len() == s.len() + 1,
        in_order(inserted(s, e)),
    decreases s.len(),
{
    let t = inserted(s, e);
    if s.len() > 0 && name_before(e.name, s.last().name) {
        let front = s.drop_last();
        let last = s.last();
        assert forall|i: int, j: int| 0 <= i < j < front.len() implies not_after(
            (#[trigger] front[i]).name,
            (#[trigger] front[j]).name,
        ) by {
            assert(front[i] == s[i] && front[j] == s[j]);
        }
        inserted_is_in_order(front, e);
        let u = inserted(front, e);
        crate::text::bytes_less_is_total(encode_utf8(e.name), encode_utf8(last.name));
        assert forall|i: int, j: int| 0 <= i < j < t.len() implies not_after(
            (#[trigger] t[i]).name,
            (#[trigger] t[j]).name,
        ) by {
            assert(t[i] == u[i]);
            if j < u.len() {
                assert(t[j] == u[j]);
            } else {
                assert(t[j] == last);
                inserted_holds_only(front, e, i);
                if u[i] != e {
                    let k = choose|k: int| 0 <= k < front.len() && front[k] == u[i];
                    assert(s[k] == u[i] && s[s.len() - 1] == last);
                }
            }
        }
    } else {
        assert forall|i: int, j: int| 0 <= i < j < t.len() implies not_after(
            (#[trigger] t[i]).name,
            (#[trigger] t[j]).name,
        ) by {
            assert(t[i] == s[i]);
            if j < s.len() {
                assert(t[j] == s[j]);
            } else {
                let last = s[s.len() - 1];
                assert(not_after(last.name, e.name));
                if i < s.len() - 1 {
                    orders_chain(
                        encode_utf8(s[i].name),
                        encode_utf8(last.name),
                        encode_utf8(e.name),
                    );
                }
            }
        }
    }
}

/* ---------------------------------- sending ---------------------------------- */

/// The row of a folder that is being sent.
pub open spec fn folder_shown(
    id: u64,
    name: Seq<char>,
    files: u32,
    transferred: u64,
    total: u64,
    state: TransferState,
    detail: Option<Seq<char>>,
) -> Row {
    Row {
        id,
        name,
        direction: Direction::Sent,
        transferred,
        total,
        state,
        detail,
        kind: TransferKind::Folder,
        files,
    }
}

/// A folder that was walked is announced: how many files, how many bytes, and
/// its drag.
pub proof fn walked_folders_are_announced(s: FolderSending, plan: Plan, now: u64)
    requires
        plan.files.len() <= 1_000_000,
    ensures
        s.on_walked(plan, now).1 == seq![
            TreeMove::Deliver(
                Msg::TreeOffer {
                    tree: s.progress.id,
                    name: s.progress.name,
                    files: plan.files.len() as u32,
                    bytes: plan.bytes,
                    drag: s.drag,
                },
            ),
        ],
        s.on_walked(plan, now).0 == (FolderSending {
            progress: Sent {
                files: plan.files.len() as u32,
                total: plan.bytes,
                last: now,
                ..s.progress
            },
            dirs: plan.dirs,
            files: plan.files,
            stage: TreeStage::Announcing,
            ..s
        }),
{
}

/// A folder that cannot be read is announced as empty and closed with the
/// reason, and shown as failed.
pub proof fn unreadable_folders_are_closed(s: FolderSending, cause: Seq<char>)
    ensures
        ({
            let reason = "cannot read folder: "@ + cause;
            s.on_unreadable(cause) == (
                FolderSending { stage: TreeStage::Over, ..s },
                seq![
                    TreeMove::Send(
                        Msg::TreeOffer {
                            tree: s.progress.id,
                            name: s.progress.name,
                            files: 0,
                            bytes: 0,
                            drag: s.drag,
                        },
                    ),
                    TreeMove::Send(Msg::TreeEnd { tree: s.progress.id, error: Some(reason) }),
                    TreeMove::Report(
                        Event::Transfer(
                            folder_shown(
                                s.progress.id,
                                s.progress.name,
                                0,
                                0,
                                0,
                                TransferState::Failed,
                                Some(reason),
                            ),
                        ),
                    ),
                ],
            )
        }),
{
}

/// A folder is over once the connection is, and shown as failed.
pub proof fn undelivered_folders_fail(s: FolderSending)
    requires
        s.stage == TreeStage::Announcing || s.stage == TreeStage::Directories,
    ensures
        s.on_delivered(false) == (
            FolderSending { stage: TreeStage::Over, ..s },
            seq![
                TreeMove::Report(
                    Event::Transfer(
                        folder_shown(
                            s.progress.id,
                            s.progress.name,
                            0,
                            0,
                            0,
                            TransferState::Failed,
                            Some("connection closed"@),
                        ),
                    ),
                ),
            ],
        ),
{
}

/// Once announced a folder is shown as active; then each of its directories
/// is sent, one after the other.
pub proof fn directories_follow_the_announcement(s: FolderSending)
    requires
        s.stage == TreeStage::Announcing || s.stage == TreeStage::Directories,
        s.next_dir < s.dirs.len(),
        s.progress.done + offsets(s.progress.inflight) <= u64::MAX,
    ensures
        ({
            let (t, moves) = s.on_delivered(true);
            let dir = TreeMove::Deliver(
                Msg::TreeDir { tree: s.progress.id, rel: s.dirs[s.next_dir as int] },
            );
            &&& t == (FolderSending {
                next_dir: s.next_dir + 1,
                stage: TreeStage::Directories,
                ..s
            })
            &&& s.stage == TreeStage::Directories ==> moves == seq![dir]
            &&& s.stage == TreeStage::Announcing ==> moves == seq![
                TreeMove::Report(
                    Event::Transfer(
                        folder_shown(
                            s.progress.id,
                            s.progress.name,
                            s.progress.files,
                            (s.progress.done + offsets(s.progress.inflight)) as u64,
                            s.progress.total,
                            TransferState::Active,
                            None,
                        ),
                    ),
                ),
                dir,
            ]
        }),
{
}

/// After the last directory the files start.
pub proof fn files_follow_the_directories(s: FolderSending)
    requires
        s.stage == TreeStage::Directories,
        s.next_dir == s.dirs.len(),
    ensures
        s.on_delivered(true) == (FolderSending { stage: TreeStage::Files, ..s }).pump(),
{
}

/// A file starts, by its path inside the folder and from its place, while
/// fewer than three are in flight, one is left and none has failed.
pub proof fn three_files_are_in_flight(s: FolderSending)
    requires
        s.progress.error is None,
        s.next_file < s.files.len(),
        s.running < 3,
    ensures
        ({
            let more = FolderSending {
                next_file: s.next_file + 1,
                running: s.running + 1,
                ..s
            };
            &&& s.pump().0 == more.pump().0
            &&& s.pump().1 == seq![
                TreeMove::Start {
                    rel: s.files[s.next_file as int].rel,
                    path: s.files[s.next_file as int].path,
                },
            ] + more.pump().1
        }),
{
}

/// No file starts where three are in flight, none is left or one has failed;
/// once none is in flight the folder is closed, and shown as done, or as
/// failed with the reason.
pub proof fn folders_are_closed(s: FolderSending)
    requires
        s.progress.error is Some || s.next_file >= s.files.len() || s.running >= 3,
        s.progress.done + offsets(s.progress.inflight) <= u64::MAX,
    ensures
        s.running > 0 ==> s.pump() == (s, Seq::<TreeMove>::empty()),
        s.running == 0 ==> s.pump() == (
            FolderSending { stage: TreeStage::Over, ..s },
            seq![
                TreeMove::Send(
                    Msg::TreeEnd { tree: s.progress.id, error: s.progress.error },
                ),
                TreeMove::Report(
                    Event::Transfer(
                        folder_shown(
                            s.progress.id,
                            s.progress.name,
                            s.progress.files,
                            (s.progress.done + offsets(s.progress.inflight)) as u64,
                            s.progress.total,
                            if s.progress.error is None {
                                TransferState::Done
                            } else {
                                TransferState::Failed
                            },
                            s.progress.error,
                        ),
                    ),
                ),
            ],
        ),
{
}

/// A file that is over makes room for the next.
pub proof fn finished_files_make_room(s: FolderSending)
    ensures
        s.stage == TreeStage::Files && s.running > 0 ==> s.on_file_over() == (FolderSending {
            running: (s.running - 1) as nat,
            ..s
        }).pump(),
        s.stage != TreeStage::Files || s.running == 0 ==> s.on_file_over() == (
            s,
            Seq::<TreeMove>::empty(),
        ),
{
}

/// What its files do shows in the folder's row: what is done and how far the
/// files in flight are, every quarter of a second. A file that fails fails the
/// folder, by its name and reason, if it is the first.
pub proof fn files_show_in_the_folder(
    s: FolderSending,
    id: u64,
    name: Seq<char>,
    offset: u64,
    size: u64,
    reason: Seq<char>,
    now: u64,
)
    requires
        s.progress.done + size <= u64::MAX,
        s.progress.done + offsets(stored(s.progress.inflight, id, offset)) <= u64::MAX,
        s.progress.done + size + offsets(erased(s.progress.inflight, id)) <= u64::MAX,
    ensures
        ({
            let p = s.progress;
            let due = now >= p.last + 250_000_000;
            let last = if due {
                now
            } else {
                p.last
            };
            let (t, shown) = s.on_file(id, name, Move::Progress { offset, size }, now);
            let (u, ended) = s.on_file(id, name, Move::Done { size }, now);
            let (v, failed) = s.on_file(id, name, Move::Failed { reason }, now);
            &&& t == (FolderSending {
                progress: Sent { inflight: stored(p.inflight, id, offset), last, ..p },
                ..s
            })
            &&& !due ==> shown is None && ended is None
            &&& due ==> shown == Some(
                folder_shown(
                    p.id,
                    p.name,
                    p.files,
                    (p.done + offsets(stored(p.inflight, id, offset))) as u64,
                    p.total,
                    TransferState::Active,
                    None,
                ),
            )
            &&& u == (FolderSending {
                progress: Sent {
                    inflight: erased(p.inflight, id),
                    done: (p.done + size) as u64,
                    last,
                    ..p
                },
                ..s
            })
            &&& due ==> ended == Some(
                folder_shown(
                    p.id,
                    p.name,
                    p.files,
                    (p.done + size + offsets(erased(p.inflight, id))) as u64,
                    p.total,
                    TransferState::Active,
                    None,
                ),
            )
            &&& failed is None
            &&& v == (FolderSending {
                progress: Sent {
                    inflight: erased(p.inflight, id),
                    error: if p.error is None {
                        Some(name + ": "@ + reason)
                    } else {
                        p.error
                    },
                    ..p
                },
                ..s
            })
        }),
{
}

/// Anything else that its files do does not show in the folder.
pub proof fn other_steps_do_not_show(
    s: FolderSending,
    id: u64,
    name: Seq<char>,
    step: Move,
    now: u64,
)
    requires
        !(step is Progress) && !(step is Done) && !(step is Failed),
    ensures
        s.on_file(id, name, step, now) == (s, None::<Row>),
{
}

/// How far files in flight are adds up.
pub proof fn offsets_add_up(s: Seq<(u64, u64)>, id: u64, offset: u64)
    ensures
        offsets(Seq::empty()) == 0,
        offsets(s.push((id, offset))) == offsets(s) + offset,
{
    assert(s.push((id, offset)).drop_last() =~= s);
}

/// A file that is sent on its own has a row of its own.
pub proof fn single_files_are_shown(
    id: u64,
    name: Seq<char>,
    offset: u64,
    size: u64,
    reason: Seq<char>,
    msg: Msg,
)
    ensures
        own_report(id, name, Move::Active { size }) == Some(
            file_shown(id, name, 0, size, TransferState::Active, None),
        ),
        own_report(id, name, Move::Progress { offset, size }) == Some(
            file_shown(id, name, offset, size, TransferState::Active, None),
        ),
        own_report(id, name, Move::Done { size }) == Some(
            file_shown(id, name, size, size, TransferState::Done, None),
        ),
        own_report(id, name, Move::Failed { reason }) == Some(
            file_shown(id, name, 0, 0, TransferState::Failed, Some(reason)),
        ),
        own_report(id, name, Move::Send(msg)) is None,
        own_report(id, name, Move::Deliver(msg)) is None,
        own_report(id, name, Move::AwaitReply) is None,
        own_report(id, name, Move::Read) is None,
{
}

/// The row of a file that is being sent.
pub open spec fn file_shown(
    id: u64,
    name: Seq<char>,
    transferred: u64,
    total: u64,
    state: TransferState,
    detail: Option<Seq<char>>,
) -> Row {
    Row {
        id,
        name,
        direction: Direction::Sent,
        transferred,
        total,
        state,
        detail,
        kind: TransferKind::File,
        files: 0,
    }
}

/// A folder without directories is shown as active once announced, and its
/// files start. Where nothing was to be delivered nothing happens.
pub proof fn folders_without_directories_start(s: FolderSending, sent: bool)
    requires
        s.progress.done + offsets(s.progress.inflight) <= u64::MAX,
    ensures
        s.stage == TreeStage::Announcing && s.next_dir == s.dirs.len() ==> {
            let files = (FolderSending { stage: TreeStage::Files, ..s }).pump();
            &&& s.on_delivered(true).0 == files.0
            &&& s.on_delivered(true).1 == seq![
                TreeMove::Report(
                    Event::Transfer(
                        folder_shown(
                            s.progress.id,
                            s.progress.name,
                            s.progress.files,
                            (s.progress.done + offsets(s.progress.inflight)) as u64,
                            s.progress.total,
                            TransferState::Active,
                            None,
                        ),
                    ),
                ),
            ] + files.1
        },
        s.stage == TreeStage::Walking || s.stage == TreeStage::Files || s.stage == TreeStage::Over
            ==> s.on_delivered(sent) == (s, Seq::<TreeMove>::empty()),
{
}

/// A folder that is about to be walked knows its name, its number and its
/// drag, and nothing else.
pub proof fn folders_begin_empty(tree: u64, name: Seq<char>, drag: Option<u64>)
    ensures
        ({
            let s = FolderSending::fresh(tree, name, drag);
            &&& s.drag == drag && s.progress.id == tree && s.progress.name == name
            &&& s.progress.files == 0 && s.progress.total == 0 && s.progress.done == 0
            &&& s.progress.inflight.len() == 0 && s.progress.error is None
            &&& s.progress.last == 0
            &&& s.dirs.len() == 0 && s.files.len() == 0
            &&& s.next_dir == 0 && s.next_file == 0 && s.running == 0
            &&& s.stage == TreeStage::Walking
        }),
{
}

/* ----------------------------------- views ----------------------------------- */

/// What is known of a folder being walked or sent is what is held of it.
pub proof fn folders_say_what_they_hold(
    t: SendTree,
    p: TreeProgress,
    w: Walker,
    plan: TreePlan,
    e: DirEntry,
    f: PlannedFile,
    rel: String,
    path: Location,
    msg: SyncMessage,
    event: SyncEvent,
    k: int,
)
    ensures
        t@.drag == t.drag,
        t@.progress == t.progress@,
        t@.dirs == texts(t.dirs@),
        t@.files.len() == t.files@.len(),
        0 <= k < t.files@.len() ==> t@.files[k] == t.files@[k]@,
        t@.next_dir == t.next_dir && t@.next_file == t.next_file && t@.running == t.running,
        t@.stage == t.stage,
        p@.id == p.id && p@.name == p.name@ && p@.files == p.files && p@.total == p.total,
        p@.done == p.done && p@.inflight == p.inflight@ && p@.last == p.last,
        p@.error is Some <==> p.error is Some,
        p.error is Some ==> p@.error->0 == p.error->0@,
        w@.plan == w.plan@,
        w@.pending.len() == w.pending@.len(),
        0 <= k < w.pending@.len() ==> w@.pending[k] == (w.pending@[k].0@, w.pending@[k].1@),
        plan@.dirs == texts(plan.dirs@),
        plan@.files.len() == plan.files@.len(),
        0 <= k < plan.files@.len() ==> plan@.files[k] == plan.files@[k]@,
        plan@.bytes == plan.bytes,
        e@ == (Entry { name: e.name@, kind: e.kind }),
        f@ == (Planned { rel: f.rel@, path: f.path@, size: f.size }),
        listing(seq![e]).len() == 1,
        listing(seq![e])[0] == e@,
        TreeStep::Send(msg)@ == TreeMove::Send(msg@),
        TreeStep::Deliver(msg)@ == TreeMove::Deliver(msg@),
        (TreeStep::Start { rel, path })@ == (TreeMove::Start { rel: rel@, path: path@ }),
        TreeStep::Report(event)@ == TreeMove::Report(event@),
{
}

} // verus!
