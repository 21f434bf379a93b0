use std::cell::RefCell;
use std::collections::{BTreeMap, HashMap, VecDeque};
use std::rc::Rc;
use vylo_share::digest::sha256_of;
use vylo_share::effects::{Effect, Effects, IoFailure, RootMade, Task};
use vylo_share::event::{SyncEvent, PROGRESS_INTERVAL};
use vylo_share::inbox::Inbox;
use vylo_share::ipc::{Direction, FileTransferStatus, TransferKind, TransferState};
use vylo_share::names::{receive_paths, unique_dir_path, unique_path, Location};
use vylo_share::outgoing::{abort_reason, Offer, Opened, Outgoing, SendEvent, SendFile, SendStep, Stage};
use vylo_share::proto::{SyncMessage, CHUNK_SIZE};
use vylo_share::send_tree::{report_single, SendTree, TreeStage, TreeStep, TreeSteps, TREE_WINDOW};
use vylo_share::walk::{sort_entries, DirEntry, EntryKind, TreePlan, Walker};

/* ------------------------------- a made-up disk ------------------------------- */

/// What a path holds: a directory, or the bytes of a file.
type Files = Rc<RefCell<BTreeMap<String, Option<Vec<u8>>>>>;

fn shown(at: &Location) -> String {
    let mut s = at.base.clone();
    for p in &at.parts {
        s.push('/');
        s.push_str(p);
    }
    s
}

fn make_dir(disk: &Files, path: &str) {
    let mut upto = String::new();
    for part in path.split('/').skip(1) {
        upto.push('/');
        upto.push_str(part);
        disk.borrow_mut().entry(upto.clone()).or_insert(None);
    }
}

fn move_tree(disk: &Files, from: &str, to: &str) {
    let inside = format!("{from}/");
    let paths: Vec<String> = disk
        .borrow()
        .keys()
        .filter(|k| k.as_str() == from || k.starts_with(&inside))
        .cloned()
        .collect();
    for p in paths {
        let v = disk.borrow_mut().remove(&p).unwrap();
        disk.borrow_mut().insert(format!("{to}{}", &p[from.len()..]), v);
    }
}

fn remove_tree(disk: &Files, at: &str) {
    let inside = format!("{at}/");
    disk.borrow_mut().retain(|k, _| k.as_str() != at && !k.starts_with(&inside));
}

/// everything below a directory, directories with a slash behind them
fn snapshot(disk: &Files, root: &str) -> BTreeMap<String, Vec<u8>> {
    let inside = format!("{root}/");
    let mut out = BTreeMap::new();
    for (k, v) in disk.borrow().iter() {
        if let Some(rel) = k.strip_prefix(&inside) {
            match v {
                None => out.insert(format!("{rel}/"), Vec::new()),
                Some(data) => out.insert(rel.to_string(), data.clone()),
            };
        }
    }
    out
}

fn is_dir(disk: &Files, path: &str) -> bool {
    matches!(disk.borrow().get(path), Some(None))
}

fn contents(disk: &Files, path: &str) -> Option<Vec<u8>> {
    disk.borrow().get(path).cloned().flatten()
}

/* ------------------------------- the receiving host ------------------------------- */

struct Host {
    disk: Files,
    inbox: Inbox,
    parts: HashMap<u64, String>,
    events: Vec<SyncEvent>,
    replies: VecDeque<SyncMessage>,
    now: u64,
    disk_full: bool,
}

impl Host {
    fn new(disk: &Files, file_dir: &str, drop_dir: Option<&str>) -> Host {
        Host {
            disk: disk.clone(),
            inbox: Inbox::new(Location::new(file_dir), drop_dir.map(Location::new)),
            parts: HashMap::new(),
            events: Vec::new(),
            replies: VecDeque::new(),
            now: 0,
            disk_full: false,
        }
    }

    fn give(&mut self, msg: SyncMessage) {
        self.now += 1;
        let effects = self.inbox.handle(msg, self.now);
        self.run(effects);
        assert!(self.inbox.is_idle());
    }

    fn run(&mut self, effects: Effects) {
        let mut effects = effects;
        loop {
            let mut task = None;
            for e in effects.list {
                assert!(task.is_none(), "work comes last");
                match e {
                    Effect::Send(msg) => self.replies.push_back(msg),
                    Effect::Report(event) => self.events.push(event),
                    Effect::Discard { id, part } => {
                        self.parts.remove(&id);
                        self.disk.borrow_mut().remove(&shown(&part));
                    }
                    Effect::RemoveTree(dir) => remove_tree(&self.disk, &shown(&dir)),
                    Effect::EnsureDir(dir) => make_dir(&self.disk, &shown(&dir)),
                    Effect::Do(t) => task = Some(t),
                }
            }
            effects = match task {
                None => return,
                Some(t) => self.perform(t),
            };
        }
    }

    fn perform(&mut self, task: Task) -> Effects {
        let disk = self.disk.clone();
        let taken = |p: &Location| disk.borrow().contains_key(&shown(p));
        match task {
            Task::MakeDir(dir) => {
                make_dir(&disk, &shown(&dir));
                self.inbox.dir_made(Ok(()));
                Effects::new()
            }
            Task::OpenPart { id, dir, name } => {
                make_dir(&disk, &shown(&dir));
                let (target, part) = receive_paths(&dir, &name, taken).unwrap();
                disk.borrow_mut().insert(shown(&part), Some(Vec::new()));
                self.parts.insert(id, shown(&part));
                self.inbox.part_opened(Ok((target, part)), self.now)
            }
            Task::MakeRoot { parent, name } => {
                make_dir(&disk, &shown(&parent));
                let root = unique_dir_path(&parent, &name, taken).unwrap();
                make_dir(&disk, &shown(&root));
                let at = shown(&root);
                self.inbox.root_made(RootMade::Chosen { root, shown: at, failure: None }, self.now)
            }
            Task::Write { id, data } => {
                if self.disk_full {
                    return self.inbox.chunk_written(Err("no space".to_string()), self.now);
                }
                let path = self.parts[&id].clone();
                match disk.borrow_mut().get_mut(&path) {
                    Some(Some(file)) => file.extend_from_slice(&data),
                    _ => panic!("no part file"),
                }
                self.inbox.chunk_written(Ok(()), self.now)
            }
            Task::Commit { id, from, to, durable: _ } => {
                self.parts.remove(&id);
                move_tree(&disk, &shown(&from), &shown(&to));
                self.inbox.committed(Ok(shown(&to)))
            }
            Task::PlaceFolder { from, dir, name } => {
                make_dir(&disk, &shown(&dir));
                let to = unique_dir_path(&dir, &name, taken).unwrap();
                move_tree(&disk, &shown(&from), &shown(&to));
                self.inbox.folder_placed(Ok(shown(&to)))
            }
            Task::PlaceItem { from, dir, name, kind } => {
                make_dir(&disk, &shown(&dir));
                let to = match kind {
                    TransferKind::Folder => unique_dir_path(&dir, &name, taken).unwrap(),
                    TransferKind::File => unique_path(&dir, &name, taken).unwrap(),
                };
                move_tree(&disk, &shown(&from), &shown(&to));
                self.inbox.item_placed(Ok(shown(&to)))
            }
        }
    }

    fn close(&mut self) {
        let inbox = std::mem::replace(&mut self.inbox, Inbox::new(Location::nowhere(), None));
        let effects = inbox.close();
        self.run(effects);
    }

    fn rows(&self) -> Vec<FileTransferStatus> {
        self.events
            .iter()
            .filter_map(|e| match e {
                SyncEvent::Transfer(s) => Some(s.clone()),
                _ => None,
            })
            .collect()
    }

    fn only_reply(&mut self) -> SyncMessage {
        assert_eq!(self.replies.len(), 1, "{:?}", self.replies);
        self.replies.pop_front().unwrap()
    }
}

/* ------------------------------- the sending host ------------------------------- */

/// Send a file to the host, message by message. What the sender does is
/// handed to `on_step`; the result says how it ended.
fn send_file(
    disk: &Files,
    host: &mut Host,
    id: u64,
    path: &str,
    offer: Offer,
    on_step: &mut dyn FnMut(&str, &SendStep),
) -> Result<(), String> {
    let name = path.rsplit('/').next().unwrap().to_string();
    let mut outgoing = Outgoing::new();
    outgoing.register(id);
    let mut file = SendFile::new(id, name.clone(), offer);
    let data = contents(disk, path);
    let mut at = 0usize;
    let opened = match &data {
        Some(d) => Opened::File { size: d.len() as u64 },
        None if is_dir(disk, path) => Opened::Directory,
        None => Opened::NoStat { at: path.to_string(), cause: "not found".to_string() },
    };
    let mut event = Some(SendEvent::Opened(opened));
    let mut result = Ok(());
    while let Some(ev) = event.take() {
        for step in file.handle(ev, host.now) {
            on_step(&name, &step);
            match step {
                SendStep::Send(msg) => host.give(msg),
                SendStep::Deliver(msg) => {
                    host.give(msg);
                    event = Some(SendEvent::Delivered(true));
                }
                SendStep::AwaitReply => {
                    event = Some(match host.only_reply() {
                        SyncMessage::FileAccept { id: i } => {
                            assert_eq!(i, id);
                            assert!(outgoing.accepted(id));
                            SendEvent::Accepted
                        }
                        SyncMessage::FileReject { id: i, reason } => {
                            assert_eq!(i, id);
                            assert!(outgoing.rejected(id));
                            SendEvent::Rejected(reason)
                        }
                        other => panic!("unexpected reply {other:?}"),
                    });
                }
                SendStep::Read => {
                    while let Some(SyncMessage::FileCancel { id: i, reason }) = host.replies.pop_front() {
                        outgoing.aborted(i, reason);
                    }
                    event = Some(match outgoing.abort_of(id) {
                        Some(reason) => SendEvent::Aborted(Some(reason)),
                        None => {
                            let d = data.as_ref().unwrap();
                            let end = (at + CHUNK_SIZE).min(d.len());
                            let chunk = d[at..end].to_vec();
                            at = end;
                            SendEvent::Read(chunk)
                        }
                    });
                }
                SendStep::Failed { reason } => result = Err(reason),
                SendStep::Active { .. } | SendStep::Progress { .. } | SendStep::Done { .. } => {}
            }
        }
    }
    assert_eq!(file.stage, Stage::Over);
    outgoing.finished(id);
    result
}

fn send_single(disk: &Files, host: &mut Host, id: u64, path: &str, offer: Offer) -> Result<(), String> {
    let mut rows = Vec::new();
    let r = send_file(disk, host, id, path, offer, &mut |name, step| {
        if let Some(row) = report_single(id, name, step) {
            rows.push(row);
        }
    });
    for row in rows {
        host.events.push(SyncEvent::Transfer(row));
    }
    r
}

fn list_dir(disk: &Files, dir: &str) -> Option<Vec<DirEntry>> {
    if !is_dir(disk, dir) {
        return None;
    }
    let inside = format!("{dir}/");
    let mut out = Vec::new();
    for (k, v) in disk.borrow().iter() {
        if let Some(rel) = k.strip_prefix(&inside) {
            if !rel.contains('/') {
                let kind = match v {
                    _ if rel == "escape" => EntryKind::Symlink,
                    None => EntryKind::Directory,
                    Some(d) => EntryKind::File(d.len() as u64),
                };
                out.push(DirEntry { name: rel.to_string(), kind });
            }
        }
    }
    Some(out)
}

fn walk_tree(disk: &Files, root: &str) -> Result<TreePlan, String> {
    let mut walker = Walker::new(Location::new(root));
    while let Some((dir, prefix)) = walker.next_dir() {
        let entries = list_dir(disk, &shown(&dir)).ok_or("not found")?;
        walker.listed(&dir, &prefix, entries)?;
    }
    Ok(walker.plan)
}

fn send_tree(disk: &Files, host: &mut Host, id: u64, path: &str, drag: Option<u64>) {
    let name = path.rsplit('/').next().unwrap().to_string();
    let mut tree = SendTree::new(id, name, drag);
    let mut next_id = 1000 * id;
    let mut queue: VecDeque<TreeStep> = VecDeque::new();
    let add = |queue: &mut VecDeque<TreeStep>, steps: TreeSteps| queue.extend(steps.list);
    let steps = match walk_tree(disk, path) {
        Ok(plan) => tree.walked(plan, host.now),
        Err(cause) => tree.unreadable(&cause),
    };
    add(&mut queue, steps);
    while let Some(step) = queue.pop_front() {
        match step {
            TreeStep::Send(msg) => host.give(msg),
            TreeStep::Deliver(msg) => {
                host.give(msg);
                let steps = tree.delivered(true);
                add(&mut queue, steps);
            }
            TreeStep::Report(event) => host.events.push(event),
            TreeStep::Start { rel, path } => {
                next_id += 1;
                let mut rows = Vec::new();
                let file_id = next_id;
                let now = host.now;
                let _ = send_file(
                    disk,
                    host,
                    file_id,
                    &shown(&path),
                    Offer::Tree { tree: id, rel },
                    &mut |name, step| {
                        if let Some(row) = tree.on_file(file_id, name, step, now) {
                            rows.push(row);
                        }
                    },
                );
                for row in rows {
                    host.events.push(SyncEvent::Transfer(row));
                }
                let steps = tree.file_over();
                add(&mut queue, steps);
            }
        }
    }
    assert_eq!(tree.stage, TreeStage::Over);
}

fn new_disk() -> Files {
    Rc::new(RefCell::new(BTreeMap::new()))
}

fn put(disk: &Files, path: &str, data: &[u8]) {
    let dir = path.rsplit_once('/').unwrap().0;
    make_dir(disk, dir);
    disk.borrow_mut().insert(path.to_string(), Some(data.to_vec()));
}

fn build_source(disk: &Files) -> String {
    let root = "/base/Photos.2024";
    make_dir(disk, &format!("{root}/trip/empty"));
    make_dir(disk, &format!("{root}/deep/x/y"));
    put(disk, &format!("{root}/a.txt"), b"hello folder");
    // several chunks' worth so the chunk loop is exercised
    let big: Vec<u8> = (0..(CHUNK_SIZE * 2 + 12345)).map(|i| (i % 251) as u8).collect();
    put(disk, &format!("{root}/trip/big.bin"), &big);
    put(disk, &format!("{root}/deep/x/y/z.txt"), b"deep");
    put(disk, &format!("{root}/trip/nul.txt"), b"reserved on windows");
    root.to_string()
}

/* ----------------------------------- folders ----------------------------------- */

#[test]
fn folder_arrives_whole_with_structure_intact() {
    let disk = new_disk();
    let src = build_source(&disk);
    let dst = "/base/recv";
    let mut host = Host::new(&disk, dst, None);
    send_tree(&disk, &mut host, 7, &src, None);
    host.close();

    // delivered under the receive dir, byte-for-byte, empty dirs too
    let got = format!("{dst}/Photos.2024");
    assert!(is_dir(&disk, &got), "folder must land in the receive dir");
    let mut expected = snapshot(&disk, &src);
    // the Windows-reserved name is neutralised on arrival
    let v = expected.remove("trip/nul.txt").unwrap();
    expected.insert("trip/_nul.txt".to_string(), v);
    assert_eq!(snapshot(&disk, &got), expected);
    // no staging left behind, no stray .vylopart files
    let leftovers: Vec<String> =
        snapshot(&disk, dst).into_keys().filter(|n| n.starts_with(".vylo")).collect();
    assert!(leftovers.is_empty(), "staging left behind: {leftovers:?}");

    // one folder row per side, never per-file rows
    let statuses = host.rows();
    assert!(!statuses.is_empty());
    assert!(
        statuses.iter().all(|s| s.kind == TransferKind::Folder && s.id == 7),
        "only the folder row may be reported: {statuses:?}"
    );
    let recv_done = statuses
        .iter()
        .find(|s| s.direction == Direction::Received && s.state == TransferState::Done)
        .expect("receiver reports Done");
    assert_eq!(recv_done.files, 4);
    assert_eq!(recv_done.detail.as_deref(), Some(got.as_str()));
    assert_eq!(recv_done.transferred, recv_done.total);
    assert!(statuses
        .iter()
        .any(|s| s.direction == Direction::Sent && s.state == TransferState::Done));
}

#[test]
fn folder_inside_a_drag_lands_on_drop() {
    let disk = new_disk();
    let src = build_source(&disk);
    let dst = "/base/recv";
    let desktop = "/base/desktop";
    let mut host = Host::new(&disk, dst, Some(desktop));
    let drag = 99;
    host.give(SyncMessage::DragBegin { drag, count: 2 });

    // a folder and a loose file dragged together
    put(&disk, "/base/note.txt", b"loose");
    send_tree(&disk, &mut host, 7, &src, Some(drag));
    send_single(&disk, &mut host, 8, "/base/note.txt", Offer::Drag(drag)).unwrap();
    // nothing lands before the user releases the button
    assert!(!is_dir(&disk, desktop));
    host.give(SyncMessage::DragDrop { drag });
    host.close();

    assert!(is_dir(&disk, "/base/desktop/Photos.2024"));
    assert!(is_dir(&disk, "/base/desktop/Photos.2024/trip/empty"));
    assert_eq!(contents(&disk, "/base/desktop/note.txt").unwrap(), b"loose");
    assert!(snapshot(&disk, dst).is_empty(), "staging removed");

    let mut dropped = None;
    let mut final_rows = Vec::new();
    for ev in &host.events {
        match ev {
            SyncEvent::DragDropped { paths } => dropped = Some(paths.clone()),
            SyncEvent::Transfer(s)
                if s.direction == Direction::Received && s.state == TransferState::Done =>
            {
                final_rows.push(s.clone())
            }
            _ => {}
        }
    }
    let mut dropped = dropped.expect("DragDropped emitted");
    dropped.sort();
    assert_eq!(
        dropped,
        vec!["/base/desktop/Photos.2024".to_string(), "/base/desktop/note.txt".to_string()]
    );
    // rows end up pointing at the final locations
    assert!(final_rows.iter().any(|s| s.kind == TransferKind::Folder
        && s.detail.as_deref() == Some("/base/desktop/Photos.2024")));
    assert!(final_rows.iter().any(|s| s.kind == TransferKind::File
        && s.detail.as_deref() == Some("/base/desktop/note.txt")));
}

#[test]
fn unreadable_drag_items_do_not_strand_the_drop() {
    let disk = new_disk();
    let mut host = Host::new(&disk, "/base/recv", Some("/base/desktop"));
    let drag = 5;
    // three items: a missing file, a missing folder, and a good file
    host.give(SyncMessage::DragBegin { drag, count: 3 });
    put(&disk, "/base/good.txt", b"still arrives");
    assert!(send_single(&disk, &mut host, 1, "/base/nope.txt", Offer::Drag(drag)).is_err());
    host.replies.clear();
    send_tree(&disk, &mut host, 2, "/base/nope-dir", Some(drag));
    send_single(&disk, &mut host, 3, "/base/good.txt", Offer::Drag(drag)).unwrap();
    host.give(SyncMessage::DragDrop { drag });
    host.close();

    // the good file still lands even though two items failed
    assert_eq!(contents(&disk, "/base/desktop/good.txt").unwrap(), b"still arrives");
    // the receiver learnt why the folder failed
    assert!(host.rows().iter().any(|s| s.kind == TransferKind::Folder
        && s.direction == Direction::Received
        && s.state == TransferState::Failed
        && s.detail.as_deref().is_some_and(|d| d.contains("cannot read folder"))));
}

#[test]
fn hostile_paths_fail_the_folder_and_touch_nothing_outside() {
    let disk = new_disk();
    let mut host = Host::new(&disk, "/base/recv", None);
    host.give(SyncMessage::TreeOffer {
        tree: 1,
        name: "evil".to_string(),
        files: 2,
        bytes: 10,
        drag: None,
    });
    host.give(SyncMessage::TreeDir { tree: 1, rel: "../../escaped".to_string() });
    host.give(SyncMessage::TreeFile { tree: 1, id: 11, rel: "../pwned.txt".to_string(), size: 5 });
    host.give(SyncMessage::TreeFile { tree: 1, id: 12, rel: "fine.txt".to_string(), size: 5 });
    host.give(SyncMessage::TreeEnd { tree: 1, error: None });

    // both files refused (the second because the folder already failed)
    let mut rejects = 0;
    while let Some(m) = host.replies.pop_front() {
        assert!(matches!(m, SyncMessage::FileReject { .. }), "{m:?}");
        rejects += 1;
    }
    assert_eq!(rejects, 2);
    assert!(!disk.borrow().contains_key("/base/escaped"));
    assert!(!disk.borrow().contains_key("/base/pwned.txt"));
    assert!(!disk.borrow().contains_key("/base/recv/evil"), "failed folder must not be delivered");
    assert!(snapshot(&disk, "/base/recv").is_empty(), "staging removed");
    assert!(host
        .rows()
        .iter()
        .any(|s| s.state == TransferState::Failed && s.kind == TransferKind::Folder));
}

#[test]
fn walk_skips_symlinks_and_lists_empty_dirs() {
    let disk = new_disk();
    make_dir(&disk, "/tmp/root/sub/empty");
    put(&disk, "/tmp/root/a.txt", b"hello");
    put(&disk, "/tmp/root/sub/b.bin", &vec![1u8; 300]);
    put(&disk, "/tmp/root/escape", b"a link");

    let plan = walk_tree(&disk, "/tmp/root").unwrap();
    let mut dirs = plan.dirs.clone();
    dirs.sort();
    assert_eq!(dirs, vec!["sub".to_string(), "sub/empty".to_string()]);
    let mut rels: Vec<String> = plan.files.iter().map(|f| f.rel.clone()).collect();
    rels.sort();
    assert_eq!(rels, vec!["a.txt".to_string(), "sub/b.bin".to_string()]);
    assert_eq!(plan.bytes, 305);
}

#[test]
fn walks_find_everything_once_and_parents_first() {
    let disk = new_disk();
    make_dir(&disk, "/tmp/deep/a/b/c");
    make_dir(&disk, "/tmp/deep/z/a");
    put(&disk, "/tmp/deep/a/b/c/1", b"1");
    put(&disk, "/tmp/deep/a/2", b"22");
    put(&disk, "/tmp/deep/z/a/3", b"333");
    let plan = walk_tree(&disk, "/tmp/deep").unwrap();
    for (k, dir) in plan.dirs.iter().enumerate() {
        if let Some((parent, _)) = dir.rsplit_once('/') {
            assert!(plan.dirs[..k].iter().any(|d| d == parent), "{dir}");
        }
        assert!(!plan.dirs[..k].contains(dir));
    }
    assert_eq!(plan.dirs.len(), 5);
    let mut rels: Vec<&str> = plan.files.iter().map(|f| f.rel.as_str()).collect();
    rels.sort();
    assert_eq!(rels, vec!["a/2", "a/b/c/1", "z/a/3"]);
    assert_eq!(plan.bytes, 6);
}

#[test]
fn listings_are_sorted() {
    let entry = |n: &str| DirEntry { name: n.to_string(), kind: EntryKind::Directory };
    let sorted = sort_entries(vec![entry("b"), entry("a"), entry("B"), entry("é"), entry("ab")]);
    let names: Vec<&str> = sorted.iter().map(|e| e.name.as_str()).collect();
    assert_eq!(names, vec!["B", "a", "ab", "b", "é"]);
}

#[test]
fn a_file_that_cannot_be_sent_fails_the_folder() {
    let disk = new_disk();
    put(&disk, "/src/F/a.txt", b"a");
    let mut host = Host::new(&disk, "/recv", None);
    // the file vanishes between the walk and its turn
    let plan = walk_tree(&disk, "/src/F").unwrap();
    let mut tree = SendTree::new(4, "F".to_string(), None);
    let steps = tree.walked(plan, 0);
    let mut queue: VecDeque<TreeStep> = steps.list.into();
    while let Some(step) = queue.pop_front() {
        match step {
            TreeStep::Send(m) => host.give(m),
            TreeStep::Deliver(m) => {
                host.give(m);
                queue.extend(tree.delivered(true).list);
            }
            TreeStep::Report(e) => host.events.push(e),
            TreeStep::Start { .. } => {
                tree.on_file(40, "a.txt", &SendStep::Failed { reason: "gone".to_string() }, 0);
                queue.extend(tree.file_over().list);
            }
        }
    }
    let rows = host.rows();
    assert!(rows.iter().any(|s| s.direction == Direction::Received && s.state == TransferState::Failed));
    assert!(rows.iter().any(|s| s.direction == Direction::Sent && s.state == TransferState::Failed));
    assert!(snapshot(&disk, "/recv").is_empty());
}

#[test]
fn few_files_of_a_folder_are_in_flight() {
    let disk = new_disk();
    for i in 0..5 {
        put(&disk, &format!("/src/F/{i}.txt"), b"x");
    }
    let mut tree = SendTree::new(4, "F".to_string(), None);
    let mut starts = 0;
    let steps = tree.walked(walk_tree(&disk, "/src/F").unwrap(), 0);
    let mut queue: VecDeque<TreeStep> = steps.list.into();
    while let Some(step) = queue.pop_front() {
        match step {
            TreeStep::Deliver(_) => queue.extend(tree.delivered(true).list),
            TreeStep::Start { .. } => starts += 1,
            _ => {}
        }
    }
    assert_eq!(starts, TREE_WINDOW);
    assert_eq!(tree.file_over().list.len(), 1);
}

/* ------------------------------------ files ------------------------------------ */

#[test]
fn sender_stops_streaming_when_peer_cancels() {
    let big = vec![7u8; CHUNK_SIZE * 6];
    let mut outgoing = Outgoing::new();
    outgoing.register(5);
    let mut file = SendFile::new(5, "big.bin".to_string(), Offer::Plain);
    let mut sent = Vec::new();
    let mut result = None;
    let mut at = 0usize;
    let mut event = Some(SendEvent::Opened(Opened::File { size: big.len() as u64 }));
    while let Some(ev) = event.take() {
        for step in file.handle(ev, 0) {
            match step {
                SendStep::Deliver(m) | SendStep::Send(m) => {
                    sent.push(m);
                    event = Some(SendEvent::Delivered(true));
                }
                // offer -> accept
                SendStep::AwaitReply => {
                    assert!(outgoing.accepted(5));
                    event = Some(SendEvent::Accepted);
                }
                SendStep::Read => {
                    // one chunk is taken, then the peer cancels
                    if at > 0 {
                        assert!(outgoing.aborted(5, "disk full".to_string()));
                        event = Some(SendEvent::Aborted(outgoing.abort_of(5)));
                    } else {
                        event = Some(SendEvent::Read(big[..CHUNK_SIZE].to_vec()));
                        at += CHUNK_SIZE;
                    }
                }
                SendStep::Failed { reason } => result = Some(reason),
                _ => {}
            }
        }
    }
    assert_eq!(result, Some("disk full".to_string()));
    assert!(matches!(sent[0], SyncMessage::FileOffer { id: 5, .. }));
    assert!(matches!(sent[1], SyncMessage::FileChunk { id: 5, .. }));
    // no FileDone follows
    assert_eq!(sent.len(), 2);
    assert!(!outgoing.accepted(5));
}

#[test]
fn files_arrive_as_sent() {
    for len in [0, 1, CHUNK_SIZE, CHUNK_SIZE + 1, 3 * CHUNK_SIZE] {
        let disk = new_disk();
        let data: Vec<u8> = (0..len).map(|i| (i % 253) as u8).collect();
        put(&disk, "/src/a.bin", &data);
        let mut host = Host::new(&disk, "/recv", None);
        send_single(&disk, &mut host, 1, "/src/a.bin", Offer::Plain).unwrap();
        assert_eq!(contents(&disk, "/recv/a.bin").unwrap(), data);
        let rows = host.rows();
        let done = rows
            .iter()
            .find(|s| s.direction == Direction::Received && s.state == TransferState::Done)
            .unwrap();
        assert_eq!(done.detail.as_deref(), Some("/recv/a.bin"));
        assert_eq!((done.transferred, done.total), (len as u64, len as u64));
        assert!(rows.iter().any(|s| s.direction == Direction::Sent && s.state == TransferState::Done));
    }
}

#[test]
fn a_second_file_of_that_name_is_numbered() {
    let disk = new_disk();
    put(&disk, "/src/a.txt", b"one");
    let mut host = Host::new(&disk, "/recv", None);
    send_single(&disk, &mut host, 1, "/src/a.txt", Offer::Plain).unwrap();
    put(&disk, "/src/a.txt", b"two");
    send_single(&disk, &mut host, 2, "/src/a.txt", Offer::Plain).unwrap();
    assert_eq!(contents(&disk, "/recv/a.txt").unwrap(), b"one");
    assert_eq!(contents(&disk, "/recv/a (1).txt").unwrap(), b"two");
}

#[test]
fn part_file_never_truncates_a_real_file_of_that_name() {
    let disk = new_disk();
    // a real file that looks like our temp name is already there
    put(&disk, "/tmp/vylo-part/x.txt.vylopart", b"precious");
    let mut host = Host::new(&disk, "/tmp/vylo-part", None);
    host.give(SyncMessage::FileOffer { id: 1, name: "x.txt".to_string(), size: 3 });
    assert!(matches!(host.only_reply(), SyncMessage::FileAccept { id: 1 }));
    assert_eq!(contents(&disk, "/tmp/vylo-part/x.txt.vylopart").unwrap(), b"precious");
    assert_eq!(contents(&disk, "/tmp/vylo-part/x.txt (1).vylopart").unwrap(), b"");
    host.give(SyncMessage::FileChunk { id: 1, offset: 0, data: b"new".to_vec() });
    assert_eq!(contents(&disk, "/tmp/vylo-part/x.txt.vylopart").unwrap(), b"precious");
    assert_eq!(contents(&disk, "/tmp/vylo-part/x.txt (1).vylopart").unwrap(), b"new");
}

fn offer(id: u64, size: u64) -> SyncMessage {
    SyncMessage::FileOffer { id, name: "f.bin".to_string(), size }
}

fn last_failure(host: &Host) -> String {
    let rows = host.rows();
    let row = rows.last().unwrap();
    assert_eq!(row.state, TransferState::Failed);
    row.detail.clone().unwrap()
}

#[test]
fn bad_chunks_end_the_transfer() {
    let cases: Vec<(u64, u64, usize, &str)> = vec![
        (10, 0, 11, "transfer exceeds offered size"),
        (u64::MAX, 0, CHUNK_SIZE + 1, "transfer exceeds offered size"),
        (10, 1, 5, "chunks out of order"),
    ];
    for (size, offset, len, reason) in cases {
        let disk = new_disk();
        let mut host = Host::new(&disk, "/recv", None);
        host.give(offer(1, size));
        assert!(matches!(host.only_reply(), SyncMessage::FileAccept { id: 1 }));
        host.give(SyncMessage::FileChunk { id: 1, offset, data: vec![0; len] });
        assert!(matches!(
            host.only_reply(),
            SyncMessage::FileCancel { id: 1, reason: r } if r == reason
        ));
        assert_eq!(last_failure(&host), reason);
        assert!(snapshot(&disk, "/recv").is_empty());
        assert!(!host.inbox.has_transfer(1));
    }
}

#[test]
fn a_full_disk_ends_the_transfer() {
    let disk = new_disk();
    let mut host = Host::new(&disk, "/recv", None);
    host.give(offer(1, 10));
    host.replies.clear();
    host.disk_full = true;
    host.give(SyncMessage::FileChunk { id: 1, offset: 0, data: vec![0; 5] });
    assert!(matches!(host.only_reply(), SyncMessage::FileCancel { id: 1, .. }));
    assert_eq!(last_failure(&host), "write failed: no space");
    assert!(snapshot(&disk, "/recv").is_empty());
}

#[test]
fn unverified_files_are_not_kept() {
    for (sent, digest) in [(3usize, [0u8; 32]), (2, sha256_of(&vec![1; 2]))] {
        let disk = new_disk();
        let mut host = Host::new(&disk, "/recv", None);
        host.give(offer(1, 3));
        host.give(SyncMessage::FileChunk { id: 1, offset: 0, data: vec![1; sent] });
        host.give(SyncMessage::FileDone { id: 1, sha256: digest });
        assert_eq!(host.rows().last().unwrap().state, TransferState::Failed);
        assert!(snapshot(&disk, "/recv").is_empty());
    }
}

#[test]
fn used_ids_are_refused() {
    let disk = new_disk();
    let mut host = Host::new(&disk, "/recv", None);
    host.give(offer(1, 3));
    host.replies.clear();
    host.give(offer(1, 5));
    assert!(matches!(
        host.only_reply(),
        SyncMessage::FileReject { id: 1, reason } if reason == "transfer id already in use"
    ));
    assert!(host.inbox.has_transfer(1));
}

#[test]
fn unusable_names_are_refused() {
    let disk = new_disk();
    let mut host = Host::new(&disk, "/recv", None);
    host.give(SyncMessage::FileOffer { id: 1, name: "..".to_string(), size: 3 });
    assert!(matches!(host.only_reply(), SyncMessage::FileReject { id: 1, .. }));
    assert!(disk.borrow().is_empty());
}

#[test]
fn failed_file_work_refuses_the_offer() {
    let mut inbox = Inbox::new(Location::new("/recv"), None);
    let acts = inbox.handle(offer(1, 3), 0);
    assert!(matches!(&acts.list[..], [Effect::Do(Task::OpenPart { id: 1, .. })]));
    let failure = IoFailure { at: "/recv".to_string(), cause: "read-only".to_string() };
    let acts = inbox.part_opened(Err(failure), 0);
    match &acts.list[..] {
        [Effect::Report(SyncEvent::Transfer(row)), Effect::Send(SyncMessage::FileReject { id: 1, reason })] => {
            assert_eq!(row.state, TransferState::Failed);
            assert!(reason.contains("/recv") && reason.contains("read-only"));
        }
        other => panic!("{other:?}"),
    }
    assert!(inbox.is_idle());
}

#[test]
fn failed_renames_are_told() {
    let mut inbox = Inbox::new(Location::new("/recv"), None);
    let dir = Location::new("/recv");
    inbox.handle(offer(1, 0), 0);
    inbox.part_opened(Ok((dir.join("f.bin"), dir.join("f.bin.vylopart"))), 0);
    let acts = inbox.handle(SyncMessage::FileDone { id: 1, sha256: sha256_of(&vec![]) }, 0);
    match acts.list.last() {
        Some(Effect::Do(Task::Commit { id: 1, durable, .. })) => assert!(*durable),
        other => panic!("{other:?}"),
    }
    let failure = IoFailure { at: "/recv/f.bin".to_string(), cause: "busy".to_string() };
    let acts = inbox.committed(Err(failure));
    match &acts.list[..] {
        [Effect::Report(SyncEvent::Transfer(row))] => {
            assert_eq!(row.detail.as_deref(), Some("cannot rename to /recv/f.bin: busy"));
        }
        other => panic!("{other:?}"),
    }
}

#[test]
fn closing_leaves_nothing_behind() {
    let disk = new_disk();
    let mut host = Host::new(&disk, "/recv", Some("/desk"));
    host.give(offer(1, 3));
    host.give(SyncMessage::DragBegin { drag: 7, count: 1 });
    host.give(SyncMessage::TreeOffer { tree: 9, name: "F".to_string(), files: 1, bytes: 1, drag: None });
    host.close();
    assert!(snapshot(&disk, "/recv").is_empty());
    assert!(host
        .rows()
        .iter()
        .any(|r| r.id == 1 && r.detail.as_deref() == Some("connection closed")));
}

#[test]
fn cancelled_drags_leave_nothing_behind() {
    let disk = new_disk();
    put(&disk, "/src/a.txt", b"a");
    let mut host = Host::new(&disk, "/recv", Some("/desk"));
    host.give(SyncMessage::DragBegin { drag: 7, count: 1 });
    send_single(&disk, &mut host, 1, "/src/a.txt", Offer::Drag(7)).unwrap();
    host.give(SyncMessage::DragCancel { drag: 7 });
    assert!(snapshot(&disk, "/recv").is_empty());
    assert!(!disk.borrow().contains_key("/desk/a.txt"));
    // a drop that comes late finds nothing
    host.give(SyncMessage::DragDrop { drag: 7 });
    assert!(!disk.borrow().contains_key("/desk/a.txt"));
}

#[test]
fn dropped_items_land_in_the_receive_folder_without_a_desktop() {
    let disk = new_disk();
    put(&disk, "/src/a.txt", b"a");
    let mut host = Host::new(&disk, "/recv", None);
    host.give(SyncMessage::DragBegin { drag: 7, count: 1 });
    send_single(&disk, &mut host, 1, "/src/a.txt", Offer::Drag(7)).unwrap();
    host.give(SyncMessage::DragDrop { drag: 7 });
    assert_eq!(contents(&disk, "/recv/a.txt").unwrap(), b"a");
}

#[test]
fn cancelled_files_are_discarded() {
    let disk = new_disk();
    let mut host = Host::new(&disk, "/recv", None);
    host.give(offer(1, 3));
    host.give(SyncMessage::FileCancel { id: 1, reason: "changed my mind".to_string() });
    assert_eq!(last_failure(&host), "changed my mind");
    assert!(snapshot(&disk, "/recv").is_empty());
    host.inbox.set_file_dir(Location::new("/elsewhere"));
    put(&disk, "/src/a.txt", b"a");
    host.replies.clear();
    send_single(&disk, &mut host, 2, "/src/a.txt", Offer::Plain).unwrap();
    assert!(contents(&disk, "/elsewhere/a.txt").is_some());
}

#[test]
fn progress_is_told_now_and_then() {
    let disk = new_disk();
    let mut host = Host::new(&disk, "/recv", None);
    host.give(offer(1, 10));
    let before = host.events.len();
    host.give(SyncMessage::FileChunk { id: 1, offset: 0, data: vec![0; 2] });
    assert_eq!(host.events.len(), before);
    host.now += PROGRESS_INTERVAL;
    host.give(SyncMessage::FileChunk { id: 1, offset: 2, data: vec![0; 2] });
    assert_eq!(host.events.len(), before + 1);
    let row = host.rows().pop().unwrap();
    assert_eq!((row.transferred, row.state), (4, TransferState::Active));
}

#[test]
fn failures_while_sending() {
    let names = [
        (SendEvent::Opened(Opened::Directory), true),
        (SendEvent::Opened(Opened::NoStat { at: "/x".to_string(), cause: "c".to_string() }), true),
        (SendEvent::Opened(Opened::NoOpen { at: "/x".to_string(), cause: "c".to_string() }), true),
    ];
    for (ev, fails) in names {
        let mut f = SendFile::new(1, "x".to_string(), Offer::Plain);
        let steps = f.handle(ev, 0);
        assert_eq!(steps.iter().any(|s| matches!(s, SendStep::Failed { .. })), fails);
        assert_eq!(f.stage, Stage::Over);
    }
    let reply = |ev: SendEvent| {
        let mut f = SendFile::new(1, "x".to_string(), Offer::Plain);
        f.handle(SendEvent::Opened(Opened::File { size: 1 }), 0);
        f.handle(SendEvent::Delivered(true), 0);
        assert_eq!(f.stage, Stage::Waiting);
        let steps = f.handle(ev, 0);
        match steps.into_iter().last() {
            Some(SendStep::Failed { reason }) => reason,
            other => panic!("{other:?}"),
        }
    };
    assert_eq!(
        reply(SendEvent::Rejected("no room".to_string())),
        "peer rejected: no room"
    );
    assert!(!reply(SendEvent::NoReply).is_empty());
    let with = reply(SendEvent::Aborted(Some("gone".to_string())));
    assert_eq!(with, abort_reason(&Some("gone".to_string())));
    assert_eq!(with, "gone");
    assert_eq!(reply(SendEvent::Aborted(None)), abort_reason(&None));
}
