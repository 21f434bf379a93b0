//! What the sync side tells the frontends.

use crate::ipc::{opt_text, ClipboardKind, Direction, DiscoveredPeer, FileTransferStatus, Ip, Peer, Row};
use crate::names::texts;
use vstd::prelude::*;

verus! {

/// How often a running transfer reports its progress, in nanoseconds.
pub const PROGRESS_INTERVAL: u64 = 250_000_000;

#[derive(Debug)]
pub enum SyncEvent {
    Status { connected: bool, peer_name: Option<String> },
    PairingStarted { pin: String, port: u16 },
    PairingComplete {
        fingerprint: String,
        name: String,
        addr: Ip,
        /// true when this machine dialed (the user typed the PIN here)
        initiated: bool,
    },
    PairingFailed(String),
    PeersDiscovered(Vec<DiscoveredPeer>),
    Clipboard { direction: Direction, kind: ClipboardKind },
    Transfer(FileTransferStatus),
    /// what a drop placed, and where
    DragDropped { paths: Vec<String> },
}

/// What a [`SyncEvent`] says.
#[verifier::ext_equal]
pub enum Event {
    Status { connected: bool, peer_name: Option<Seq<char>> },
    PairingStarted { pin: Seq<char>, port: u16 },
    PairingComplete { fingerprint: Seq<char>, name: Seq<char>, addr: Ip, initiated: bool },
    PairingFailed(Seq<char>),
    PeersDiscovered(Seq<Peer>),
    Clipboard { direction: Direction, kind: ClipboardKind },
    Transfer(Row),
    DragDropped { paths: Seq<Seq<char>> },
}

/// The peers of a list.
pub open spec fn peers_view(v: Seq<DiscoveredPeer>) -> Seq<Peer> {
    v.map_values(|p: DiscoveredPeer| p@)
}

impl View for SyncEvent {
    type V = Event;

    open spec fn view(&self) -> Event {
        match *self {
            SyncEvent::Status { connected, peer_name } => Event::Status {
                connected,
                peer_name: opt_text(peer_name),
            },
            SyncEvent::PairingStarted { pin, port } => Event::PairingStarted { pin: pin@, port },
            SyncEvent::PairingComplete { fingerprint, name, addr, initiated } => {
                Event::PairingComplete { fingerprint: fingerprint@, name: name@, addr, initiated }
            },
            SyncEvent::PairingFailed(msg) => Event::PairingFailed(msg@),
            SyncEvent::PeersDiscovered(peers) => Event::PeersDiscovered(peers_view(peers@)),
            SyncEvent::Clipboard { direction, kind } => Event::Clipboard { direction, kind },
            SyncEvent::Transfer(status) => Event::Transfer(status@),
            SyncEvent::DragDropped { paths } => Event::DragDropped { paths: texts(paths@) },
        }
    }
}

/// Whether a progress report is due.
pub open spec fn progress_due(last: u64, now: u64) -> bool {
    now - last >= PROGRESS_INTERVAL
}

/// Whether a progress report is due at `now`, the last one having been
/// made at `last`.
pub fn is_due(last: u64, now: u64) -> (r: bool)
    ensures
        r == progress_due(last, now),
{
    now >= last && now - last >= PROGRESS_INTERVAL
}

/// `a + b`, or the largest number there is.
pub open spec fn capped(a: int, b: int) -> u64 {
    if a + b <= u64::MAX {
        (a + b) as u64
    } else {
        u64::MAX
    }
}

} // verus!
