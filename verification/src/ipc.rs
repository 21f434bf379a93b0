//! The vocabulary shared with the frontends: screen positions, modifier
//! keys, transfers and their states.

use crate::text::same_text;
use vstd::prelude::*;
use vstd::string::*;

verus! {

/// UDP port of the input channel.
pub const DEFAULT_PORT: u16 = 4242;

/// TCP port of the clipboard / file-transfer / pairing side channel.
pub const DEFAULT_SYNC_PORT: u16 = 4243;

/* ------------------------------- positions ------------------------------- */

/// The side of this machine's screen that a peer sits on.
#[derive(Debug, PartialEq, Eq, Structural, Hash, Clone, Copy)]
pub enum Position {
    Left,
    Right,
    Top,
    Bottom,
}

/// A text that names no position.
#[derive(Debug)]
pub struct PositionParseError {
    pub pos: String,
}

impl Default for Position {
    fn default() -> (r: Position)
        ensures
            r == Position::Left,
    {
        Position::Left
    }
}

impl Position {
    /// How the position is written.
    pub open spec fn spelled(self) -> Seq<char> {
        match self {
            Position::Left => "left"@,
            Position::Right => "right"@,
            Position::Top => "top"@,
            Position::Bottom => "bottom"@,
        }
    }

    pub fn opposite(&self) -> (r: Position)
        ensures
            r == opposite_of(*self),
    {
        match self {
            Position::Left => Position::Right,
            Position::Right => Position::Left,
            Position::Top => Position::Bottom,
            Position::Bottom => Position::Top,
        }
    }

    /// The word for this position.
    pub fn name(&self) -> (r: String)
        ensures
            r@ == self.spelled(),
    {
        match self {
            Position::Left => "left".to_owned(),
            Position::Right => "right".to_owned(),
            Position::Top => "top".to_owned(),
            Position::Bottom => "bottom".to_owned(),
        }
    }

    /// The position that a word names.
    pub fn parse(s: &str) -> (r: Result<Position, PositionParseError>)
        ensures
            r is Ok <==> position_named(s@) is Ok,
            r is Ok ==> r->Ok_0 == position_named(s@)->Ok_0,
            r is Err ==> r->Err_0.pos@ == s@,
    {
        if same_text(s, "left") {
            Ok(Position::Left)
        } else if same_text(s, "right") {
            Ok(Position::Right)
        } else if same_text(s, "top") {
            Ok(Position::Top)
        } else if same_text(s, "bottom") {
            Ok(Position::Bottom)
        } else {
            Err(PositionParseError { pos: s.to_owned() })
        }
    }
}

impl core::str::FromStr for Position {
    type Err = PositionParseError;

    fn from_str(s: &str) -> (r: Result<Position, PositionParseError>)
        ensures
            r is Ok <==> position_named(s@) is Ok,
            r is Ok ==> r->Ok_0 == position_named(s@)->Ok_0,
            r is Err ==> r->Err_0.pos@ == s@,
    {
        Position::parse(s)
    }
}

/// The position that a word names, if it names one.
pub open spec fn position_named(s: Seq<char>) -> Result<Position, ()> {
    if s == Position::Left.spelled() {
        Ok(Position::Left)
    } else if s == Position::Right.spelled() {
        Ok(Position::Right)
    } else if s == Position::Top.spelled() {
        Ok(Position::Top)
    } else if s == Position::Bottom.spelled() {
        Ok(Position::Bottom)
    } else {
        Err(())
    }
}

impl<'a> TryFrom<&'a str> for Position {
    type Error = ();

    fn try_from(s: &'a str) -> (r: Result<Self, ()>) {
        match Position::parse(s) {
            Ok(p) => Ok(p),
            Err(_) => Err(()),
        }
    }
}

impl<'a> vstd::std_specs::convert::TryFromSpecImpl<&'a str> for Position {
    open spec fn obeys_try_from_spec() -> bool {
        true
    }

    open spec fn try_from_spec(s: &'a str) -> Result<Self, ()> {
        position_named(s@)
    }
}

impl PositionParseError {
    /// What is wrong, in words.
    pub fn message(&self) -> (r: String)
        ensures
            r@ == "not a valid position: "@ + self.pos@,
    {
        crate::text::concat2("not a valid position: ", self.pos.as_str())
    }
}

/// The other side of the screen.
pub open spec fn opposite_of(p: Position) -> Position {
    match p {
        Position::Left => Position::Right,
        Position::Right => Position::Left,
        Position::Top => Position::Bottom,
        Position::Bottom => Position::Top,
    }
}

/// The opposite of the opposite is where one started, and no position is
/// its own opposite.
pub proof fn opposite_undoes_itself(p: Position)
    ensures
        opposite_of(opposite_of(p)) == p,
        opposite_of(p) != p,
{
}

/// A position that was written down is read back as itself, and nothing else
/// is read as a position.
pub proof fn positions_read_back(p: Position, s: Seq<char>)
    ensures
        position_named(p.spelled()) == Ok::<Position, ()>(p),
        position_named(s) is Ok ==> position_named(s)->Ok_0.spelled() == s,
{
    reveal_strlit("left");
    reveal_strlit("right");
    reveal_strlit("top");
    reveal_strlit("bottom");
    assert("left"@.len() == 4 && "right"@.len() == 5 && "top"@.len() == 3 && "bottom"@.len() == 6);
}

/* ------------------------------- modifiers ------------------------------- */

/// A modifier key role. Used to describe what a local modifier key acts
/// as on a given client (see [`ModifierMap`]).
#[derive(Debug, PartialEq, Eq, Structural, Hash, Clone, Copy)]
pub enum Modifier {
    /// Control on every platform
    Ctrl,
    /// Alt (Windows/Linux) / Option (macOS)
    Alt,
    /// Windows key (Windows) / Super (Linux) / Command (macOS)
    Meta,
}

impl Modifier {
    /// How the role is written.
    pub open spec fn spelled(self) -> Seq<char> {
        match self {
            Modifier::Ctrl => "ctrl"@,
            Modifier::Alt => "alt"@,
            Modifier::Meta => "meta"@,
        }
    }

    /// The word for this role.
    pub fn name(&self) -> (r: String)
        ensures
            r@ == self.spelled(),
    {
        match self {
            Modifier::Ctrl => "ctrl".to_owned(),
            Modifier::Alt => "alt".to_owned(),
            Modifier::Meta => "meta".to_owned(),
        }
    }

    /// The role that a word names.
    pub fn parse(s: &str) -> (r: Result<Modifier, ()>)
        ensures
            r == modifier_named(s@),
    {
        if same_text(s, "ctrl") {
            Ok(Modifier::Ctrl)
        } else if same_text(s, "alt") {
            Ok(Modifier::Alt)
        } else if same_text(s, "meta") {
            Ok(Modifier::Meta)
        } else {
            Err(())
        }
    }
}

/// The role that a word names, if it names one.
pub open spec fn modifier_named(s: Seq<char>) -> Result<Modifier, ()> {
    if s == Modifier::Ctrl.spelled() {
        Ok(Modifier::Ctrl)
    } else if s == Modifier::Alt.spelled() {
        Ok(Modifier::Alt)
    } else if s == Modifier::Meta.spelled() {
        Ok(Modifier::Meta)
    } else {
        Err(())
    }
}

impl<'a> TryFrom<&'a str> for Modifier {
    type Error = ();

    fn try_from(s: &'a str) -> (r: Result<Self, ()>) {
        Modifier::parse(s)
    }
}

impl<'a> vstd::std_specs::convert::TryFromSpecImpl<&'a str> for Modifier {
    open spec fn obeys_try_from_spec() -> bool {
        true
    }

    open spec fn try_from_spec(s: &'a str) -> Result<Self, ()> {
        modifier_named(s@)
    }
}

/// A role that was written down is read back as itself, and nothing else is
/// read as a role.
pub proof fn modifiers_read_back(m: Modifier, s: Seq<char>)
    ensures
        modifier_named(m.spelled()) == Ok::<Modifier, ()>(m),
        modifier_named(s) is Ok ==> modifier_named(s)->Ok_0.spelled() == s,
{
    reveal_strlit("ctrl");
    reveal_strlit("alt");
    reveal_strlit("meta");
    assert("ctrl"@[0] == 'c' && "alt"@[0] == 'a' && "meta"@[0] == 'm');
}

/// Which modifier each local modifier key acts as when input is sent to
/// a client. The default is the identity (keys act as themselves). This
/// lets e.g. a Mac keyboard's Command key act as Ctrl on a Windows
/// machine, or undo a macOS-level Ctrl/Command swap for the peer.
#[derive(Debug, PartialEq, Eq, Structural, Clone, Copy)]
pub struct ModifierMap {
    /// what the local Ctrl key(s) act as
    pub ctrl: Modifier,
    /// what the local Alt / Option key(s) act as
    pub alt: Modifier,
    /// what the local Windows / Super / Command key(s) act as
    pub meta: Modifier,
}

impl Default for ModifierMap {
    fn default() -> (r: ModifierMap)
        ensures
            r == ModifierMap::identity(),
    {
        ModifierMap { ctrl: Modifier::Ctrl, alt: Modifier::Alt, meta: Modifier::Meta }
    }
}

impl ModifierMap {
    /// Every key acts as itself.
    pub open spec fn identity() -> ModifierMap {
        ModifierMap { ctrl: Modifier::Ctrl, alt: Modifier::Alt, meta: Modifier::Meta }
    }

    /// What a map leaves unsaid about Ctrl.
    pub fn default_ctrl() -> (r: Modifier)
        ensures
            r == ModifierMap::identity().ctrl,
    {
        Modifier::Ctrl
    }

    /// What a map leaves unsaid about Alt.
    pub fn default_alt() -> (r: Modifier)
        ensures
            r == ModifierMap::identity().alt,
    {
        Modifier::Alt
    }

    /// What a map leaves unsaid about Meta.
    pub fn default_meta() -> (r: Modifier)
        ensures
            r == ModifierMap::identity().meta,
    {
        Modifier::Meta
    }

    /// true if every key acts as itself
    pub fn is_identity(&self) -> (r: bool)
        ensures
            r == (*self == ModifierMap::identity()),
    {
        *self == ModifierMap::default()
    }
}

/* ------------------------------- transfers ------------------------------- */

#[derive(Debug, PartialEq, Eq, Structural, Clone, Copy)]
pub enum Direction {
    Sent,
    Received,
}

#[derive(Debug, PartialEq, Eq, Structural, Clone, Copy)]
pub enum ClipboardKind {
    Text,
    Image,
}

#[derive(Debug, PartialEq, Eq, Structural, Clone, Copy)]
pub enum TransferState {
    Active,
    Done,
    Failed,
}

/// What a transfer row represents.
#[derive(Debug, PartialEq, Eq, Structural, Clone, Copy)]
pub enum TransferKind {
    File,
    /// a whole directory tree, reported as one transfer
    Folder,
}

impl Default for TransferKind {
    fn default() -> (r: TransferKind)
        ensures
            r == TransferKind::File,
    {
        TransferKind::File
    }
}

/// A transfer as the frontends show it: one row.
#[derive(Debug, PartialEq, Eq, Clone)]
pub struct FileTransferStatus {
    pub id: u64,
    pub name: String,
    pub direction: Direction,
    pub transferred: u64,
    pub total: u64,
    pub state: TransferState,
    /// destination path when done (received), error message when failed
    pub detail: Option<String>,
    pub kind: TransferKind,
    /// number of files inside a folder transfer (0 for a single file)
    pub files: u32,
}

/// What a transfer row says.
#[verifier::ext_equal]
pub struct Row {
    pub id: u64,
    pub name: Seq<char>,
    pub direction: Direction,
    pub transferred: u64,
    pub total: u64,
    pub state: TransferState,
    pub detail: Option<Seq<char>>,
    pub kind: TransferKind,
    pub files: u32,
}

/// The text of an optional string.
pub open spec fn opt_text(o: Option<String>) -> Option<Seq<char>> {
    match o {
        Some(s) => Some(s@),
        None => None,
    }
}

/// A copy of an optional string.
pub fn copy_opt(o: &Option<String>) -> (r: Option<String>)
    ensures
        opt_text(r) == opt_text(*o),
{
    match o {
        Some(s) => Some(s.clone()),
        None => None,
    }
}

impl View for FileTransferStatus {
    type V = Row;

    open spec fn view(&self) -> Row {
        Row {
            id: self.id,
            name: self.name@,
            direction: self.direction,
            transferred: self.transferred,
            total: self.total,
            state: self.state,
            detail: opt_text(self.detail),
            kind: self.kind,
            files: self.files,
        }
    }
}

/// The row of a single file.
pub open spec fn file_row(
    id: u64,
    name: Seq<char>,
    direction: Direction,
    transferred: u64,
    total: u64,
    state: TransferState,
    detail: Option<Seq<char>>,
) -> Row {
    Row { id, name, direction, transferred, total, state, detail, kind: TransferKind::File, files: 0 }
}

/// The row of a whole folder.
pub open spec fn folder_row(
    id: u64,
    name: Seq<char>,
    files: u32,
    direction: Direction,
    transferred: u64,
    total: u64,
    state: TransferState,
    detail: Option<Seq<char>>,
) -> Row {
    Row { id, name, direction, transferred, total, state, detail, kind: TransferKind::Folder, files }
}

/// how a transfer is reported to the frontends
pub fn status(
    id: u64,
    name: &str,
    direction: Direction,
    transferred: u64,
    total: u64,
    state: TransferState,
    detail: Option<String>,
) -> (r: FileTransferStatus)
    ensures
        r@ == file_row(id, name@, direction, transferred, total, state, opt_text(detail)),
{
    FileTransferStatus {
        id,
        name: name.to_owned(),
        direction,
        transferred,
        total,
        state,
        detail,
        kind: TransferKind::File,
        files: 0,
    }
}

/// a folder transfer as one row: `files` inside, bytes as progress
pub fn tree_status(
    id: u64,
    name: &str,
    files: u32,
    direction: Direction,
    transferred: u64,
    total: u64,
    state: TransferState,
    detail: Option<String>,
) -> (r: FileTransferStatus)
    ensures
        r@ == folder_row(id, name@, files, direction, transferred, total, state, opt_text(detail)),
{
    FileTransferStatus {
        id,
        name: name.to_owned(),
        direction,
        transferred,
        total,
        state,
        detail,
        kind: TransferKind::Folder,
        files,
    }
}

/* --------------------------------- status --------------------------------- */

/// Whether capture or emulation is running.
#[derive(Debug, PartialEq, Eq, Structural, Clone, Copy)]
pub enum Status {
    Disabled,
    Enabled,
}

impl Default for Status {
    fn default() -> (r: Status)
        ensures
            r == Status::Disabled,
    {
        Status::Disabled
    }
}

impl From<Status> for bool {
    fn from(status: Status) -> (r: bool) {
        match status {
            Status::Enabled => true,
            Status::Disabled => false,
        }
    }
}

impl vstd::std_specs::convert::FromSpecImpl<Status> for bool {
    open spec fn obeys_from_spec() -> bool {
        true
    }

    open spec fn from_spec(v: Status) -> bool {
        v == Status::Enabled
    }
}

/* ---------------------------------- peers ---------------------------------- */

/// An IP address.
#[derive(Debug, PartialEq, Eq, Structural, Hash, Clone, Copy)]
pub enum Ip {
    V4(u32),
    V6(u128),
}

/// A device that advertises itself on the local network.
#[derive(Debug, PartialEq, Eq, Clone)]
pub struct DiscoveredPeer {
    pub name: String,
    pub addrs: Vec<Ip>,
    pub port: u16,
}

/// What a discovered device says of itself.
#[verifier::ext_equal]
pub struct Peer {
    pub name: Seq<char>,
    pub addrs: Seq<Ip>,
    pub port: u16,
}

impl View for DiscoveredPeer {
    type V = Peer;

    open spec fn view(&self) -> Peer {
        Peer { name: self.name@, addrs: self.addrs@, port: self.port }
    }
}

} // verus!
