//! What the desktop app's tray shows and asks for, and the lines it
//! exchanges with the service.

use crate::ipc::{copy_opt, opt_text};
use crate::text::{concat2, same_text, to_chars};
use vstd::prelude::*;
use vstd::string::*;

verus! {

/* ---------------------------------- lines ---------------------------------- */

/// Whether a line is a JSON object that has `key`.
pub uninterp spec fn json_has(line: Seq<char>, key: Seq<char>) -> bool;

/// The boolean at `key`, `field` in a JSON object, if there is one.
pub uninterp spec fn json_bool(line: Seq<char>, key: Seq<char>, field: Seq<char>) -> Option<bool>;

/// The string at `key`, `field` in a JSON object, if there is one.
pub uninterp spec fn json_text(
    line: Seq<char>,
    key: Seq<char>,
    field: Seq<char>,
) -> Option<Seq<char>>;

/// `serde_json::from_str` and `serde_json::Value::get`: whether the line
/// parses as an object that has `key`.
#[verifier::external_body]
fn line_has(line: &str, key: &str) -> (r: bool)
    ensures
        r == json_has(line@, key@),
{
    serde_json::from_str::<serde_json::Value>(line).is_ok_and(|value| value.get(key).is_some())
}

/// `serde_json::from_str`, `serde_json::Value::get` and
/// `serde_json::Value::as_bool`: the boolean at `key`, `field`.
#[verifier::external_body]
fn line_bool(line: &str, key: &str, field: &str) -> (r: Option<bool>)
    ensures
        r == json_bool(line@, key@, field@),
{
    serde_json::from_str::<serde_json::Value>(line).ok()?.get(key)?.get(field)?.as_bool()
}

/// `serde_json::from_str`, `serde_json::Value::get` and
/// `serde_json::Value::as_str`: the string at `key`, `field`.
#[verifier::external_body]
fn line_text(line: &str, key: &str, field: &str) -> (r: Option<String>)
    ensures
        opt_text(r) == json_text(line@, key@, field@),
{
    let value = serde_json::from_str::<serde_json::Value>(line).ok()?;
    value.get(key)?.get(field)?.as_str().map(String::from)
}

/// What a line from the service says to the tray.
#[derive(Debug)]
pub enum Line {
    /// the settings: whether the clipboard is synced, and where files land
    Settings { clipboard_sync: Option<bool>, file_dir: Option<String> },
    /// the connection: whether there is one, and to whom
    Connection { connected: Option<bool>, peer_name: Option<String> },
    /// nothing
    Other,
}

/// What a [`Line`] says.
#[verifier::ext_equal]
pub enum Said {
    Settings { clipboard_sync: Option<bool>, file_dir: Option<Seq<char>> },
    Connection { connected: Option<bool>, peer_name: Option<Seq<char>> },
    Other,
}

impl View for Line {
    type V = Said;

    open spec fn view(&self) -> Said {
        match *self {
            Line::Settings { clipboard_sync, file_dir } => Said::Settings {
                clipboard_sync,
                file_dir: opt_text(file_dir),
            },
            Line::Connection { connected, peer_name } => Said::Connection {
                connected,
                peer_name: opt_text(peer_name),
            },
            Line::Other => Said::Other,
        }
    }
}

/// What a line says to the tray.
pub open spec fn said(line: Seq<char>) -> Said {
    if json_has(line, "VyloState"@) {
        Said::Settings {
            clipboard_sync: json_bool(line, "VyloState"@, "clipboard_sync"@),
            file_dir: json_text(line, "VyloState"@, "file_dir"@),
        }
    } else if json_has(line, "SyncStatus"@) {
        Said::Connection {
            connected: json_bool(line, "SyncStatus"@, "connected"@),
            peer_name: json_text(line, "SyncStatus"@, "peer_name"@),
        }
    } else {
        Said::Other
    }
}

/// What a line from the service says to the tray.
pub fn read_line(line: &str) -> (r: Line)
    ensures
        r@ == said(line@),
{
    if line_has(line, "VyloState") {
        Line::Settings {
            clipboard_sync: line_bool(line, "VyloState", "clipboard_sync"),
            file_dir: line_text(line, "VyloState", "file_dir"),
        }
    } else if line_has(line, "SyncStatus") {
        Line::Connection {
            connected: line_bool(line, "SyncStatus", "connected"),
            peer_name: line_text(line, "SyncStatus", "peer_name"),
        }
    } else {
        Line::Other
    }
}

/// A text with a newline at its end.
pub open spec fn ended(msg: Seq<char>) -> Seq<char> {
    if msg.len() > 0 && msg.last() == '\n' {
        msg
    } else {
        msg.push('\n')
    }
}

/// A request line, with the newline that ends it.
pub fn request_line(msg: String) -> (r: String)
    ensures
        r@ == ended(msg@),
{
    let chars = to_chars(msg.as_str());
    let mut r = msg;
    if chars.len() == 0 || chars[chars.len() - 1] != '\n' {
        r.push('\n');
    }
    r
}

/// The request that turns clipboard sync on or off.
pub fn clipboard_request(on: bool) -> (r: String)
    ensures
        r@ == (if on {
            "{\"SetClipboardSync\":true}"@
        } else {
            "{\"SetClipboardSync\":false}"@
        }),
{
    if on {
        "{\"SetClipboardSync\":true}".to_owned()
    } else {
        "{\"SetClipboardSync\":false}".to_owned()
    }
}

/* ---------------------------------- tray ---------------------------------- */

/// What the tray knows.
pub struct TrayInfo {
    pub ipc_up: bool,
    pub sync_connected: bool,
    pub peer_name: Option<String>,
    pub file_dir: Option<String>,
}

/// What a [`TrayInfo`] says.
#[verifier::ext_equal]
pub struct Tray {
    pub ipc_up: bool,
    pub sync_connected: bool,
    pub peer_name: Option<Seq<char>>,
    pub file_dir: Option<Seq<char>>,
}

impl View for TrayInfo {
    type V = Tray;

    open spec fn view(&self) -> Tray {
        Tray {
            ipc_up: self.ipc_up,
            sync_connected: self.sync_connected,
            peer_name: opt_text(self.peer_name),
            file_dir: opt_text(self.file_dir),
        }
    }
}

/// What changes in the tray.
#[derive(Debug, PartialEq, Eq, Structural, Clone, Copy)]
pub enum TrayChange {
    Nothing,
    /// the clipboard item's check mark
    Clipboard(bool),
    /// the status line
    Status,
}

/// What a click on a menu item asks for.
#[derive(Debug)]
pub enum MenuAction {
    ShowWindow,
    /// a request to the service
    Request(String),
    /// open this folder, or the usual one if it is not known
    OpenFiles(Option<String>),
    Quit,
    Nothing,
}

/// What a [`MenuAction`] is.
#[verifier::ext_equal]
pub enum Asked {
    ShowWindow,
    Request(Seq<char>),
    OpenFiles(Option<Seq<char>>),
    Quit,
    Nothing,
}

impl View for MenuAction {
    type V = Asked;

    open spec fn view(&self) -> Asked {
        match *self {
            MenuAction::ShowWindow => Asked::ShowWindow,
            MenuAction::Request(line) => Asked::Request(line@),
            MenuAction::OpenFiles(dir) => Asked::OpenFiles(opt_text(dir)),
            MenuAction::Quit => Asked::Quit,
            MenuAction::Nothing => Asked::Nothing,
        }
    }
}

impl Tray {
    /// What a line does to the tray. What the settings leave out about the
    /// clipboard counts as on; what they leave out about the folder stays.
    pub open spec fn on_said(self, s: Said) -> (Tray, TrayChange) {
        match s {
            Said::Settings { clipboard_sync, file_dir } => (
                Tray {
                    file_dir: if file_dir is Some {
                        file_dir
                    } else {
                        self.file_dir
                    },
                    ..self
                },
                TrayChange::Clipboard(
                    match clipboard_sync {
                        Some(on) => on,
                        None => true,
                    },
                ),
            ),
            Said::Connection { connected, peer_name } => (
                Tray {
                    sync_connected: match connected {
                        Some(c) => c,
                        None => false,
                    },
                    peer_name,
                    ..self
                },
                TrayChange::Status,
            ),
            Said::Other => (self, TrayChange::Nothing),
        }
    }

    /// The status line.
    pub open spec fn status(self) -> Seq<char> {
        if !self.ipc_up {
            "Starting service…"@
        } else if self.sync_connected {
            "Connected to "@ + (match self.peer_name {
                Some(name) => name,
                None => "peer"@,
            })
        } else {
            "Not connected to a peer"@
        }
    }

    /// What a click on the menu item `id` asks for, the clipboard item being
    /// checked or not.
    pub open spec fn on_menu(self, id: Seq<char>, checked: bool) -> Asked {
        if id == "show"@ {
            Asked::ShowWindow
        } else if id == "clipboard"@ {
            Asked::Request(
                if checked {
                    "{\"SetClipboardSync\":true}"@
                } else {
                    "{\"SetClipboardSync\":false}"@
                },
            )
        } else if id == "open_files"@ {
            Asked::OpenFiles(self.file_dir)
        } else if id == "quit"@ {
            Asked::Quit
        } else {
            Asked::Nothing
        }
    }
}

impl Default for TrayInfo {
    fn default() -> (r: TrayInfo)
        ensures
            r@ == (Tray { ipc_up: false, sync_connected: false, peer_name: None, file_dir: None }),
    {
        TrayInfo { ipc_up: false, sync_connected: false, peer_name: None, file_dir: None }
    }
}

impl TrayInfo {
    /// The link to the service went up or down.
    pub fn set_ipc_connected(&mut self, connected: bool)
        ensures
            final(self)@ == (Tray { ipc_up: connected, ..old(self)@ }),
    {
        self.ipc_up = connected;
    }

    /// A line from the service: what changes in the tray.
    pub fn observe_line(&mut self, line: &str) -> (r: TrayChange)
        ensures
            (final(self)@, r) == old(self)@.on_said(said(line@)),
    {
        let l = read_line(line);
        self.observe(l)
    }

    /// What a line says: what changes in the tray.
    pub fn observe(&mut self, line: Line) -> (r: TrayChange)
        ensures
            (final(self)@, r) == old(self)@.on_said(line@),
    {
        match line {
            Line::Settings { clipboard_sync, file_dir } => {
                if file_dir.is_some() {
                    self.file_dir = file_dir;
                }
                match clipboard_sync {
                    Some(on) => TrayChange::Clipboard(on),
                    None => TrayChange::Clipboard(true),
                }
            },
            Line::Connection { connected, peer_name } => {
                self.sync_connected = match connected {
                    Some(c) => c,
                    None => false,
                };
                self.peer_name = peer_name;
                TrayChange::Status
            },
            Line::Other => TrayChange::Nothing,
        }
    }

    /// The status line.
    pub fn status_text(&self) -> (r: String)
        ensures
            r@ == self@.status(),
    {
        if !self.ipc_up {
            "Starting service…".to_owned()
        } else if self.sync_connected {
            match &self.peer_name {
                Some(name) => concat2("Connected to ", name.as_str()),
                None => concat2("Connected to ", "peer"),
            }
        } else {
            "Not connected to a peer".to_owned()
        }
    }

    /// What a click on a menu item asks for.
    pub fn on_menu_event(&self, id: &str, checked: bool) -> (r: MenuAction)
        ensures
            r@ == self@.on_menu(id@, checked),
    {
        if same_text(id, "show") {
            MenuAction::ShowWindow
        } else if same_text(id, "clipboard") {
            MenuAction::Request(clipboard_request(checked))
        } else if same_text(id, "open_files") {
            MenuAction::OpenFiles(copy_opt(&self.file_dir))
        } else if same_text(id, "quit") {
            MenuAction::Quit
        } else {
            MenuAction::Nothing
        }
    }
}

/// A request that is already a line stays as it is.
pub proof fn lines_are_ended_once(msg: Seq<char>)
    ensures
        ended(msg).last() == '\n',
        ended(ended(msg)) == ended(msg),
{
}

} // verus!
