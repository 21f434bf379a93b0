use vylo_share::discovery::{advertised_host, fp_prefix, instance_name, Peers};
use vylo_share::drag::{
    active_drag_files, on_left_mouse_up, pasteboard_files, DragState, PasteItem,
};
use vylo_share::ipc::Ip;
use vylo_share::tray::{
    clipboard_request, read_line, request_line, Line, MenuAction, TrayChange, TrayInfo,
};

fn strings(v: &[&str]) -> Vec<String> {
    v.iter().map(|s| s.to_string()).collect()
}

#[test]
fn advertised_names() {
    assert_eq!(fp_prefix("ab:cd:ef:01:23:45:67:89"), "abcdef012345");
    assert_eq!(fp_prefix("ab:c"), "abc");
    assert_eq!(advertised_host("my-mac.local"), "my-mac.local.");
    assert_eq!(advertised_host("my-pc"), "my-pc.local.");
    assert_eq!(instance_name("my-pc (ab)._vylo-share._tcp.local."), "my-pc (ab)");
    assert_eq!(instance_name("plain"), "plain");
}

#[test]
fn own_advertisement_is_skipped() {
    let mut peers = Peers::new("ab:cd:ef:01:23:45:67:89");
    let own = Some("abcdef012345".to_string());
    assert!(peers.resolved(own, "me._vylo-share._tcp.local.", vec![Ip::V4(1)], 4243).is_none());
    assert!(peers.removed("me._vylo-share._tcp.local.").is_none());
}

#[test]
fn devices_come_and_go() {
    let mut peers = Peers::new("ab:cd");
    let fp = Some("123456789abc".to_string());
    let list = peers
        .resolved(fp.clone(), "pc._vylo-share._tcp.local.", vec![Ip::V4(1)], 4243)
        .unwrap();
    assert_eq!(list.len(), 1);
    assert_eq!(list[0].name, "pc");
    // seen again, at another address
    let list = peers
        .resolved(fp, "pc._vylo-share._tcp.local.", vec![Ip::V4(2), Ip::V6(3)], 4244)
        .unwrap();
    assert_eq!(list.len(), 1);
    assert_eq!(list[0].addrs, vec![Ip::V4(2), Ip::V6(3)]);
    assert_eq!(list[0].port, 4244);
    // one without a fingerprint is listed too
    let list = peers.resolved(None, "nas._vylo-share._tcp.local.", vec![], 1).unwrap();
    assert_eq!(list.len(), 2);
    let list = peers.removed("pc._vylo-share._tcp.local.").unwrap();
    assert_eq!(list.len(), 1);
    assert_eq!(list[0].name, "nas");
    assert!(peers.removed("pc._vylo-share._tcp.local.").is_none());
}

#[test]
fn drags_are_recognised_once_per_hold() {
    let mut st = DragState::new();
    // files from an earlier drag are still on the pasteboard
    assert!(active_drag_files(&mut st, true, false, strings(&["/old"])).is_empty());
    // a new drag
    assert_eq!(active_drag_files(&mut st, true, true, strings(&["/a", "/b"])), strings(&["/a", "/b"]));
    // the cursor comes back and crosses again
    assert_eq!(active_drag_files(&mut st, true, false, vec![]), strings(&["/a", "/b"]));
    on_left_mouse_up(&mut st);
    assert!(active_drag_files(&mut st, true, false, strings(&["/a", "/b"])).is_empty());
    // a drag of something that is no file
    assert!(active_drag_files(&mut st, true, true, vec![]).is_empty());
    // the button is up: nothing is dragged, whatever the pasteboard says
    assert_eq!(active_drag_files(&mut st, true, true, strings(&["/c"])), strings(&["/c"]));
    assert!(active_drag_files(&mut st, false, true, strings(&["/c"])).is_empty());
    assert!(!st.armed);
}

#[test]
fn only_real_files_are_dragged() {
    let item = |has_file_url: bool, promised: bool, path: Option<&str>| PasteItem {
        has_file_url,
        promised,
        path: path.map(|p| p.to_string()),
    };
    let items = vec![
        item(true, false, Some("/a")),
        item(false, false, Some("/text")),
        item(true, true, Some("/promise")),
        item(true, false, None),
        item(true, false, Some("/b")),
    ];
    assert_eq!(pasteboard_files(&items), strings(&["/a", "/b"]));
}

#[test]
fn lines_are_read() {
    match read_line("{\"VyloState\":{\"clipboard_sync\":false,\"file_dir\":\"/f\",\"x\":1}}") {
        Line::Settings { clipboard_sync, file_dir } => {
            assert_eq!(clipboard_sync, Some(false));
            assert_eq!(file_dir.as_deref(), Some("/f"));
        }
        other => panic!("{other:?}"),
    }
    match read_line("{\"SyncStatus\":{\"connected\":true,\"peer_name\":null}}") {
        Line::Connection { connected, peer_name } => {
            assert_eq!(connected, Some(true));
            assert_eq!(peer_name, None);
        }
        other => panic!("{other:?}"),
    }
    assert!(matches!(read_line("\"StartPairing\""), Line::Other));
    assert!(matches!(read_line("{\"PairingFailed\":\"x\"}"), Line::Other));
    assert!(matches!(read_line("no json"), Line::Other));
}

#[test]
fn the_status_line() {
    let mut t = TrayInfo::default();
    assert_eq!(t.status_text(), "Starting service…");
    t.set_ipc_connected(true);
    assert_eq!(t.status_text(), "Not connected to a peer");
    let line = "{\"SyncStatus\":{\"connected\":true,\"peer_name\":\"pc\"}}";
    assert_eq!(t.observe_line(line), TrayChange::Status);
    assert_eq!(t.status_text(), "Connected to pc");
    assert_eq!(t.observe(Line::Connection { connected: Some(true), peer_name: None }), TrayChange::Status);
    assert_eq!(t.status_text(), "Connected to peer");
    assert_eq!(t.observe(Line::Connection { connected: None, peer_name: None }), TrayChange::Status);
    assert_eq!(t.status_text(), "Not connected to a peer");
    t.set_ipc_connected(false);
    assert_eq!(t.status_text(), "Starting service…");
}

#[test]
fn the_menu() {
    let mut t = TrayInfo::default();
    assert!(matches!(t.on_menu_event("show", false), MenuAction::ShowWindow));
    assert!(matches!(t.on_menu_event("quit", false), MenuAction::Quit));
    assert!(matches!(t.on_menu_event("nothing", false), MenuAction::Nothing));
    assert!(matches!(t.on_menu_event("open_files", false), MenuAction::OpenFiles(None)));
    let line = "{\"VyloState\":{\"file_dir\":\"/f\"}}";
    assert_eq!(t.observe_line(line), TrayChange::Clipboard(true));
    assert!(matches!(t.on_menu_event("open_files", false), MenuAction::OpenFiles(Some(d)) if d == "/f"));
    // what is left out stays
    assert_eq!(
        t.observe(Line::Settings { clipboard_sync: Some(false), file_dir: None }),
        TrayChange::Clipboard(false)
    );
    assert!(matches!(t.on_menu_event("open_files", false), MenuAction::OpenFiles(Some(_))));
    assert_eq!(t.observe(Line::Other), TrayChange::Nothing);
    match t.on_menu_event("clipboard", true) {
        MenuAction::Request(r) => assert_eq!(r, clipboard_request(true)),
        other => panic!("{other:?}"),
    }
    assert_eq!(clipboard_request(false), "{\"SetClipboardSync\":false}");
}

#[test]
fn request_lines_end_once() {
    assert_eq!(request_line("x".to_string()), "x\n");
    assert_eq!(request_line("x\n".to_string()), "x\n");
    assert_eq!(request_line(String::new()), "\n");
}
