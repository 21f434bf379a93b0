//! What the desktop side does: languages, the tray, trust and pairing, one
//! situation at a time.

use crate::digest::{hmac_sha256, sha256};
use crate::keyboard::{
    calls_for_switch, iso_of, klid_of, lower, primary_part, serves, syncs_layouts, InputSource,
    KeyboardMonitor, Layout,
};
use crate::pairing::{
    ending, opt_bytes, passes, pin_of, spake_key, spake_message, worded, PairMove, PairSide,
    PairStage, PairStep, PairingError, Progressed, Side, Why,
};
use crate::proto::{Msg, SyncMessage};
use crate::text::{digit_char, worth};
use crate::tray::{
    ended, json_bool, json_has, json_text, said, Asked, Line, MenuAction, Said, Tray, TrayChange,
    TrayInfo,
};
use crate::trust::{admits, colon_hex, fingerprint, taken_in, Inbound, Purpose};
use vstd::prelude::*;
use vstd::string::*;
use vstd::utf8::encode_utf8;

verus! {

/* --------------------------------- keyboard --------------------------------- */

/// Each language that is known by its Windows id has its code, whatever its
/// variety; no other id has one.
pub proof fn language_ids_have_codes(langid: u16)
    ensures
        langid % 1024 == 0x09 ==> iso_of(langid & 0x3ff) == Some("en"@),
        langid % 1024 == 0x01 ==> iso_of(langid & 0x3ff) == Some("ar"@),
        langid % 1024 == 0x0c ==> iso_of(langid & 0x3ff) == Some("fr"@),
        langid % 1024 == 0x07 ==> iso_of(langid & 0x3ff) == Some("de"@),
        langid % 1024 == 0x0a ==> iso_of(langid & 0x3ff) == Some("es"@),
        langid % 1024 == 0x19 ==> iso_of(langid & 0x3ff) == Some("ru"@),
        langid % 1024 == 0x10 ==> iso_of(langid & 0x3ff) == Some("it"@),
        langid % 1024 == 0x16 ==> iso_of(langid & 0x3ff) == Some("pt"@),
        langid % 1024 == 0x1f ==> iso_of(langid & 0x3ff) == Some("tr"@),
        langid % 1024 == 0x0d ==> iso_of(langid & 0x3ff) == Some("he"@),
        langid % 1024 == 0x15 ==> iso_of(langid & 0x3ff) == Some("pl"@),
        langid % 1024 == 0x13 ==> iso_of(langid & 0x3ff) == Some("nl"@),
        langid % 1024 == 0x1d ==> iso_of(langid & 0x3ff) == Some("sv"@),
        langid % 1024 == 0x08 ==> iso_of(langid & 0x3ff) == Some("el"@),
        langid % 1024 == 0x04 ==> iso_of(langid & 0x3ff) == Some("zh"@),
        langid % 1024 == 0x11 ==> iso_of(langid & 0x3ff) == Some("ja"@),
        langid % 1024 == 0x12 ==> iso_of(langid & 0x3ff) == Some("ko"@),
        iso_of(langid & 0x3ff) is Some ==> langid % 1024 == 0x09
            || langid % 1024 == 0x01
            || langid % 1024 == 0x0c
            || langid % 1024 == 0x07
            || langid % 1024 == 0x0a
            || langid % 1024 == 0x19
            || langid % 1024 == 0x10
            || langid % 1024 == 0x16
            || langid % 1024 == 0x1f
            || langid % 1024 == 0x0d
            || langid % 1024 == 0x15
            || langid % 1024 == 0x13
            || langid % 1024 == 0x1d
            || langid % 1024 == 0x08
            || langid % 1024 == 0x04
            || langid % 1024 == 0x11
            || langid % 1024 == 0x12,
{
    assert(langid & 0x3ff == langid % 1024) by (bit_vector);
}

/// Each language that is known by its code has its Windows layout.
pub proof fn language_codes_have_layouts()
    ensures
        klid_of("en"@) == Some("00000409"@),
        klid_of("ar"@) == Some("00000401"@),
        klid_of("fr"@) == Some("0000040c"@),
        klid_of("de"@) == Some("00000407"@),
        klid_of("es"@) == Some("0000040a"@),
        klid_of("ru"@) == Some("00000419"@),
        klid_of("it"@) == Some("00000410"@),
        klid_of("pt"@) == Some("00000816"@),
        klid_of("tr"@) == Some("0000041f"@),
        klid_of("he"@) == Some("0000040d"@),
        klid_of("pl"@) == Some("00000415"@),
        klid_of("nl"@) == Some("00000413"@),
        klid_of("sv"@) == Some("0000041d"@),
        klid_of("el"@) == Some("00000408"@),
        klid_of("zh"@) == Some("00000804"@),
        klid_of("ja"@) == Some("00000411"@),
        klid_of("ko"@) == Some("00000412"@),
{
    reveal_strlit("en");
    reveal_strlit("ar");
    reveal_strlit("fr");
    reveal_strlit("de");
    reveal_strlit("es");
    reveal_strlit("ru");
    reveal_strlit("it");
    reveal_strlit("pt");
    reveal_strlit("tr");
    reveal_strlit("he");
    reveal_strlit("pl");
    reveal_strlit("nl");
    reveal_strlit("sv");
    reveal_strlit("el");
    reveal_strlit("zh");
    reveal_strlit("ja");
    reveal_strlit("ko");
    assert("en"@[0] == 'e' && "en"@[1] == 'n');
    assert("ar"@[0] == 'a' && "ar"@[1] == 'r');
    assert("fr"@[0] == 'f' && "fr"@[1] == 'r');
    assert("de"@[0] == 'd' && "de"@[1] == 'e');
    assert("es"@[0] == 'e' && "es"@[1] == 's');
    assert("ru"@[0] == 'r' && "ru"@[1] == 'u');
    assert("it"@[0] == 'i' && "it"@[1] == 't');
    assert("pt"@[0] == 'p' && "pt"@[1] == 't');
    assert("tr"@[0] == 't' && "tr"@[1] == 'r');
    assert("he"@[0] == 'h' && "he"@[1] == 'e');
    assert("pl"@[0] == 'p' && "pl"@[1] == 'l');
    assert("nl"@[0] == 'n' && "nl"@[1] == 'l');
    assert("sv"@[0] == 's' && "sv"@[1] == 'v');
    assert("el"@[0] == 'e' && "el"@[1] == 'l');
    assert("zh"@[0] == 'z' && "zh"@[1] == 'h');
    assert("ja"@[0] == 'j' && "ja"@[1] == 'a');
    assert("ko"@[0] == 'k' && "ko"@[1] == 'o');
}

/// The code of a language tag is what stands before the first `-` or `_`, in
/// lower case.
pub proof fn tags_are_cut_and_lowered(front: Seq<char>, rest: Seq<char>, k: int)
    requires
        forall|i: int| 0 <= i < front.len() ==> (#[trigger] front[i]) != '-' && front[i] != '_',
        rest.len() > 0 ==> rest[0] == '-' || rest[0] == '_',
        0 <= k < front.len(),
    ensures
        lower(primary_part(front + rest)).len() == front.len(),
        'A' <= front[k] <= 'Z' ==> lower(primary_part(front + rest))[k] as int == front[k] as int
            + 32,
        !('A' <= front[k] <= 'Z') ==> lower(primary_part(front + rest))[k] == front[k],
{
    primaries_end_at_the_mark(front, rest);
}

proof fn primaries_end_at_the_mark(front: Seq<char>, rest: Seq<char>)
    requires
        forall|i: int| 0 <= i < front.len() ==> (#[trigger] front[i]) != '-' && front[i] != '_',
        rest.len() > 0 ==> rest[0] == '-' || rest[0] == '_',
    ensures
        primary_part(front + rest) == front,
    decreases front.len(),
{
    let s = front + rest;
    if front.len() == 0 {
        assert(s =~= rest);
        assert(front =~= Seq::<char>::empty());
    } else {
        let less = front.drop_first();
        assert(front[0] != '-');
        assert(s.drop_first() =~= less + rest);
        assert forall|i: int| 0 <= i < less.len() implies (#[trigger] less[i]) != '-' && less[i]
            != '_' by {
            assert(less[i] == front[i + 1]);
        }
        primaries_end_at_the_mark(less, rest);
        assert(seq![front[0]] + less =~= front);
    }
}

/// A language that is new here is told; the one that was seen last, and any
/// while sync is off, is not; the one that was just applied is noted, once.
pub proof fn new_languages_are_told(l: Layout, lang: Seq<char>)
    ensures
        l.on_poll(false, Some(lang)) == (l, None::<Seq<char>>),
        l.on_poll(true, None) == (l, None::<Seq<char>>),
        l.last_seen == Some(lang) ==> l.on_poll(true, Some(lang)) == (l, None::<Seq<char>>),
        l.last_seen != Some(lang) && l.last_applied == Some(lang) ==> l.on_poll(true, Some(lang))
            == (Layout { last_seen: Some(lang), last_applied: None }, None::<Seq<char>>),
        l.last_seen != Some(lang) && l.last_applied != Some(lang) ==> l.on_poll(true, Some(lang))
            == (Layout { last_seen: Some(lang), last_applied: l.last_applied }, Some(lang)),
{
}

/// A switch that was made is noted, with what is seen after it; one that was
/// not made changes nothing.
pub proof fn switches_are_noted(l: Layout, lang: Seq<char>, current: Seq<char>)
    ensures
        l.on_switched(lang, false, Some(current)) == l,
        l.on_switched(lang, false, None) == l,
        l.on_switched(lang, true, Some(current)) == (Layout {
            last_seen: Some(current),
            last_applied: Some(lang),
        }),
        l.on_switched(lang, true, None) == (Layout {
            last_seen: Some(lang),
            last_applied: Some(lang),
        }),
{
}

/* ----------------------------------- tray ----------------------------------- */

/// A line is read by the key it has: settings, or the connection.
pub proof fn lines_are_read_by_their_key(line: Seq<char>)
    ensures
        json_has(line, "VyloState"@) ==> said(line) == (Said::Settings {
            clipboard_sync: json_bool(line, "VyloState"@, "clipboard_sync"@),
            file_dir: json_text(line, "VyloState"@, "file_dir"@),
        }),
        !json_has(line, "VyloState"@) && json_has(line, "SyncStatus"@) ==> said(line) == (
        Said::Connection {
            connected: json_bool(line, "SyncStatus"@, "connected"@),
            peer_name: json_text(line, "SyncStatus"@, "peer_name"@),
        }),
        !json_has(line, "VyloState"@) && !json_has(line, "SyncStatus"@) ==> said(line)
            == Said::Other,
{
}

/// The tray follows what it is told.
pub proof fn the_tray_follows(
    t: Tray,
    on: bool,
    dir: Seq<char>,
    sync: Option<bool>,
    peer: Option<Seq<char>>,
)
    ensures
        t.on_said(Said::Settings { clipboard_sync: Some(on), file_dir: Some(dir) }) == (
            Tray { file_dir: Some(dir), ..t },
            TrayChange::Clipboard(on),
        ),
        t.on_said(Said::Settings { clipboard_sync: sync, file_dir: None }).0 == t,
        t.on_said(Said::Settings { clipboard_sync: None, file_dir: None }).1
            == TrayChange::Clipboard(true),
        t.on_said(Said::Connection { connected: Some(on), peer_name: peer }) == (
            Tray { sync_connected: on, peer_name: peer, ..t },
            TrayChange::Status,
        ),
        t.on_said(Said::Connection { connected: None, peer_name: peer }) == (
            Tray { sync_connected: false, peer_name: peer, ..t },
            TrayChange::Status,
        ),
        t.on_said(Said::Other) == (t, TrayChange::Nothing),
{
}

/// The status line says whether the service is up, and to whom it is
/// connected.
pub proof fn the_status_says_how_it_is(t: Tray)
    ensures
        !t.ipc_up ==> t.status() == "Starting service…"@,
        t.ipc_up && !t.sync_connected ==> t.status() == "Not connected to a peer"@,
        t.ipc_up && t.sync_connected && t.peer_name is Some ==> t.status() == "Connected to "@
            + t.peer_name->0,
        t.ipc_up && t.sync_connected && t.peer_name is None ==> t.status() == "Connected to "@
            + "peer"@,
{
}

/// Each menu item asks for what it says.
pub proof fn menu_items_ask_for_what_they_say(t: Tray, id: Seq<char>, checked: bool)
    ensures
        t.on_menu("show"@, checked) == Asked::ShowWindow,
        t.on_menu("clipboard"@, true) == Asked::Request("{\"SetClipboardSync\":true}"@),
        t.on_menu("clipboard"@, false) == Asked::Request("{\"SetClipboardSync\":false}"@),
        t.on_menu("open_files"@, checked) == Asked::OpenFiles(t.file_dir),
        t.on_menu("quit"@, checked) == Asked::Quit,
        id != "show"@ && id != "clipboard"@ && id != "open_files"@ && id != "quit"@ ==> t.on_menu(
            id,
            checked,
        ) == Asked::Nothing,
{
    reveal_strlit("show");
    reveal_strlit("clipboard");
    reveal_strlit("open_files");
    reveal_strlit("quit");
    assert("show"@[0] == 's' && "clipboard"@[0] == 'c' && "open_files"@[0] == 'o' && "quit"@[0]
        == 'q');
}

/// A line ends in one newline.
pub proof fn lines_end_in_a_newline(msg: Seq<char>)
    ensures
        msg.len() > 0 && msg.last() == '\n' ==> ended(msg) == msg,
        msg.len() == 0 || msg.last() != '\n' ==> ended(msg) == msg + seq!['\n'],
{
    assert(msg + seq!['\n'] =~= msg.push('\n'));
}

/* ----------------------------------- trust ----------------------------------- */

/// The number that a lower-case hexadecimal digit stands for, or none.
pub open spec fn hex_worth(c: char) -> int {
    if '0' <= c <= '9' {
        c as int - 48
    } else if 'a' <= c <= 'f' {
        c as int - 87
    } else {
        -1
    }
}

/// A fingerprint is the sha256 of the certificate: for each byte two digits,
/// with a colon between one byte and the next.
pub proof fn fingerprints_spell_the_digest(cert: Seq<u8>, b: Seq<u8>, k: int)
    requires
        0 <= k < b.len(),
    ensures
        fingerprint(cert) == colon_hex(sha256(cert)),
        colon_hex(b).len() == 3 * b.len() - 1,
        hex_worth(colon_hex(b)[3 * k]) >= 0,
        hex_worth(colon_hex(b)[3 * k + 1]) >= 0,
        hex_worth(colon_hex(b)[3 * k]) * 16 + hex_worth(colon_hex(b)[3 * k + 1]) == b[k],
        k + 1 < b.len() ==> colon_hex(b)[3 * k + 2] == ':',
    decreases b.len(),
{
    if b.len() == 1 {
        assert(b.last() == b[0]);
    } else {
        let front = b.drop_last();
        if k < front.len() {
            fingerprints_spell_the_digest(cert, front, k);
            assert(front[k] == b[k]);
        } else {
            fingerprints_spell_the_digest(cert, front, 0);
            assert(b.last() == b[k]);
        }
        let head = colon_hex(front);
        let all = colon_hex(b);
        assert(head.len() == 3 * front.len() - 1);
        assert(all[head.len() as int] == ':');
        if k < front.len() {
            assert(all[3 * k] == head[3 * k]);
            assert(all[3 * k + 1] == head[3 * k + 1]);
            if k + 1 < front.len() {
                assert(all[3 * k + 2] == head[3 * k + 2]);
            }
        }
    }
}

/// A peer is let in if it is pinned; while a window is open also if it is
/// not, unless this machine dials it for something else than pairing.
pub proof fn peers_are_let_in(pinned: Seq<Seq<char>>, open: bool, fp: Seq<char>)
    ensures
        pinned.contains(fp) ==> admits(pinned, open, Purpose::Dial, fp) && admits(
            pinned,
            open,
            Purpose::PairDial,
            fp,
        ) && admits(pinned, open, Purpose::Accept, fp),
        !pinned.contains(fp) ==> {
            &&& !admits(pinned, open, Purpose::Dial, fp)
            &&& admits(pinned, open, Purpose::PairDial, fp) == open
            &&& admits(pinned, open, Purpose::Accept, fp) == open
        },
{
}

/// A pinned peer is served, window or not; another one may pair while a
/// window is open, and is dropped otherwise.
pub proof fn connections_are_taken_in(open: bool)
    ensures
        taken_in(true, open) == Inbound::Serve,
        taken_in(false, true) == Inbound::Pair,
        taken_in(false, false) == Inbound::Drop,
{
}

/// A language calls for a switch unless it is the current one; layouts are
/// synced in a GUI host, and elsewhere where no main thread is needed.
pub proof fn switches_are_called_for(lang: Seq<char>, current: Seq<char>)
    ensures
        calls_for_switch(None, lang),
        !calls_for_switch(Some(lang), lang),
        current != lang ==> calls_for_switch(Some(current), lang),
        syncs_layouts(true, true),
        syncs_layouts(true, false),
        syncs_layouts(false, false),
        !syncs_layouts(false, true),
{
}

/* ---------------------------------- pairing ---------------------------------- */

/// The PIN of a number is that number, in six digits.
pub proof fn pins_are_their_number(n: int)
    requires
        0 <= n < 1_000_000,
    ensures
        pin_of(n).len() == 6,
        worth(pin_of(n)) == n,
        crate::pairing::PINS == 1_000_000,
{
    let d0 = n / 100_000 % 10;
    let d1 = n / 10_000 % 10;
    let d2 = n / 1000 % 10;
    let d3 = n / 100 % 10;
    let d4 = n / 10 % 10;
    let d5 = n % 10;
    let a = Seq::<char>::empty().push(digit_char(d0));
    let b = a.push(digit_char(d1));
    let c = b.push(digit_char(d2));
    let d = c.push(digit_char(d3));
    let e = d.push(digit_char(d4));
    one_more_digit(Seq::empty(), d0);
    one_more_digit(a, d1);
    one_more_digit(b, d2);
    one_more_digit(c, d3);
    one_more_digit(d, d4);
    one_more_digit(e, d5);
    assert(pin_of(n) =~= e.push(digit_char(d5)));
    six_digits_make_up(n);
}

proof fn one_more_digit(s: Seq<char>, d: int)
    requires
        0 <= d < 10,
    ensures
        worth(s.push(digit_char(d))) == worth(s) * 10 + d,
{
    assert(s.push(digit_char(d)).drop_last() =~= s);
}

proof fn six_digits_make_up(n: int)
    requires
        0 <= n < 1_000_000,
    ensures
        n == ((((n / 100_000 % 10 * 10 + n / 10_000 % 10) * 10 + n / 1000 % 10) * 10 + n / 100 % 10)
            * 10 + n / 10 % 10) * 10 + n % 10,
{
    assert(n / 100_000 % 10 == n / 100_000);
    assert(n / 10_000 == n / 100_000 * 10 + n / 10_000 % 10);
    assert(n / 1000 == n / 10_000 * 10 + n / 1000 % 10);
    assert(n / 100 == n / 1000 * 10 + n / 100 % 10);
    assert(n / 10 == n / 100 * 10 + n / 10 % 10);
    assert(n == n / 10 * 10 + n % 10);
}

/// A proof is the HMAC, under the key, of a label and the session: one label
/// for each side.
pub proof fn proofs_are_bound_to_side_and_session(s: Side, key: Seq<u8>, name: Seq<char>)
    requires
        s.stage == (Progressed::Proving { key, peer_name: name }),
    ensures
        s.answerer_judged(true).1.send == Some(
            Msg::PairConfirmB {
                mac: hmac_sha256(key, encode_utf8("vylo pairing confirm B"@) + s.exporter),
            },
        ),
        s.at_stage(Progressed::Greeting).dialer_keyed(Some(key), name).1.send == Some(
            Msg::PairConfirmA {
                mac: hmac_sha256(key, encode_utf8("vylo pairing confirm A"@) + s.exporter),
            },
        ),
{
}

/// Equal proofs pass, and proofs pass just where HMACs keyed with them are
/// equal.
pub proof fn equal_proofs_pass(a: Seq<u8>, b: Seq<u8>)
    ensures
        passes(a, a),
        passes(a, b) <==> hmac_sha256(a, encode_utf8("eq"@)) == hmac_sha256(b, encode_utf8("eq"@)),
{
}

/// A side opens with its PIN and its own randomness, and makes its key of the
/// other side's message with the same.
pub proof fn sides_use_their_own_pin(s: Side, msg: Seq<u8>)
    ensures
        s.opening() == spake_message(
            encode_utf8(s.pin),
            encode_utf8("vylo-mouse-share pairing"@),
            s.seed,
        ),
        s.key_from(msg) == spake_key(
            encode_utf8(s.pin),
            encode_utf8("vylo-mouse-share pairing"@),
            s.seed,
            msg,
        ),
{
}

/// The dialing side makes a key of the answer and proves it; then it takes the
/// other side's proof, and has paired with whoever answered.
pub proof fn the_dialing_side_goes_on(
    s: Side,
    spake_msg: Seq<u8>,
    name: Seq<char>,
    key: Seq<u8>,
    mac: Seq<u8>,
    other: Msg,
)
    ensures
        s.stage is Greeting && s.key_from(spake_msg) == Some(key) ==> s.dialer_on(
            Msg::PairResponse { spake_msg, name },
        ) == (
            Side { stage: Progressed::Proving { key, peer_name: name }, ..s },
            PairMove {
                send: Some(
                    Msg::PairConfirmA {
                        mac: hmac_sha256(key, encode_utf8("vylo pairing confirm A"@) + s.exporter),
                    },
                ),
                outcome: None,
            },
        ),
        s.stage is Greeting && s.key_from(spake_msg) is None ==> s.dialer_on(
            Msg::PairResponse { spake_msg, name },
        ) == (
            Side { stage: Progressed::Over, ..s },
            PairMove { send: None, outcome: Some(Err(Why::WrongPin)) },
        ),
        s.stage is Greeting && !(other is PairResponse) ==> s.dialer_on(other) == (
            Side { stage: Progressed::Over, ..s },
            PairMove { send: None, outcome: Some(Err(Why::UnexpectedMessage)) },
        ),
        s.stage == (Progressed::Proving { key, peer_name: name }) ==> s.dialer_on(
            Msg::PairConfirmB { mac },
        ) == (
            Side { stage: Progressed::Over, ..s },
            PairMove {
                send: None,
                outcome: Some(
                    if passes(
                        hmac_sha256(key, encode_utf8("vylo pairing confirm B"@) + s.exporter),
                        mac,
                    ) {
                        Ok(name)
                    } else {
                        Err(Why::WrongPin)
                    },
                ),
            },
        ),
        s.stage is Proving && !(other is PairConfirmB) ==> s.dialer_on(other) == (
            Side { stage: Progressed::Over, ..s },
            PairMove { send: None, outcome: Some(Err(Why::PeerRejected)) },
        ),
{
}

/// The answering side answers with its own message and name, and makes a key
/// of the other side's; then it takes the other side's proof, answers with
/// its own, and has paired with whoever dialed.
pub proof fn the_answering_side_goes_on(
    s: Side,
    spake_msg: Seq<u8>,
    name: Seq<char>,
    key: Seq<u8>,
    mac: Seq<u8>,
    other: Msg,
)
    ensures
        s.stage is Greeting && s.key_from(spake_msg) == Some(key) ==> s.answerer_on(
            Msg::PairStart { spake_msg, name },
        ) == (
            Side { stage: Progressed::Proving { key, peer_name: name }, ..s },
            PairMove {
                send: Some(
                    Msg::PairResponse { spake_msg: s.opening(), name: s.device_name },
                ),
                outcome: None,
            },
        ),
        s.stage is Greeting && s.key_from(spake_msg) is None ==> s.answerer_on(
            Msg::PairStart { spake_msg, name },
        ) == (
            Side { stage: Progressed::Over, ..s },
            PairMove {
                send: Some(
                    Msg::PairResponse { spake_msg: s.opening(), name: s.device_name },
                ),
                outcome: Some(Err(Why::WrongPin)),
            },
        ),
        s.stage is Greeting && !(other is PairStart) ==> s.answerer_on(other) == (
            Side { stage: Progressed::Over, ..s },
            PairMove { send: None, outcome: Some(Err(Why::UnexpectedMessage)) },
        ),
        s.stage == (Progressed::Proving { key, peer_name: name }) ==> {
            let good = passes(
                hmac_sha256(key, encode_utf8("vylo pairing confirm A"@) + s.exporter),
                mac,
            );
            &&& good ==> s.answerer_on(Msg::PairConfirmA { mac }) == (
                Side { stage: Progressed::Over, ..s },
                PairMove {
                    send: Some(
                        Msg::PairConfirmB {
                            mac: hmac_sha256(
                                key,
                                encode_utf8("vylo pairing confirm B"@) + s.exporter,
                            ),
                        },
                    ),
                    outcome: Some(Ok(name)),
                },
            )
            &&& !good ==> s.answerer_on(Msg::PairConfirmA { mac }) == (
                Side { stage: Progressed::Over, ..s },
                PairMove { send: None, outcome: Some(Err(Why::WrongPin)) },
            )
        },
        s.stage is Proving && !(other is PairConfirmA) ==> s.answerer_on(other) == (
            Side { stage: Progressed::Over, ..s },
            PairMove { send: None, outcome: Some(Err(Why::UnexpectedMessage)) },
        ),
{
}

/// How an exchange ends for both sides, by the keys they make and the proofs
/// they find: each learns the name of the other, or why not.
pub proof fn exchanges_end_alike(a: Side, b: Side, ka: Seq<u8>, kb: Seq<u8>)
    ensures
        a.key_from(b.opening()) is None && b.key_from(a.opening()) is None ==> a.dialed(b) == Err::<
            Seq<char>,
            Why,
        >(Why::WrongPin) && b.answered(a) == Err::<Seq<char>, Why>(Why::WrongPin),
        a.key_from(b.opening()) is None && b.key_from(a.opening()) is Some ==> a.dialed(b) == Err::<
            Seq<char>,
            Why,
        >(Why::WrongPin) && b.answered(a) == Err::<Seq<char>, Why>(
            Why::Proto("connection closed"@),
        ),
        a.key_from(b.opening()) is Some && b.key_from(a.opening()) is None ==> a.dialed(b) == Err::<
            Seq<char>,
            Why,
        >(Why::Proto("connection closed"@)) && b.answered(a) == Err::<Seq<char>, Why>(
            Why::WrongPin,
        ),
        a.key_from(b.opening()) == Some(ka) && b.key_from(a.opening()) == Some(kb) ==> {
            let found = passes(
                hmac_sha256(kb, encode_utf8("vylo pairing confirm A"@) + b.exporter),
                hmac_sha256(ka, encode_utf8("vylo pairing confirm A"@) + a.exporter),
            );
            let returned = passes(
                hmac_sha256(ka, encode_utf8("vylo pairing confirm B"@) + a.exporter),
                hmac_sha256(kb, encode_utf8("vylo pairing confirm B"@) + b.exporter),
            );
            &&& found ==> b.answered(a) == Ok::<Seq<char>, Why>(a.device_name)
            &&& !found ==> b.answered(a) == Err::<Seq<char>, Why>(Why::WrongPin)
            &&& !found ==> a.dialed(b) == Err::<Seq<char>, Why>(Why::Proto("connection closed"@))
            &&& found && returned ==> a.dialed(b) == Ok::<Seq<char>, Why>(b.device_name)
            &&& found && !returned ==> a.dialed(b) == Err::<Seq<char>, Why>(Why::WrongPin)
        },
{
}

/// Failures are worded.
pub proof fn pairing_failures_are_worded(e: Seq<char>)
    ensures
        worded(Why::Proto(e)) == "connection error during pairing: "@ + e,
        worded(Why::UnexpectedMessage) == "peer sent an unexpected message"@,
        worded(Why::WrongPin) == "wrong PIN"@,
        worded(Why::PeerRejected) == "pairing rejected by peer (wrong PIN?)"@,
{
}

/// A side that has its key, or none, and one that has checked a proof, goes on
/// as it should.
pub proof fn sides_go_on_from_what_they_have(s: Side, key: Seq<u8>, name: Seq<char>)
    ensures
        s.dialer_keyed(None, name) == (
            Side { stage: Progressed::Over, ..s },
            PairMove { send: None, outcome: Some(Err(Why::WrongPin)) },
        ),
        s.dialer_keyed(Some(key), name) == (
            Side { stage: Progressed::Proving { key, peer_name: name }, ..s },
            PairMove {
                send: Some(
                    Msg::PairConfirmA {
                        mac: hmac_sha256(key, encode_utf8("vylo pairing confirm A"@) + s.exporter),
                    },
                ),
                outcome: None,
            },
        ),
        s.answerer_keyed(None, name) == (
            Side { stage: Progressed::Over, ..s },
            PairMove {
                send: Some(
                    Msg::PairResponse { spake_msg: s.opening(), name: s.device_name },
                ),
                outcome: Some(Err(Why::WrongPin)),
            },
        ),
        s.answerer_keyed(Some(key), name) == (
            Side { stage: Progressed::Proving { key, peer_name: name }, ..s },
            PairMove {
                send: Some(
                    Msg::PairResponse { spake_msg: s.opening(), name: s.device_name },
                ),
                outcome: None,
            },
        ),
        s.stage == (Progressed::Proving { key, peer_name: name }) ==> {
            &&& s.dialer_judged(true) == (
                Side { stage: Progressed::Over, ..s },
                PairMove { send: None, outcome: Some(Ok(name)) },
            )
            &&& s.dialer_judged(false) == (
                Side { stage: Progressed::Over, ..s },
                PairMove { send: None, outcome: Some(Err(Why::WrongPin)) },
            )
            &&& s.answerer_judged(true) == (
                Side { stage: Progressed::Over, ..s },
                PairMove {
                    send: Some(
                        Msg::PairConfirmB {
                            mac: hmac_sha256(
                                key,
                                encode_utf8("vylo pairing confirm B"@) + s.exporter,
                            ),
                        },
                    ),
                    outcome: Some(Ok(name)),
                },
            )
            &&& s.answerer_judged(false) == (
                Side { stage: Progressed::Over, ..s },
                PairMove { send: None, outcome: Some(Err(Why::WrongPin)) },
            )
        },
{
}

/// After an exchange a side is over, unless it still waits for one that has
/// ended: it then has its key, and knows the other's name.
pub proof fn exchanges_leave_the_sides(a: Side, b: Side, ka: Seq<u8>, kb: Seq<u8>)
    ensures
        a.key_from(b.opening()) is None ==> a.dialed_to(b) is Over,
        a.key_from(b.opening()) == Some(ka) && b.answered(a) is Ok ==> a.dialed_to(b) is Over,
        a.key_from(b.opening()) == Some(ka) && b.answered(a) is Err ==> a.dialed_to(b) == (
        Progressed::Proving { key: ka, peer_name: b.device_name }),
        b.key_from(a.opening()) is None ==> b.answered_to(a) is Over,
        b.key_from(a.opening()) == Some(kb) && a.key_from(b.opening()) is Some ==> b.answered_to(a)
            is Over,
        b.key_from(a.opening()) == Some(kb) && a.key_from(b.opening()) is None ==> b.answered_to(a)
            == (Progressed::Proving { key: kb, peer_name: a.device_name }),
{
}

/// An input source serves a language just where it can be selected and its
/// tag is of that language.
pub proof fn sources_serve_their_language(s: InputSource, want: Seq<char>)
    ensures
        s.selectable && s.tag is Some && lower(primary_part(s.tag->0@)) == want ==> serves(s, want),
        !s.selectable || s.tag is None || lower(primary_part(s.tag->0@)) != want ==> !serves(
            s,
            want,
        ),
{
}

/// How a pairing ended is what is held of it.
pub proof fn endings_say_what_they_hold(key: Vec<u8>, a: String, e: PairingError)
    ensures
        ending(Ok(a)) == Ok::<Seq<char>, Why>(a@),
        ending(Err(e)) == Err::<Seq<char>, Why>(e@),
        opt_bytes(Some(key)) == Some(key@),
        opt_bytes(None) is None,
{
}

/* ----------------------------------- views ----------------------------------- */

/// What is known on the desktop side is what is held.
pub proof fn the_desktop_says_what_it_holds(
    k: KeyboardMonitor,
    t: TrayInfo,
    a: String,
    b: String,
    on: Option<bool>,
)
    ensures
        k@.last_seen is Some <==> k.last_seen is Some,
        k.last_seen is Some ==> k@.last_seen->0 == k.last_seen->0@,
        k@.last_applied is Some <==> k.last_applied is Some,
        k.last_applied is Some ==> k@.last_applied->0 == k.last_applied->0@,
        t@.ipc_up == t.ipc_up,
        t@.sync_connected == t.sync_connected,
        t@.peer_name is Some <==> t.peer_name is Some,
        t.peer_name is Some ==> t@.peer_name->0 == t.peer_name->0@,
        t@.file_dir is Some <==> t.file_dir is Some,
        t.file_dir is Some ==> t@.file_dir->0 == t.file_dir->0@,
        (Line::Settings { clipboard_sync: on, file_dir: Some(a) })@ == (Said::Settings {
            clipboard_sync: on,
            file_dir: Some(a@),
        }),
        (Line::Settings { clipboard_sync: on, file_dir: None })@ == (Said::Settings {
            clipboard_sync: on,
            file_dir: None,
        }),
        (Line::Connection { connected: on, peer_name: Some(a) })@ == (Said::Connection {
            connected: on,
            peer_name: Some(a@),
        }),
        (Line::Connection { connected: on, peer_name: None })@ == (Said::Connection {
            connected: on,
            peer_name: None,
        }),
        Line::Other@ == Said::Other,
        MenuAction::ShowWindow@ == Asked::ShowWindow,
        MenuAction::Request(a)@ == Asked::Request(a@),
        MenuAction::OpenFiles(Some(b))@ == Asked::OpenFiles(Some(b@)),
        MenuAction::OpenFiles(None)@ == Asked::OpenFiles(None),
        MenuAction::Quit@ == Asked::Quit,
        MenuAction::Nothing@ == Asked::Nothing,
{
}

/// What is known of a side of a pairing is what is held of it.
pub proof fn sides_say_what_they_hold(
    s: PairSide,
    key: Vec<u8>,
    a: String,
    msg: SyncMessage,
    e: PairingError,
)
    ensures
        s@ == (Side {
            pin: s.pin@,
            device_name: s.device_name@,
            exporter: s.exporter@,
            seed: s.seed@,
            stage: s.stage@,
        }),
        PairStage::Greeting@ == Progressed::Greeting,
        (PairStage::Proving { key, peer_name: a })@ == (Progressed::Proving {
            key: key@,
            peer_name: a@,
        }),
        PairStage::Over@ == Progressed::Over,
        PairingError::Proto(a)@ == Why::Proto(a@),
        PairingError::UnexpectedMessage@ == Why::UnexpectedMessage,
        PairingError::WrongPin@ == Why::WrongPin,
        PairingError::PeerRejected@ == Why::PeerRejected,
        (PairStep { send: Some(msg), outcome: Some(Ok(a)) })@ == (PairMove {
            send: Some(msg@),
            outcome: Some(Ok(a@)),
        }),
        (PairStep { send: None, outcome: Some(Err(e)) })@ == (PairMove {
            send: None,
            outcome: Some(Err(e@)),
        }),
        (PairStep { send: Some(msg), outcome: None })@ == (PairMove {
            send: Some(msg@),
            outcome: None,
        }),
{
}

} // verus!
