//! Keyboard input-language monitoring and application.
//!
//! Physical key positions are forwarded, so the characters produced when
//! typing onto the peer depend on the peer's active keyboard language. The
//! two machines' input languages are kept in sync: when the local one
//! changes the new language is sent to the peer, which switches to the
//! matching layout. Languages are normalized to ISO 639-1 codes (`en`,
//! `ar`, `fr`, ...) so input-source ids and layout ids of different systems
//! map to a common wire value.
//!
//! Echo prevention: the language most recently applied from the peer is
//! remembered; when a poll observes that same language it is absorbed
//! rather than broadcast back, so no layout ping-pong can form.

use crate::ipc::opt_text;
use crate::text::{from_chars, is_text, same_text, to_chars};
use vstd::prelude::*;
use vstd::string::*;

verus! {

/* ------------------------------ the GUI host ------------------------------ */

/// Whether this process runs a serviced main dispatch queue.
pub struct GuiHost {
    pub present: bool,
}

impl GuiHost {
    pub fn new() -> (r: GuiHost)
        ensures
            !r.present,
    {
        GuiHost { present: false }
    }

    /// Whether layout sync does anything: where the system's input-source
    /// calls must be made on the main thread, only in a GUI host.
    pub fn allows_layout_sync(&self, main_thread_only: bool) -> (r: bool)
        ensures
            r == (self.present || !main_thread_only),
            r == syncs_layouts(self.present, main_thread_only),
    {
        self.present || !main_thread_only
    }
}

/// Signal that this process runs a serviced main dispatch queue (a GUI
/// host). Required before macOS keyboard-layout sync will do anything,
/// because the macOS Text Input Source APIs must be called on the main
/// thread. Call once at startup from the GUI host.
pub fn set_gui_host(host: &mut GuiHost)
    ensures
        final(host).present,
{
    host.present = true;
}

/// Whether layouts are synced: in a GUI host, or where the calls for it may
/// be made on any thread.
pub open spec fn syncs_layouts(gui_host: bool, main_thread_only: bool) -> bool {
    gui_host || !main_thread_only
}

/* --------------------------------- codes --------------------------------- */

/// Whether a character ends the primary part of a language tag.
pub open spec fn ends_primary(c: char) -> bool {
    c == '-' || c == '_'
}

/// The part of a language tag before the first `-` or `_`.
pub open spec fn primary_part(s: Seq<char>) -> Seq<char>
    decreases s.len(),
{
    if s.len() == 0 || ends_primary(s[0]) {
        Seq::empty()
    } else {
        seq![s[0]] + primary_part(s.drop_first())
    }
}

/// A letter of the basic alphabet in lower case, anything else as it is.
pub open spec fn lower_char(c: char) -> char {
    if 'A' <= c <= 'Z' {
        (c as u32 + 32) as char
    } else {
        c
    }
}

/// A text in lower case, as far as the basic alphabet goes.
pub open spec fn lower(s: Seq<char>) -> Seq<char> {
    s.map_values(|c: char| lower_char(c))
}

fn lower_of(c: char) -> (r: char)
    ensures
        r == lower_char(c),
{
    if c >= 'A' && c <= 'Z' {
        (c as u8 + 32) as char
    } else {
        c
    }
}

/// `en-US`, `zh-Hans` -> `en`, `zh`
pub fn primary_code(tag: &str) -> (r: String)
    ensures
        r@ == lower(primary_part(tag@)),
{
    let chars = to_chars(tag);
    let mut out: Vec<char> = Vec::new();
    let mut i: usize = 0;
    let ghost all = tag@;
    assert(all.skip(0) =~= all);
    assert(Seq::<char>::empty() + lower(primary_part(all)) =~= lower(primary_part(all)));
    while i < chars.len() && chars[i] != '-' && chars[i] != '_'
        invariant
            i <= chars@.len(),
            chars@ == all,
            lower(primary_part(all)) == out@ + lower(primary_part(all.skip(i as int))),
        decreases chars@.len() - i,
    {
        let ghost rest = all.skip(i as int);
        let c = lower_of(chars[i]);
        proof {
            assert(rest[0] == all[i as int]);
            assert(rest.drop_first() =~= all.skip(i + 1));
            assert(lower(primary_part(rest)) =~= seq![c] + lower(
                primary_part(all.skip(i + 1)),
            ));
            assert(out@ + lower(primary_part(rest)) =~= out@.push(c) + lower(
                primary_part(all.skip(i + 1)),
            ));
        }
        out.push(c);
        i = i + 1;
    }
    proof {
        let rest = all.skip(i as int);
        if i < all.len() {
            assert(rest[0] == all[i as int]);
        }
        assert(primary_part(rest) =~= Seq::<char>::empty());
        assert(out@ + lower(primary_part(rest)) =~= out@);
    }
    let r = from_chars(&out, 0, out.len());
    assert(r@ =~= out@);
    r
}

/// The ISO 639-1 code of a primary Windows language id.
pub open spec fn iso_of(primary: u16) -> Option<Seq<char>> {
    if primary == 0x09 {
        Some("en"@)
    } else if primary == 0x01 {
        Some("ar"@)
    } else if primary == 0x0c {
        Some("fr"@)
    } else if primary == 0x07 {
        Some("de"@)
    } else if primary == 0x0a {
        Some("es"@)
    } else if primary == 0x19 {
        Some("ru"@)
    } else if primary == 0x10 {
        Some("it"@)
    } else if primary == 0x16 {
        Some("pt"@)
    } else if primary == 0x1f {
        Some("tr"@)
    } else if primary == 0x0d {
        Some("he"@)
    } else if primary == 0x15 {
        Some("pl"@)
    } else if primary == 0x13 {
        Some("nl"@)
    } else if primary == 0x1d {
        Some("sv"@)
    } else if primary == 0x08 {
        Some("el"@)
    } else if primary == 0x04 {
        Some("zh"@)
    } else if primary == 0x11 {
        Some("ja"@)
    } else if primary == 0x12 {
        Some("ko"@)
    } else {
        None
    }
}

/// The Windows layout of an ISO 639-1 code, in its default variety.
pub open spec fn klid_of(iso: Seq<char>) -> Option<Seq<char>> {
    if iso == "en"@ {
        Some("00000409"@)
    } else if iso == "ar"@ {
        Some("00000401"@)
    } else if iso == "fr"@ {
        Some("0000040c"@)
    } else if iso == "de"@ {
        Some("00000407"@)
    } else if iso == "es"@ {
        Some("0000040a"@)
    } else if iso == "ru"@ {
        Some("00000419"@)
    } else if iso == "it"@ {
        Some("00000410"@)
    } else if iso == "pt"@ {
        Some("00000816"@)
    } else if iso == "tr"@ {
        Some("0000041f"@)
    } else if iso == "he"@ {
        Some("0000040d"@)
    } else if iso == "pl"@ {
        Some("00000415"@)
    } else if iso == "nl"@ {
        Some("00000413"@)
    } else if iso == "sv"@ {
        Some("0000041d"@)
    } else if iso == "el"@ {
        Some("00000408"@)
    } else if iso == "zh"@ {
        Some("00000804"@)
    } else if iso == "ja"@ {
        Some("00000411"@)
    } else if iso == "ko"@ {
        Some("00000412"@)
    } else {
        None
    }
}

/// Language id -> ISO 639-1
pub fn langid_to_iso(langid: u16) -> (r: Option<String>)
    ensures
        opt_text(r) == iso_of(langid & 0x3ff),
{
    let primary: u16 = langid & 0x3ff;
    if primary == 0x09 {
        Some("en".to_owned())
    } else if primary == 0x01 {
        Some("ar".to_owned())
    } else if primary == 0x0c {
        Some("fr".to_owned())
    } else if primary == 0x07 {
        Some("de".to_owned())
    } else if primary == 0x0a {
        Some("es".to_owned())
    } else if primary == 0x19 {
        Some("ru".to_owned())
    } else if primary == 0x10 {
        Some("it".to_owned())
    } else if primary == 0x16 {
        Some("pt".to_owned())
    } else if primary == 0x1f {
        Some("tr".to_owned())
    } else if primary == 0x0d {
        Some("he".to_owned())
    } else if primary == 0x15 {
        Some("pl".to_owned())
    } else if primary == 0x13 {
        Some("nl".to_owned())
    } else if primary == 0x1d {
        Some("sv".to_owned())
    } else if primary == 0x08 {
        Some("el".to_owned())
    } else if primary == 0x04 {
        Some("zh".to_owned())
    } else if primary == 0x11 {
        Some("ja".to_owned())
    } else if primary == 0x12 {
        Some("ko".to_owned())
    } else {
        None
    }
}

/// ISO 639-1 -> a layout string of the default variety (e.g. "00000409")
pub fn iso_to_klid(iso: &str) -> (r: Option<String>)
    ensures
        opt_text(r) == klid_of(iso@),
{
    if same_text(iso, "en") {
        Some("00000409".to_owned())
    } else if same_text(iso, "ar") {
        Some("00000401".to_owned())
    } else if same_text(iso, "fr") {
        Some("0000040c".to_owned())
    } else if same_text(iso, "de") {
        Some("00000407".to_owned())
    } else if same_text(iso, "es") {
        Some("0000040a".to_owned())
    } else if same_text(iso, "ru") {
        Some("00000419".to_owned())
    } else if same_text(iso, "it") {
        Some("00000410".to_owned())
    } else if same_text(iso, "pt") {
        Some("00000816".to_owned())
    } else if same_text(iso, "tr") {
        Some("0000041f".to_owned())
    } else if same_text(iso, "he") {
        Some("0000040d".to_owned())
    } else if same_text(iso, "pl") {
        Some("00000415".to_owned())
    } else if same_text(iso, "nl") {
        Some("00000413".to_owned())
    } else if same_text(iso, "sv") {
        Some("0000041d".to_owned())
    } else if same_text(iso, "el") {
        Some("00000408".to_owned())
    } else if same_text(iso, "zh") {
        Some("00000804".to_owned())
    } else if same_text(iso, "ja") {
        Some("00000411".to_owned())
    } else if same_text(iso, "ko") {
        Some("00000412".to_owned())
    } else {
        None
    }
}

/// The language of a Windows layout handle's low word; none where it is
/// zero.
pub fn language_of(langid: u16) -> (r: Option<String>)
    ensures
        opt_text(r) == (if langid == 0 {
            None
        } else {
            iso_of(langid & 0x3ff)
        }),
{
    if langid == 0 {
        None
    } else {
        langid_to_iso(langid)
    }
}

/// The Windows layout to load for a language.
pub fn layout_for(lang: &str) -> (r: Option<String>)
    ensures
        opt_text(r) == klid_of(lower(primary_part(lang@))),
{
    iso_to_klid(primary_code(lang).as_str())
}

/// An installed input source: whether it is a plain, selectable layout, and
/// the tag of its first language.
#[derive(Debug)]
pub struct InputSource {
    pub selectable: bool,
    pub tag: Option<String>,
}

/// Whether a source is a selectable layout for `want`.
pub open spec fn serves(s: InputSource, want: Seq<char>) -> bool {
    s.selectable && s.tag is Some && lower(primary_part(s.tag->0@)) == want
}

/// The first input source to select for a language.
pub fn find_source(sources: &Vec<InputSource>, lang: &str) -> (r: Option<usize>)
    ensures
        ({
            let want = lower(primary_part(lang@));
            match r {
                Some(i) => i < sources@.len() && serves(sources@[i as int], want) && forall|k: int|
                    0 <= k < i ==> !serves(#[trigger] sources@[k], want),
                None => forall|k: int|
                    0 <= k < sources@.len() ==> !serves(#[trigger] sources@[k], want),
            }
        }),
{
    let want = primary_code(lang);
    let mut i: usize = 0;
    while i < sources.len()
        invariant
            i <= sources@.len(),
            want@ == lower(primary_part(lang@)),
            forall|k: int| 0 <= k < i ==> !serves(#[trigger] sources@[k], want@),
        decreases sources@.len() - i,
    {
        if sources[i].selectable {
            if let Some(tag) = &sources[i].tag {
                if same_text(primary_code(tag.as_str()).as_str(), want.as_str()) {
                    return Some(i);
                }
            }
        }
        i = i + 1;
    }
    None
}

/* --------------------------------- monitor --------------------------------- */

/// What is known of the input language.
pub struct KeyboardMonitor {
    pub last_seen: Option<String>,
    /// the language most recently applied from the peer; the next poll that
    /// observes it is treated as an echo, not a local change
    pub last_applied: Option<String>,
}

/// What a [`KeyboardMonitor`] knows.
#[verifier::ext_equal]
pub struct Layout {
    pub last_seen: Option<Seq<char>>,
    pub last_applied: Option<Seq<char>>,
}

impl View for KeyboardMonitor {
    type V = Layout;

    open spec fn view(&self) -> Layout {
        Layout {
            last_seen: opt_text(self.last_seen),
            last_applied: opt_text(self.last_applied),
        }
    }
}

impl Layout {
    /// The input language was asked for.
    pub open spec fn on_poll(self, enabled: bool, current: Option<Seq<char>>) -> (
        Layout,
        Option<Seq<char>>,
    ) {
        if !enabled || current is None || self.last_seen == current {
            (self, None)
        } else if self.last_applied == current {
            // the echo of a just-applied layout
            (Layout { last_seen: current, last_applied: None }, None)
        } else {
            (Layout { last_seen: current, ..self }, current)
        }
    }

    /// A switch to `lang` was tried; `current` is the language after it.
    pub open spec fn on_switched(
        self,
        lang: Seq<char>,
        selected: bool,
        current: Option<Seq<char>>,
    ) -> Layout {
        if selected {
            Layout {
                last_applied: Some(lang),
                last_seen: if current is Some {
                    current
                } else {
                    Some(lang)
                },
            }
        } else {
            self
        }
    }
}

/// Whether a language from the peer calls for a switch.
pub open spec fn calls_for_switch(current: Option<Seq<char>>, lang: Seq<char>) -> bool {
    current != Some(lang)
}

impl KeyboardMonitor {
    pub fn new(current: Option<String>) -> (r: KeyboardMonitor)
        ensures
            r@ == (Layout { last_seen: opt_text(current), last_applied: None }),
    {
        KeyboardMonitor { last_seen: current, last_applied: None }
    }

    /// Whether a language from the peer calls for a switch: not where it is
    /// the current one.
    pub fn wants_switch(&self, lang: &str, current: &Option<String>) -> (r: bool)
        ensures
            r == (opt_text(*current) != Some(lang@)),
            r == calls_for_switch(opt_text(*current), lang@),
    {
        !is_text(current, lang)
    }

    /// A switch to `lang` was tried; `current` is the language after it.
    pub fn switched(&mut self, lang: &str, selected: bool, current: Option<String>)
        ensures
            final(self)@ == old(self)@.on_switched(lang@, selected, opt_text(current)),
    {
        if selected {
            self.last_applied = Some(lang.to_owned());
            self.last_seen = match current {
                Some(c) => Some(c),
                None => Some(lang.to_owned()),
            };
        }
    }

    /// The input language was asked for: what to tell the peer.
    pub fn poll(&mut self, enabled: bool, current: Option<String>) -> (r: Option<String>)
        ensures
            (final(self)@, opt_text(r)) == old(self)@.on_poll(enabled, opt_text(current)),
    {
        if !enabled {
            return None;
        }
        match current {
            None => None,
            Some(lang) => {
                if is_text(&self.last_seen, lang.as_str()) {
                    return None;
                }
                let echo = is_text(&self.last_applied, lang.as_str());
                self.last_seen = Some(lang.clone());
                if echo {
                    self.last_applied = None;
                    None
                } else {
                    Some(lang)
                }
            },
        }
    }
}

/* ---------------------------------- laws ---------------------------------- */

/// A language that was applied from the peer is not sent back to it, whether
/// the switch shows at once, later, or cannot be seen at all.
pub proof fn applied_languages_are_not_echoed(
    l: Layout,
    lang: Seq<char>,
    current: Option<Seq<char>>,
    enabled: bool,
)
    ensures
        l.on_switched(lang, true, current).on_poll(enabled, Some(lang)).1 is None,
{
}

/// A change that was told is not told again while it lasts.
pub proof fn changes_are_told_once(l: Layout, lang: Seq<char>, enabled: bool)
    ensures
        l.on_poll(enabled, Some(lang)).0.on_poll(enabled, Some(lang)).1 is None,
{
}

/// The number that a hexadecimal digit stands for.
pub open spec fn hex_value(c: char) -> int {
    if '0' <= c <= '9' {
        c as int - '0' as int
    } else {
        c as int - 'a' as int + 10
    }
}

/// Whether a character is a hexadecimal digit.
pub open spec fn is_hex(c: char) -> bool {
    '0' <= c <= '9' || 'a' <= c <= 'f'
}

/// Eight hexadecimal digits.
pub open spec fn is_layout(klid: Seq<char>) -> bool {
    klid.len() == 8 && forall|i: int| 0 <= i < 8 ==> is_hex(#[trigger] klid[i])
}

/// The language id in a layout string: the low sixteen bits of its number.
pub open spec fn langid_in(klid: Seq<char>) -> u16 {
    (hex_value(klid[4]) * 4096 + hex_value(klid[5]) * 256 + hex_value(klid[6]) * 16 + hex_value(
        klid[7],
    )) as u16
}

/// Layouts and languages belong to each other: the layout of a language is
/// eight hexadecimal digits, the language id in it reads back as that
/// language, and every language that can be read has a layout.
pub proof fn layouts_speak_their_language(iso: Seq<char>, langid: u16)
    ensures
        klid_of(iso) is Some ==> is_layout(klid_of(iso)->0) && iso_of(
            langid_in(klid_of(iso)->0) & 0x3ff,
        ) == Some(iso),
        iso_of(langid & 0x3ff) is Some ==> klid_of(iso_of(langid & 0x3ff)->0) is Some,
{
    klids_spelled();
    primaries_cut();
}

proof fn primaries_cut()
    ensures
        0x0409u16 & 0x3ff == 0x09,
        0x0401u16 & 0x3ff == 0x01,
        0x040cu16 & 0x3ff == 0x0c,
        0x0407u16 & 0x3ff == 0x07,
        0x040au16 & 0x3ff == 0x0a,
        0x0419u16 & 0x3ff == 0x19,
        0x0410u16 & 0x3ff == 0x10,
        0x0816u16 & 0x3ff == 0x16,
        0x041fu16 & 0x3ff == 0x1f,
        0x040du16 & 0x3ff == 0x0d,
        0x0415u16 & 0x3ff == 0x15,
        0x0413u16 & 0x3ff == 0x13,
        0x041du16 & 0x3ff == 0x1d,
        0x0408u16 & 0x3ff == 0x08,
        0x0804u16 & 0x3ff == 0x04,
        0x0411u16 & 0x3ff == 0x11,
        0x0412u16 & 0x3ff == 0x12,
{
    assert(forall|x: u16| #[trigger] (x & 0x3ff) == x % 1024) by (bit_vector);
}

proof fn klids_spelled()
    ensures
        is_layout("00000409"@) && langid_in("00000409"@) == 0x0409,
        is_layout("00000401"@) && langid_in("00000401"@) == 0x0401,
        is_layout("0000040c"@) && langid_in("0000040c"@) == 0x040c,
        is_layout("00000407"@) && langid_in("00000407"@) == 0x0407,
        is_layout("0000040a"@) && langid_in("0000040a"@) == 0x040a,
        is_layout("00000419"@) && langid_in("00000419"@) == 0x0419,
        is_layout("00000410"@) && langid_in("00000410"@) == 0x0410,
        is_layout("00000816"@) && langid_in("00000816"@) == 0x0816,
        is_layout("0000041f"@) && langid_in("0000041f"@) == 0x041f,
        is_layout("0000040d"@) && langid_in("0000040d"@) == 0x040d,
        is_layout("00000415"@) && langid_in("00000415"@) == 0x0415,
        is_layout("00000413"@) && langid_in("00000413"@) == 0x0413,
        is_layout("0000041d"@) && langid_in("0000041d"@) == 0x041d,
        is_layout("00000408"@) && langid_in("00000408"@) == 0x0408,
        is_layout("00000804"@) && langid_in("00000804"@) == 0x0804,
        is_layout("00000411"@) && langid_in("00000411"@) == 0x0411,
        is_layout("00000412"@) && langid_in("00000412"@) == 0x0412,
{
    reveal_strlit("00000409");
    reveal_strlit("00000401");
    reveal_strlit("0000040c");
    reveal_strlit("00000407");
    reveal_strlit("0000040a");
    reveal_strlit("00000419");
    reveal_strlit("00000410");
    reveal_strlit("00000816");
    reveal_strlit("0000041f");
    reveal_strlit("0000040d");
    reveal_strlit("00000415");
    reveal_strlit("00000413");
    reveal_strlit("0000041d");
    reveal_strlit("00000408");
    reveal_strlit("00000804");
    reveal_strlit("00000411");
    reveal_strlit("00000412");
}

} // verus!
