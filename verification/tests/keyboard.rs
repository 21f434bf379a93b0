use vylo_share::keyboard::{
    find_source, iso_to_klid, langid_to_iso, language_of, layout_for, primary_code, set_gui_host,
    GuiHost, InputSource, KeyboardMonitor,
};

fn some(s: &str) -> Option<String> {
    Some(s.to_string())
}

#[test]
fn primary_code_normalizes() {
    assert_eq!(primary_code("en-US"), "en");
    assert_eq!(primary_code("zh-Hans"), "zh");
    assert_eq!(primary_code("AR"), "ar");
    assert_eq!(primary_code("fr"), "fr");
}

#[test]
fn primary_code_splits_at_underscores_too() {
    assert_eq!(primary_code("pt_BR"), "pt");
    assert_eq!(primary_code(""), "");
    assert_eq!(primary_code("-x"), "");
}

#[test]
fn langids_and_layouts_agree() {
    // en-US, ar-SA, pt-PT, zh-CN: the sublanguage does not matter
    assert_eq!(langid_to_iso(0x0409), some("en"));
    assert_eq!(langid_to_iso(0x0809), some("en"));
    assert_eq!(langid_to_iso(0x0401), some("ar"));
    assert_eq!(langid_to_iso(0x0816), some("pt"));
    assert_eq!(langid_to_iso(0x0804), some("zh"));
    assert_eq!(langid_to_iso(0x03ff), None);
    assert_eq!(language_of(0), None);
    assert_eq!(language_of(0x0407), some("de"));
    for (iso, klid) in [
        ("en", "00000409"),
        ("ar", "00000401"),
        ("fr", "0000040c"),
        ("de", "00000407"),
        ("es", "0000040a"),
        ("ru", "00000419"),
        ("it", "00000410"),
        ("pt", "00000816"),
        ("tr", "0000041f"),
        ("he", "0000040d"),
        ("pl", "00000415"),
        ("nl", "00000413"),
        ("sv", "0000041d"),
        ("el", "00000408"),
        ("zh", "00000804"),
        ("ja", "00000411"),
        ("ko", "00000412"),
    ] {
        assert_eq!(iso_to_klid(iso), some(klid));
        let langid = u16::from_str_radix(&klid[4..], 16).unwrap();
        assert_eq!(langid_to_iso(langid), some(iso));
    }
    assert_eq!(iso_to_klid("xx"), None);
    assert_eq!(layout_for("DE-at"), some("00000407"));
    assert_eq!(layout_for("tlh"), None);
}

#[test]
fn the_first_matching_source_is_taken() {
    let source = |selectable: bool, tag: Option<&str>| InputSource {
        selectable,
        tag: tag.map(|t| t.to_string()),
    };
    let sources = vec![
        source(false, Some("fr")),
        source(true, None),
        source(true, Some("en-US")),
        source(true, Some("fr-CA")),
        source(true, Some("fr")),
    ];
    assert_eq!(find_source(&sources, "FR"), Some(3));
    assert_eq!(find_source(&sources, "en"), Some(2));
    assert_eq!(find_source(&sources, "ja"), None);
}

#[test]
fn applied_languages_are_not_told_back() {
    let mut m = KeyboardMonitor::new(some("en"));
    // nothing changed
    assert_eq!(m.poll(true, some("en")), None);
    // a local change is told once
    assert_eq!(m.poll(true, some("ar")), some("ar"));
    assert_eq!(m.poll(true, some("ar")), None);
    // the peer asks for French; the system is slow to switch
    assert!(m.wants_switch("fr", &some("ar")));
    m.switched("fr", true, some("ar"));
    assert_eq!(m.poll(true, some("fr")), None);
    // a local change after that is told again
    assert_eq!(m.poll(true, some("en")), some("en"));
    assert!(!m.wants_switch("en", &some("en")));
}

#[test]
fn failed_switches_leave_no_trace() {
    let mut m = KeyboardMonitor::new(some("en"));
    m.switched("fr", false, some("en"));
    assert_eq!(m.poll(true, some("fr")), some("fr"));
    m.switched("de", true, None);
    assert_eq!(m.poll(true, some("de")), None);
    // while sync is off nothing is noticed
    assert_eq!(m.poll(false, some("it")), None);
    assert_eq!(m.poll(true, None), None);
    assert_eq!(m.poll(true, some("it")), some("it"));
}

#[test]
fn layout_sync_needs_a_gui_host_only_on_the_main_thread() {
    let mut host = GuiHost::new();
    assert!(!host.allows_layout_sync(true));
    assert!(host.allows_layout_sync(false));
    set_gui_host(&mut host);
    assert!(host.allows_layout_sync(true));
}
