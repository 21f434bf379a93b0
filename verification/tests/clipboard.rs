use vylo_share::clipboard::{
    accepts, decode_png, encode_png, fingerprint_image, fingerprint_text, Change,
    ClipboardMonitor, Image, Poll, EIGHT_BITS, RGBA_COLOR, SUPPRESS_RING,
};
use vylo_share::digest::sha256_of;
use vylo_share::ipc::ClipboardKind;
use vylo_share::proto::SyncMessage;

fn image(width: usize, height: usize, seed: u8) -> Image {
    let bytes = (0..width * height * 4).map(|i| (i as u8).wrapping_mul(7).wrapping_add(seed)).collect();
    Image { width, height, bytes }
}

fn text(s: &str) -> Option<String> {
    Some(s.to_string())
}

fn told(p: Poll) -> Option<String> {
    match p {
        Poll::Tell(Change::Text(t)) => Some(t),
        Poll::Tell(other) => panic!("{other:?}"),
        _ => None,
    }
}

#[test]
fn fingerprints_are_tagged_hashes() {
    assert_eq!(fingerprint_text("hi"), sha256_of(&b"texthi".to_vec()));
    let i = Image { width: 1, height: 1, bytes: vec![1, 2, 3, 4] };
    let mut data = b"image".to_vec();
    data.extend_from_slice(&1u64.to_le_bytes());
    data.extend_from_slice(&1u64.to_le_bytes());
    data.extend_from_slice(&4u64.to_le_bytes());
    data.extend_from_slice(&[1, 2, 3, 4]);
    assert_eq!(fingerprint_image(&i), sha256_of(&data));
}

#[test]
fn fingerprints_look_at_a_prefix() {
    let mut a = image(200, 200, 0);
    let before = fingerprint_image(&a);
    *a.bytes.last_mut().unwrap() ^= 1;
    assert_eq!(fingerprint_image(&a), before);
    a.bytes[0] ^= 1;
    assert_ne!(fingerprint_image(&a), before);
}

#[test]
fn png_roundtrip() {
    let i = image(13, 7, 3);
    let png = encode_png(&i).expect("encodes");
    assert_eq!(&png[1..4], b"PNG");
    assert_eq!(decode_png(&png), Some((13, 7, i.bytes.clone())));
}

#[test]
fn odd_images_are_refused() {
    // not as many pixels as claimed
    assert!(encode_png(&Image { width: 2, height: 2, bytes: vec![0; 15] }).is_none());
    assert!(encode_png(&Image { width: 0, height: 2, bytes: vec![] }).is_none());
    assert!(decode_png(&b"no png".to_vec()).is_none());
    assert!(decode_png(&vec![]).is_none());
    let mut cut = encode_png(&image(8, 8, 0)).unwrap();
    cut.truncate(cut.len() / 2);
    assert!(decode_png(&cut).is_none());
}

#[test]
fn image_headers_are_bounded() {
    assert!(accepts(Some((RGBA_COLOR, EIGHT_BITS, 16384, 1))));
    assert!(!accepts(Some((RGBA_COLOR, EIGHT_BITS, 16385, 1))));
    assert!(!accepts(Some((RGBA_COLOR, EIGHT_BITS, 1, 16385))));
    assert!(accepts(Some((RGBA_COLOR, EIGHT_BITS, 8192, 8192))));
    assert!(!accepts(Some((RGBA_COLOR, EIGHT_BITS, 8192, 8193))));
    assert!(!accepts(Some((2, EIGHT_BITS, 1, 1))));
    assert!(!accepts(Some((RGBA_COLOR, 16, 1, 1))));
    assert!(!accepts(None));
}

#[test]
fn local_text_is_told_once() {
    let mut m = ClipboardMonitor::new();
    assert_eq!(told(m.poll_text(true, text("a"))), text("a"));
    assert_eq!(told(m.poll_text(true, text("a"))), None);
    assert_eq!(told(m.poll_text(true, text("b"))), text("b"));
    // what was told is remembered for a while
    assert_eq!(told(m.poll_text(true, text("a"))), None);
    // nothing is noticed while sync is off
    assert_eq!(told(m.poll_text(false, text("c"))), None);
    assert_eq!(told(m.poll_text(true, text("c"))), text("c"));
}

#[test]
fn text_from_the_peer_is_not_echoed() {
    let mut m = ClipboardMonitor::new();
    m.apply_text("from afar");
    m.text_landed(text("from afar\r\n"));
    assert_eq!(told(m.poll_text(true, text("from afar\r\n"))), None);
    assert_eq!(told(m.poll_text(true, text("from afar"))), None);
    assert_eq!(told(m.poll_text(true, text("from here"))), text("from here"));
}

#[test]
fn the_ring_forgets_the_oldest() {
    let mut m = ClipboardMonitor::new();
    for i in 0..=SUPPRESS_RING {
        let t = format!("t{i}");
        assert_eq!(told(m.poll_text(true, Some(t.clone()))), Some(t));
    }
    assert_eq!(told(m.poll_text(true, text("t1"))), None);
    assert_eq!(told(m.poll_text(true, text("t0"))), text("t0"));
}

#[test]
fn the_last_text_applied_is_never_told() {
    let mut m = ClipboardMonitor::new();
    // the ring is full, and its oldest entry comes from the peer once more
    for i in 0..SUPPRESS_RING {
        assert!(told(m.poll_text(true, Some(format!("t{i}")))).is_some());
    }
    m.apply_text("t0");
    m.text_landed(text("t0"));
    for i in 0..3 * SUPPRESS_RING {
        assert!(told(m.poll_text(true, Some(format!("u{i}")))).is_some());
        assert_eq!(told(m.poll_text(true, text("t0"))), None);
    }
    // also as it came, where it reads back otherwise
    m.apply_text("line");
    m.text_landed(text("line\r\n"));
    for i in 0..3 * SUPPRESS_RING {
        assert!(told(m.poll_text(true, Some(format!("v{i}")))).is_some());
    }
    assert_eq!(told(m.poll_text(true, text("line"))), None);
    assert_eq!(told(m.poll_text(true, text("line\r\n"))), None);
    assert_eq!(told(m.poll_text(true, text("t0"))), text("t0"));
}

#[test]
fn the_last_text_told_is_not_told_again() {
    let mut m = ClipboardMonitor::new();
    assert_eq!(told(m.poll_text(true, text("mine"))), text("mine"));
    for i in 0..2 * SUPPRESS_RING {
        m.apply_text(&format!("t{i}"));
        m.text_landed(Some(format!("t{i}")));
    }
    assert_eq!(told(m.poll_text(true, text("mine"))), None);
    // text that could not be put on the clipboard leaves the one before it
    m.apply_text("lost");
    for i in 0..2 * SUPPRESS_RING {
        assert!(told(m.poll_text(true, Some(format!("u{i}")))).is_some());
    }
    assert_eq!(told(m.poll_text(true, text("lost"))), text("lost"));
    assert_eq!(told(m.poll_text(true, Some(format!("t{}", 2 * SUPPRESS_RING - 1)))), None);
}

#[test]
fn the_last_images_are_never_told() {
    let png = encode_png(&image(5, 5, 1)).unwrap();
    let mut m = ClipboardMonitor::new();
    m.apply_image(&png);
    m.image_landed(None);
    // reads back as this, later
    assert!(m.poll_image(Some(image(5, 5, 2))).is_none());
    for i in 0..2 * SUPPRESS_RING {
        assert!(m.poll_image(Some(image(6, 6, i as u8))).is_some());
    }
    assert!(m.poll_image(Some(image(5, 5, 1))).is_none());
    assert!(m.poll_image(Some(image(5, 5, 2))).is_none());
    let last = 2 * SUPPRESS_RING - 1;
    for i in 0..2 * SUPPRESS_RING {
        m.apply_text(&format!("t{i}"));
        m.text_landed(Some(format!("t{i}")));
    }
    assert!(m.poll_image(Some(image(6, 6, last as u8))).is_none());
    assert!(m.poll_image(Some(image(6, 6, 0))).is_some());
}

#[test]
fn images_that_are_not_rgba_are_refused() {
    let mut out = Vec::new();
    let mut encoder = png::Encoder::new(&mut out, 1, 1);
    encoder.set_color(png::ColorType::Rgb);
    encoder.set_depth(png::BitDepth::Eight);
    let mut writer = encoder.write_header().unwrap();
    writer.write_image_data(&[1, 2, 3]).unwrap();
    writer.finish().unwrap();
    assert!(decode_png(&out).is_none());
}

#[test]
fn images_are_looked_at_every_other_poll() {
    let mut m = ClipboardMonitor::new();
    assert!(matches!(m.poll_text(true, None), Poll::LookForImage));
    assert!(matches!(m.poll_text(true, Some(String::new())), Poll::Idle));
    assert!(matches!(m.poll_text(true, None), Poll::LookForImage));
    let change = m.poll_image(Some(image(4, 4, 9)));
    match change {
        Some(Change::Image { width: 4, height: 4, png }) => {
            assert_eq!(decode_png(&png), Some((4, 4, image(4, 4, 9).bytes)));
        }
        other => panic!("{other:?}"),
    }
    assert!(m.poll_image(Some(image(4, 4, 9))).is_none());
    assert!(m.poll_image(None).is_none());
}

#[test]
fn images_from_the_peer_are_not_echoed() {
    let png = encode_png(&image(5, 5, 1)).unwrap();
    let mut m = ClipboardMonitor::new();
    let i = m.apply_image(&png).expect("decodes");
    assert_eq!((i.width, i.height), (5, 5));
    assert_eq!(i.bytes, image(5, 5, 1).bytes);
    m.image_landed(Some(image(5, 5, 2)));
    assert!(m.poll_image(Some(image(5, 5, 2))).is_none());
    assert!(m.poll_image(Some(image(5, 5, 1))).is_none());
    assert!(m.poll_image(Some(image(5, 5, 3))).is_some());
    assert!(m.apply_image(&b"junk".to_vec()).is_none());
}

#[test]
fn an_image_that_could_not_be_read_back_is_absorbed() {
    let png = encode_png(&image(5, 5, 1)).unwrap();
    let mut m = ClipboardMonitor::new();
    m.apply_image(&png);
    m.image_landed(None);
    assert!(m.poll_image(Some(image(5, 5, 77))).is_none());
    assert!(m.poll_image(Some(image(5, 5, 78))).is_some());
}

#[test]
fn changes_become_messages() {
    let (msg, kind) = Change::Text("x".to_string()).into_message();
    assert!(matches!(msg, SyncMessage::ClipText { ref text } if text == "x"));
    assert_eq!(kind, ClipboardKind::Text);
    let (msg, kind) = Change::Image { width: 1, height: 2, png: vec![3] }.into_message();
    assert!(matches!(msg, SyncMessage::ClipImage { width: 1, height: 2, ref png } if *png == vec![3]));
    assert_eq!(kind, ClipboardKind::Image);
}
