//! What becomes of a copy on its way from one clipboard to the other.

use crate::clipboard::{
    carries, change_kind, change_message, decoded, encoded, image_print, le_bytes, low, opt_bytes,
    opt_change, opt_picture, opt_pixels, png_frame, png_header, png_of, remembered, text_print,
    Change, Changed, Clip, ClipboardMonitor, Image, Marks, Picture, Poll, Polled,
};
use crate::digest::sha256;
use crate::ipc::ClipboardKind;
use crate::proto::Msg;
use vstd::prelude::*;
use vstd::utf8::encode_utf8;

verus! {

/// A decoded image goes on the clipboard as it was decoded: as wide, as high
/// and with the same pixels. What could not be decoded changes nothing.
pub proof fn decoded_images_are_applied(c: Clip, w: u32, h: u32, bytes: Seq<u8>)
    ensures
        c.on_decoded(Some((w, h, bytes))).1 is Some,
        c.on_decoded(Some((w, h, bytes))).1->0.width == w,
        c.on_decoded(Some((w, h, bytes))).1->0.height == h,
        c.on_decoded(Some((w, h, bytes))).1->0.bytes == bytes,
        c.on_decoded(None) == (c, None::<Picture>),
{
}

/// An image is received as it was copied: what one machine polls, tells and
/// encodes, and the other one can read, is put there as wide, as high and
/// with the same bytes.
pub proof fn images_arrive_as_they_were(here: Clip, there: Clip, p: Picture, png: Seq<u8>)
    requires
        p.width <= u32::MAX,
        p.height <= u32::MAX,
        here.on_image(Some(p)).1 is Some,
        here.on_image(Some(p)).1->0->png == png,
        carries(png, p),
        decoded(png) is Some,
    ensures
        ({
            let told = here.on_image(Some(p)).1->0;
            let sent = change_message(told);
            &&& decoded(png) == Some((p.width as u32, p.height as u32, p.bytes))
            &&& told == (Changed::Image { width: p.width as u32, height: p.height as u32, png })
            &&& sent == (Msg::ClipImage { width: p.width as u32, height: p.height as u32, png })
            &&& there.on_decoded(decoded(sent->png)).1 is Some
            &&& there.on_decoded(decoded(sent->png)).1->0.width == p.width
            &&& there.on_decoded(decoded(sent->png)).1->0.height == p.height
            &&& there.on_decoded(decoded(sent->png)).1->0.bytes == p.bytes
        }),
{
}

/// A text is sent as it was copied.
pub proof fn texts_are_told_as_they_are(c: Clip, text: Seq<char>)
    requires
        text.len() > 0,
        c.last_seen != Some(text_print(text)),
        !c.ring.contains(text_print(text)),
        c.text.applied != Some(text_print(text)),
        c.text.landed != Some(text_print(text)),
        c.text.sent != Some(text_print(text)),
    ensures
        c.on_poll(true, Some(text)).1 == Polled::Tell(Changed::Text(text)),
        change_message(Changed::Text(text)) == (Msg::ClipText { text }),
        change_kind(Changed::Text(text)) == ClipboardKind::Text,
        ({
            let t = c.on_poll(true, Some(text)).0;
            &&& t.last_seen == Some(text_print(text))
            &&& t.text == (Marks { sent: Some(text_print(text)), ..c.text })
            &&& t.image == c.image
            &&& t.suppress_next_image == c.suppress_next_image
            &&& t.check_image == c.check_image
            &&& t.ring == remembered(c.ring, text_print(text))
        }),
{
}

/// A text that is seen again, or that the machines know already, is not told;
/// it is noted as seen.
pub proof fn known_texts_are_not_told(c: Clip, text: Seq<char>)
    requires
        text.len() > 0,
        c.last_seen == Some(text_print(text)) || c.ring.contains(text_print(text))
            || c.text.applied == Some(text_print(text)) || c.text.landed == Some(text_print(text))
            || c.text.sent == Some(text_print(text)),
    ensures
        c.on_poll(true, Some(text)) == (
            Clip { last_seen: Some(text_print(text)), ..c },
            Polled::Idle,
        ),
{
}

/// While sync is off the clipboard is left alone.
pub proof fn nothing_is_polled_while_off(c: Clip, text: Option<Seq<char>>)
    ensures
        c.on_poll(false, text) == (c, Polled::Idle),
{
}

/// Without text every second poll looks for an image, and nothing else
/// changes.
pub proof fn every_second_poll_looks_for_an_image(c: Clip, text: Option<Seq<char>>)
    requires
        text is None || text->0.len() == 0,
    ensures
        c.on_poll(true, text).0 == (Clip { check_image: !c.check_image, ..c }),
        c.check_image ==> c.on_poll(true, text).1 == Polled::Idle,
        !c.check_image ==> c.on_poll(true, text).1 == Polled::LookForImage,
{
}

/// An image that is news is told, with its dimensions, if it can be encoded.
pub proof fn new_images_are_told(c: Clip, p: Picture)
    requires
        c.last_seen != Some(image_print(p)),
        !c.suppress_next_image,
        !c.ring.contains(image_print(p)),
        c.image.applied != Some(image_print(p)),
        c.image.landed != Some(image_print(p)),
        c.image.sent != Some(image_print(p)),
    ensures
        c.on_image(Some(p)).1 is Some <==> encoded(p) is Some,
        encoded(p) is Some ==> c.on_image(Some(p)).1->0 == (Changed::Image {
            width: low(p.width),
            height: low(p.height),
            png: encoded(p)->0,
        }),
        c.on_image(Some(p)).0.last_seen == Some(image_print(p)),
        encoded(p) is Some ==> c.on_image(Some(p)).0 == (Clip {
            last_seen: Some(image_print(p)),
            ring: remembered(c.ring, image_print(p)),
            image: Marks { sent: Some(image_print(p)), ..c.image },
            ..c
        }),
        encoded(p) is None ==> c.on_image(Some(p)).0 == (Clip {
            last_seen: Some(image_print(p)),
            ..c
        }),
{
}

/// An image that was seen before is nothing new; no image is nothing at all.
pub proof fn seen_images_change_nothing(c: Clip, p: Picture)
    requires
        c.last_seen == Some(image_print(p)),
    ensures
        c.on_image(Some(p)) == (c, None::<Changed>),
        c.on_image(None) == (c, None::<Changed>),
{
}

/// An image that the machines know already is noted as seen, and not told.
pub proof fn known_images_are_not_told(c: Clip, p: Picture)
    requires
        c.last_seen != Some(image_print(p)),
        !c.suppress_next_image,
        c.ring.contains(image_print(p)) || c.image.applied == Some(image_print(p))
            || c.image.landed == Some(image_print(p)) || c.image.sent == Some(image_print(p)),
    ensures
        c.on_image(Some(p)) == (Clip { last_seen: Some(image_print(p)), ..c }, None::<Changed>),
{
}

/// An image that could not be read back is taken to be the next one seen:
/// that one is absorbed, and only that one.
pub proof fn one_image_is_absorbed(c: Clip, p: Picture)
    requires
        c.suppress_next_image,
        c.last_seen != Some(image_print(p)),
    ensures
        c.on_image(Some(p)) == (
            Clip {
                suppress_next_image: false,
                last_seen: Some(image_print(p)),
                image: Marks { landed: Some(image_print(p)), ..c.image },
                ring: remembered(c.ring, image_print(p)),
                ..c
            },
            None::<Changed>,
        ),
{
}

/// What comes from the peer is remembered, and what it reads back as is what
/// was seen last.
pub proof fn applied_content_is_known(
    c: Clip,
    text: Seq<char>,
    w: u32,
    h: u32,
    bytes: Seq<u8>,
    p: Picture,
)
    requires
        p.width == w,
        p.height == h,
        p.bytes == bytes,
    ensures
        c.on_text(text) == (Clip {
            ring: remembered(c.ring, text_print(text)),
            text: Marks { came: Some(text_print(text)), ..c.text },
            ..c
        }),
        c.on_text_landed(Some(text)) == (Clip {
            ring: remembered(c.ring, text_print(text)),
            last_seen: Some(text_print(text)),
            text: Marks { applied: c.text.came, landed: Some(text_print(text)), ..c.text },
            ..c
        }),
        c.on_text_landed(None) == (Clip {
            text: Marks { applied: c.text.came, landed: None, ..c.text },
            ..c
        }),
        c.on_decoded(Some((w, h, bytes))).0 == (Clip {
            ring: remembered(c.ring, image_print(p)),
            image: Marks { came: Some(image_print(p)), ..c.image },
            ..c
        }),
        c.on_image_landed(Some(p)) == (Clip {
            ring: remembered(c.ring, image_print(p)),
            last_seen: Some(image_print(p)),
            image: Marks { applied: c.image.came, landed: Some(image_print(p)), ..c.image },
            ..c
        }),
        c.on_image_landed(None) == (Clip {
            suppress_next_image: true,
            image: Marks { applied: c.image.came, landed: None, ..c.image },
            ..c
        }),
{
}

/// The last eight fingerprints are remembered, each once; the oldest makes
/// room.
pub proof fn eight_are_remembered(ring: Seq<Seq<u8>>, fp: Seq<u8>)
    ensures
        ring.contains(fp) ==> remembered(ring, fp) == ring,
        !ring.contains(fp) && ring.len() != 8 ==> remembered(ring, fp) == ring.push(fp),
        !ring.contains(fp) && ring.len() == 8 ==> remembered(ring, fp) == ring.subrange(1, 8).push(
            fp,
        ),
{
    if ring.len() == 8 {
        assert(ring.drop_first() =~= ring.subrange(1, 8));
    }
}

/// Nothing is known at first.
pub proof fn nothing_is_known_at_first()
    ensures
        Clip::fresh().ring.len() == 0,
        !Clip::fresh().suppress_next_image,
        Clip::fresh().text == (Marks { came: None, applied: None, landed: None, sent: None }),
        Clip::fresh().image == (Marks { came: None, applied: None, landed: None, sent: None }),
        Clip::fresh().last_seen is None,
        !Clip::fresh().check_image,
{
}

/// An image is refused before its pixels are read unless it is eight-bit
/// RGBA, no more than 16384 pixels wide or high, and no more than 256 MiB in
/// all; one that is not refused is what the decoder makes of it.
pub proof fn large_images_are_refused(png: Seq<u8>, color: u8, depth: u8, w: u32, h: u32)
    requires
        png_header(png) == Some((color, depth, w, h)),
    ensures
        color == 6 && depth == 8 && w <= 16384 && h <= 16384 && w * h <= 64 * 1024 * 1024
            ==> decoded(png) == png_frame(png),
        color != 6 || depth != 8 || w > 16384 || h > 16384 || w * h > 64 * 1024 * 1024 ==> decoded(
            png,
        ) is None,
{
    if w <= 16384 && h <= 16384 {
        assert(w * h * 4 == 4 * (w * h)) by (nonlinear_arith);
    }
}

/// What is no PNG is refused.
pub proof fn what_is_no_png_is_refused(png: Seq<u8>)
    requires
        png_header(png) is None,
    ensures
        decoded(png) is None,
{
}

/// An image is encoded as wide and as high as it is, with its pixels, just
/// where it has as many bytes as that takes.
pub proof fn images_are_encoded_as_they_are(p: Picture)
    requires
        p.width <= u32::MAX,
        p.height <= u32::MAX,
    ensures
        p.width > 0 && p.height > 0 && p.width * p.height * 4 == p.bytes.len() ==> encoded(p)
            == png_of(p.width as u32, p.height as u32, p.bytes),
        p.width == 0 || p.height == 0 || p.width * p.height * 4 != p.bytes.len() ==> encoded(p)
            is None,
{
}

/// A text stands for itself by the sha256 of `text` and its bytes; an image
/// by that of `image`, its width, its height, its length and at most 64 KiB
/// of its pixels.
pub proof fn fingerprints_are_made_of(text: Seq<char>, p: Picture)
    ensures
        text_print(text) == sha256(encode_utf8("text"@) + encode_utf8(text)),
        p.bytes.len() <= 65536 ==> image_print(p) == sha256(
            encode_utf8("image"@) + le_bytes(p.width as u64) + le_bytes(p.height as u64)
                + le_bytes(p.bytes.len() as u64) + p.bytes,
        ),
        p.bytes.len() > 65536 ==> image_print(p) == sha256(
            encode_utf8("image"@) + le_bytes(p.width as u64) + le_bytes(p.height as u64)
                + le_bytes(p.bytes.len() as u64) + p.bytes.subrange(0, 65536),
        ),
{
    if p.bytes.len() > 65536 {
        assert(p.bytes.take(65536) =~= p.bytes.subrange(0, 65536));
    }
}

/// A number is written as its eight bytes, the least significant first.
pub proof fn numbers_are_written_low_end_first(n: u64)
    ensures
        le_bytes(n).len() == 8,
        n == le_bytes(n)[0] + le_bytes(n)[1] * 0x100 + le_bytes(n)[2] * 0x1_0000 + le_bytes(n)[3]
            * 0x100_0000 + le_bytes(n)[4] * 0x1_0000_0000 + le_bytes(n)[5] * 0x100_0000_0000
            + le_bytes(n)[6] * 0x1_0000_0000_0000 + le_bytes(n)[7] * 0x100_0000_0000_0000,
{
    assert(n == n % 0x100 + (n / 0x100 % 0x100) * 0x100 + (n / 0x1_0000 % 0x100) * 0x1_0000 + (n
        / 0x100_0000 % 0x100) * 0x100_0000 + (n / 0x1_0000_0000 % 0x100) * 0x1_0000_0000 + (n
        / 0x100_0000_0000 % 0x100) * 0x100_0000_0000 + (n / 0x1_0000_0000_0000 % 0x100)
        * 0x1_0000_0000_0000 + (n / 0x100_0000_0000_0000 % 0x100) * 0x100_0000_0000_0000)
        by (bit_vector);
}

/// Of a dimension the low 32 bits are told: all of it, where it has no more.
pub proof fn dimensions_are_told_as_they_are(n: usize)
    ensures
        n <= u32::MAX ==> low(n) == n,
        low(n) == n as u64 % 0x1_0000_0000,
{
}

/// What the monitor knows, tells and takes is what is there.
pub proof fn clips_say_what_they_hold(
    m: ClipboardMonitor,
    text: String,
    width: u32,
    height: u32,
    png: Vec<u8>,
    image: Image,
    change: Change,
    k: int,
)
    requires
        0 <= k < m.suppressed.ring@.len(),
    ensures
        m@.ring.len() == m.suppressed.ring@.len(),
        m@.ring[k] == m.suppressed.ring@[k]@,
        m@.suppress_next_image == m.suppressed.suppress_next_image,
        m@.check_image == m.check_image,
        m@.text == m.text@,
        m@.image == m.image@,
        m@.last_seen is Some <==> m.last_seen is Some,
        m.last_seen is Some ==> m@.last_seen->0 == m.last_seen->0@,
        m@.text.came is Some <==> m.text.came is Some,
        m.text.came is Some ==> m@.text.came->0 == m.text.came->0@,
        m@.text.applied is Some <==> m.text.applied is Some,
        m.text.applied is Some ==> m@.text.applied->0 == m.text.applied->0@,
        m@.text.landed is Some <==> m.text.landed is Some,
        m.text.landed is Some ==> m@.text.landed->0 == m.text.landed->0@,
        m@.text.sent is Some <==> m.text.sent is Some,
        m.text.sent is Some ==> m@.text.sent->0 == m.text.sent->0@,
        Change::Text(text)@ == Changed::Text(text@),
        (Change::Image { width, height, png })@ == (Changed::Image { width, height, png: png@ }),
        image@.width == image.width,
        image@.height == image.height,
        image@.bytes == image.bytes@,
        opt_picture(Some(image)) == Some(image@),
        opt_picture(None) is None,
        opt_pixels(Some((width, height, png))) == Some((width, height, png@)),
        opt_pixels(None) is None,
        Poll::Idle@ == Polled::Idle,
        Poll::LookForImage@ == Polled::LookForImage,
        Poll::Tell(change)@ == Polled::Tell(change@),
        change_message(Changed::Image { width, height, png: png@ }) == (Msg::ClipImage {
            width,
            height,
            png: png@,
        }),
        change_kind(Changed::Image { width, height, png: png@ }) == ClipboardKind::Image,
{
}

/// An image that could be encoded is told with its dimensions and its PNG, and
/// remembered as sent; one that could not changes nothing.
pub proof fn encoded_images_are_told(c: Clip, p: Picture, png: Seq<u8>)
    requires
        p.width <= u32::MAX,
        p.height <= u32::MAX,
    ensures
        c.on_encoded(p, Some(png)) == (
            Clip {
                ring: remembered(c.ring, image_print(p)),
                image: Marks { sent: Some(image_print(p)), ..c.image },
                ..c
            },
            Some(Changed::Image { width: p.width as u32, height: p.height as u32, png }),
        ),
        c.on_encoded(p, None) == (c, None::<Changed>),
{
}

/// What may be there is there or not, as it is held.
pub proof fn options_say_what_they_hold(change: Change, bytes: Vec<u8>, m: ClipboardMonitor)
    ensures
        opt_change(Some(change)) == Some(change@),
        opt_change(None) is None,
        opt_bytes(Some(bytes)) == Some(bytes@),
        opt_bytes(None) is None,
        m@.image.came is Some <==> m.image.came is Some,
        m.image.came is Some ==> m@.image.came->0 == m.image.came->0@,
        m@.image.applied is Some <==> m.image.applied is Some,
        m.image.applied is Some ==> m@.image.applied->0 == m.image.applied->0@,
        m@.image.landed is Some <==> m.image.landed is Some,
        m.image.landed is Some ==> m@.image.landed->0 == m.image.landed->0@,
        m@.image.sent is Some <==> m.image.sent is Some,
        m.image.sent is Some ==> m@.image.sent->0 == m.image.sent->0@,
{
}

} // verus!
