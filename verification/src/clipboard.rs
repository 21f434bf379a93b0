//! Clipboard monitoring and application.
//!
//! The host owns the system clipboard: it polls it, and puts remote content
//! on it. What to make of what it sees is decided here.
//!
//! Echo prevention: fingerprints of the last content applied from the peer
//! (both as sent, and as read back after the round-trip through the system,
//! which may re-encode images) and of the last content sent are remembered;
//! matching content is never re-broadcast, so no copy loop can form between
//! the machines.

use crate::digest::{same_digest, sha256, sha256_of};
use crate::ipc::ClipboardKind;
use crate::proto::{Msg, SyncMessage};
use vstd::prelude::*;
use vstd::string::*;
use vstd::utf8::encode_utf8;

verus! {

/// How many fingerprints are remembered.
pub const SUPPRESS_RING: usize = 8;

/// Images with more than this on a side are refused before their pixels are
/// given memory: a tiny crafted PNG can otherwise claim e.g. 65535x65535 and
/// force a multi-GB allocation that aborts the process.
pub const MAX_IMAGE_DIM: u32 = 16384;

pub const MAX_IMAGE_BYTES: u64 = 268435456;

/// PNG's number for the colour type RGBA.
pub const RGBA_COLOR: u8 = 6;

/// PNG's number for eight bits per sample.
pub const EIGHT_BITS: u8 = 8;

/// How much of an image's pixels goes into its fingerprint.
pub const FINGERPRINT_PREFIX: usize = 65536;

/// local clipboard change to forward to the peer
#[derive(Debug)]
pub enum Change {
    Text(String),
    Image { width: u32, height: u32, png: Vec<u8> },
}

/// What a [`Change`] says.
#[verifier::ext_equal]
pub enum Changed {
    Text(Seq<char>),
    Image { width: u32, height: u32, png: Seq<u8> },
}

impl View for Change {
    type V = Changed;

    open spec fn view(&self) -> Changed {
        match *self {
            Change::Text(text) => Changed::Text(text@),
            Change::Image { width, height, png } => Changed::Image { width, height, png: png@ },
        }
    }
}

/// What an optional change says.
pub open spec fn opt_change(o: Option<Change>) -> Option<Changed> {
    match o {
        Some(c) => Some(c@),
        None => None,
    }
}

/// The message that carries a change.
pub open spec fn change_message(c: Changed) -> Msg {
    match c {
        Changed::Text(text) => Msg::ClipText { text },
        Changed::Image { width, height, png } => Msg::ClipImage { width, height, png },
    }
}

/// The kind of a change.
pub open spec fn change_kind(c: Changed) -> ClipboardKind {
    match c {
        Changed::Text(_) => ClipboardKind::Text,
        Changed::Image { .. } => ClipboardKind::Image,
    }
}

impl Change {
    /// The message that carries this change, and its kind.
    pub fn into_message(self) -> (r: (SyncMessage, ClipboardKind))
        ensures
            r.0@ == change_message(self@),
            r.1 == change_kind(self@),
    {
        match self {
            Change::Text(text) => (SyncMessage::ClipText { text }, ClipboardKind::Text),
            Change::Image { width, height, png } => (
                SyncMessage::ClipImage { width, height, png },
                ClipboardKind::Image,
            ),
        }
    }
}

/// An uncompressed image: four bytes a pixel.
#[derive(Debug)]
pub struct Image {
    pub width: usize,
    pub height: usize,
    pub bytes: Vec<u8>,
}

/// What an [`Image`] is.
#[verifier::ext_equal]
pub struct Picture {
    pub width: usize,
    pub height: usize,
    pub bytes: Seq<u8>,
}

impl View for Image {
    type V = Picture;

    open spec fn view(&self) -> Picture {
        Picture { width: self.width, height: self.height, bytes: self.bytes@ }
    }
}

/// What an optional image is.
pub open spec fn opt_picture(o: Option<Image>) -> Option<Picture> {
    match o {
        Some(i) => Some(i@),
        None => None,
    }
}

/* ------------------------------ fingerprints ------------------------------ */

/// The eight bytes of `n`, least significant first.
pub open spec fn le_bytes(n: u64) -> Seq<u8> {
    seq![
        (n % 0x100) as u8,
        (n / 0x100 % 0x100) as u8,
        (n / 0x1_0000 % 0x100) as u8,
        (n / 0x100_0000 % 0x100) as u8,
        (n / 0x1_0000_0000 % 0x100) as u8,
        (n / 0x100_0000_0000 % 0x100) as u8,
        (n / 0x1_0000_0000_0000 % 0x100) as u8,
        (n / 0x100_0000_0000_0000 % 0x100) as u8,
    ]
}

/// What stands for a text.
pub open spec fn text_print(text: Seq<char>) -> Seq<u8> {
    sha256(encode_utf8("text"@) + encode_utf8(text))
}

/// The start of a list of bytes, as far as it goes into a fingerprint.
pub open spec fn prefix(bytes: Seq<u8>) -> Seq<u8> {
    if bytes.len() <= FINGERPRINT_PREFIX {
        bytes
    } else {
        bytes.take(FINGERPRINT_PREFIX as int)
    }
}

/// What stands for an image: its dimensions, its length and a prefix of the
/// pixel data. Enough to detect change without hashing 30 MB every poll.
pub open spec fn image_print(p: Picture) -> Seq<u8> {
    sha256(
        encode_utf8("image"@) + le_bytes(p.width as u64) + le_bytes(p.height as u64) + le_bytes(
            p.bytes.len() as u64,
        ) + prefix(p.bytes),
    )
}

fn push_bytes(out: &mut Vec<u8>, b: &[u8], n: usize)
    requires
        n <= b@.len(),
    ensures
        final(out)@ == old(out)@ + b@.take(n as int),
{
    let ghost before = out@;
    let mut i: usize = 0;
    assert(before + b@.take(0) =~= before);
    while i < n
        invariant
            i <= n <= b@.len(),
            out@ == before + b@.take(i as int),
        decreases n - i,
    {
        out.push(b[i]);
        i = i + 1;
        assert(b@.take(i as int) =~= b@.take(i - 1).push(b@[i - 1]));
    }
}

fn push_number(out: &mut Vec<u8>, n: u64)
    ensures
        final(out)@ == old(out)@ + le_bytes(n),
{
    out.push((n % 0x100) as u8);
    out.push((n / 0x100 % 0x100) as u8);
    out.push((n / 0x1_0000 % 0x100) as u8);
    out.push((n / 0x100_0000 % 0x100) as u8);
    out.push((n / 0x1_0000_0000 % 0x100) as u8);
    out.push((n / 0x100_0000_0000 % 0x100) as u8);
    out.push((n / 0x1_0000_0000_0000 % 0x100) as u8);
    out.push((n / 0x100_0000_0000_0000 % 0x100) as u8);
    assert(out@ =~= old(out)@ + le_bytes(n));
}

pub fn fingerprint_text(text: &str) -> (r: [u8; 32])
    ensures
        r@ == text_print(text@),
{
    let mut data: Vec<u8> = Vec::new();
    let tag = "text".as_bytes();
    push_bytes(&mut data, tag, tag.len());
    assert(tag@.take(tag@.len() as int) =~= tag@);
    let b = text.as_bytes();
    push_bytes(&mut data, b, b.len());
    assert(b@.take(b@.len() as int) =~= b@);
    assert(data@ =~= encode_utf8("text"@) + encode_utf8(text@));
    sha256_of(&data)
}

pub fn fingerprint_image(image: &Image) -> (r: [u8; 32])
    ensures
        r@ == image_print(image@),
{
    let mut data: Vec<u8> = Vec::new();
    let tag = "image".as_bytes();
    push_bytes(&mut data, tag, tag.len());
    assert(tag@.take(tag@.len() as int) =~= tag@);
    push_number(&mut data, image.width as u64);
    push_number(&mut data, image.height as u64);
    push_number(&mut data, image.bytes.len() as u64);
    let n: usize = if image.bytes.len() < FINGERPRINT_PREFIX {
        image.bytes.len()
    } else {
        FINGERPRINT_PREFIX
    };
    push_bytes(&mut data, image.bytes.as_slice(), n);
    assert(image.bytes@.take(n as int) =~= prefix(image.bytes@));
    assert(data@ =~= encode_utf8("image"@) + le_bytes(image.width as u64) + le_bytes(
        image.height as u64,
    ) + le_bytes(image.bytes@.len() as u64) + prefix(image.bytes@));
    sha256_of(&data)
}

/* ----------------------------------- png ----------------------------------- */

/// The PNG of an image of eight-bit RGBA pixels, if the `png` crate makes
/// one.
pub uninterp spec fn png_of(width: u32, height: u32, rgba: Seq<u8>) -> Option<Seq<u8>>;

/// What the header of a PNG says, if it is one: its colour type and bit
/// depth, as PNG numbers them, its width and its height.
pub uninterp spec fn png_header(png: Seq<u8>) -> Option<(u8, u8, u32, u32)>;

/// The first frame of a PNG: width, height and pixels.
pub uninterp spec fn png_frame(png: Seq<u8>) -> Option<(u32, u32, Seq<u8>)>;

/// `png::Encoder` and `png::Writer::write_image_data`, for eight-bit RGBA.
/// The pixels must be as many as the dimensions say. PNG loses nothing: if
/// what was written can be read, it reads back as what was written. That it
/// can be read is not claimed, since the decoder has limits of its own.
#[verifier::external_body]
fn png_encode(width: u32, height: u32, rgba: &Vec<u8>) -> (r: Option<Vec<u8>>)
    requires
        width > 0,
        height > 0,
        width * height * 4 == rgba@.len(),
    ensures
        (match r {
            Some(v) => Some(v@),
            None => None,
        }) == png_of(width, height, rgba@),
        r is Some && png_header(r->0@) is Some ==> png_header(r->0@)->0 == (
            RGBA_COLOR,
            EIGHT_BITS,
            width,
            height,
        ),
        r is Some && png_frame(r->0@) is Some ==> png_frame(r->0@)->0 == (width, height, rgba@),
{
    let mut out = Vec::new();
    let mut encoder = png::Encoder::new(std::io::Cursor::new(&mut out), width, height);
    encoder.set_color(png::ColorType::Rgba);
    encoder.set_depth(png::BitDepth::Eight);
    let mut writer = encoder.write_header().ok()?;
    writer.write_image_data(rgba).ok()?;
    writer.finish().ok()?;
    Some(out)
}

/// `png::Decoder::read_info`: what the header says. The crate's enums carry
/// PNG's own numbers for colour type and bit depth.
#[verifier::external_body]
fn png_read_info(png: &Vec<u8>) -> (r: Option<(u8, u8, u32, u32)>)
    ensures
        r == png_header(png@),
{
    let reader = png::Decoder::new(std::io::Cursor::new(png)).read_info().ok()?;
    let info = reader.info();
    Some((info.color_type as u8, info.bit_depth as u8, info.width, info.height))
}

/// `png::Reader::next_frame`: the pixels of the first frame. The header must
/// claim no more than the limits, so that the pixels find memory.
#[verifier::external_body]
fn png_next_frame(png: &Vec<u8>) -> (r: Option<(u32, u32, Vec<u8>)>)
    requires
        acceptable(png_header(png@)),
    ensures
        (match r {
            Some((w, h, v)) => Some((w, h, v@)),
            None => None,
        }) == png_frame(png@),
{
    let mut reader = png::Decoder::new(std::io::Cursor::new(png)).read_info().ok()?;
    let mut buf = vec![0u8; reader.output_buffer_size()];
    let frame = reader.next_frame(&mut buf).ok()?;
    buf.truncate(frame.buffer_size());
    Some((frame.width, frame.height, buf))
}

/// An image that is not refused for its header: eight-bit RGBA within the
/// limits.
pub open spec fn acceptable(header: Option<(u8, u8, u32, u32)>) -> bool {
    match header {
        Some((color, depth, w, h)) => color == RGBA_COLOR && depth == EIGHT_BITS && w
            <= MAX_IMAGE_DIM && h <= MAX_IMAGE_DIM && w * h * 4 <= MAX_IMAGE_BYTES,
        None => false,
    }
}

/// Whether an image with this header is accepted.
pub fn accepts(header: Option<(u8, u8, u32, u32)>) -> (r: bool)
    ensures
        r == acceptable(header),
{
    match header {
        Some((color, depth, w, h)) => {
            if color == RGBA_COLOR && depth == EIGHT_BITS && w <= MAX_IMAGE_DIM && h
                <= MAX_IMAGE_DIM {
                assert(w * h <= 16384 * 16384) by (nonlinear_arith)
                    requires
                        w <= 16384,
                        h <= 16384,
                ;
                w as u64 * h as u64 * 4 <= MAX_IMAGE_BYTES
            } else {
                false
            }
        },
        None => false,
    }
}

/// The image in a PNG, unless it is refused.
pub open spec fn decoded(png: Seq<u8>) -> Option<(u32, u32, Seq<u8>)> {
    if acceptable(png_header(png)) {
        png_frame(png)
    } else {
        None
    }
}

/// What a decoded image is.
pub open spec fn opt_pixels(o: Option<(u32, u32, Vec<u8>)>) -> Option<(u32, u32, Seq<u8>)> {
    match o {
        Some((w, h, v)) => Some((w, h, v@)),
        None => None,
    }
}

pub fn decode_png(png: &Vec<u8>) -> (r: Option<(u32, u32, Vec<u8>)>)
    ensures
        opt_pixels(r) == decoded(png@),
{
    if accepts(png_read_info(png)) {
        png_next_frame(png)
    } else {
        None
    }
}

/// The low 32 bits of a dimension.
pub open spec fn low(n: usize) -> u32 {
    (n as u64 % 0x1_0000_0000) as u32
}

/// The PNG of an image, if it has as many pixels as it claims.
pub open spec fn encoded(p: Picture) -> Option<Seq<u8>> {
    let w = low(p.width);
    let h = low(p.height);
    if w > 0 && h > 0 && w * h * 4 == p.bytes.len() {
        png_of(w, h, p.bytes)
    } else {
        None
    }
}

/// The bytes of an optional list.
pub open spec fn opt_bytes(o: Option<Vec<u8>>) -> Option<Seq<u8>> {
    match o {
        Some(v) => Some(v@),
        None => None,
    }
}

fn low_bits(n: usize) -> (r: u32)
    ensures
        r == low(n),
{
    (n as u64 % 0x1_0000_0000) as u32
}

/// A PNG that the other side accepts holds the image as it is here.
pub open spec fn carries(png: Seq<u8>, p: Picture) -> bool {
    decoded(png) is Some ==> decoded(png)->0 == (low(p.width), low(p.height), p.bytes)
}

pub fn encode_png(image: &Image) -> (r: Option<Vec<u8>>)
    ensures
        opt_bytes(r) == encoded(image@),
        r is Some ==> carries(r->0@, image@),
{
    let w: u32 = low_bits(image.width);
    let h: u32 = low_bits(image.height);
    assert(w * h <= 0xffff_ffff * 0xffff_ffff) by (nonlinear_arith)
        requires
            w <= 0xffff_ffff,
            h <= 0xffff_ffff,
    ;
    let pixels: u128 = w as u128 * h as u128 * 4;
    if w > 0 && h > 0 && pixels == image.bytes.len() as u128 {
        png_encode(w, h, &image.bytes)
    } else {
        None
    }
}

/* ---------------------------------- state ---------------------------------- */

/// Ring of recent fingerprints that must not be (re-)broadcast: the content
/// applied from the peer, its fingerprint as read back after the round-trip
/// through the system (which may re-encode images), and everything we sent.
/// A small ring rather than single slots so a clipboard-history manager
/// re-serving a third byte representation can't reopen an echo window.
pub struct Suppressed {
    pub ring: Vec<[u8; 32]>,
    /// set after applying a remote image whose read-back failed; the next
    /// observed image fingerprint is absorbed rather than echoed
    pub suppress_next_image: bool,
}

/// The fingerprints of a list.
pub open spec fn prints(v: Seq<[u8; 32]>) -> Seq<Seq<u8>> {
    v.map_values(|f: [u8; 32]| f@)
}

/// The ring with `fp` in it.
pub open spec fn remembered(ring: Seq<Seq<u8>>, fp: Seq<u8>) -> Seq<Seq<u8>> {
    if ring.contains(fp) {
        ring
    } else if ring.len() == SUPPRESS_RING {
        ring.drop_first().push(fp)
    } else {
        ring.push(fp)
    }
}

impl Suppressed {
    pub fn contains(&self, fp: &[u8; 32]) -> (r: bool)
        ensures
            r == prints(self.ring@).contains(fp@),
    {
        let ghost all = prints(self.ring@);
        let mut i: usize = 0;
        while i < self.ring.len()
            invariant
                i <= self.ring@.len(),
                all == prints(self.ring@),
                forall|k: int| 0 <= k < i ==> all[k] != fp@,
            decreases self.ring@.len() - i,
        {
            assert(all[i as int] == self.ring@[i as int]@);
            if same_digest(&self.ring[i], fp) {
                return true;
            }
            i = i + 1;
        }
        assert(all.len() == self.ring@.len());
        false
    }

    pub fn remember(&mut self, fp: [u8; 32])
        ensures
            prints(final(self).ring@) == remembered(prints(old(self).ring@), fp@),
            final(self).suppress_next_image == old(self).suppress_next_image,
    {
        let ghost before = self.ring@;
        assert(prints(before).len() == before.len());
        if self.contains(&fp) {
            return;
        }
        if self.ring.len() == SUPPRESS_RING {
            let _oldest = self.ring.remove(0);
            assert(prints(self.ring@) =~= prints(before).drop_first());
        }
        let ghost mid = self.ring@;
        self.ring.push(fp);
        assert(prints(self.ring@) =~= prints(mid).push(fp@));
    }
}

/// The latest content of one kind that went between the machines. What was
/// applied, as it came and as it reads back, and what was sent is never told
/// to the peer, whatever the ring has forgotten.
pub struct Latest {
    /// came from the peer, to be put on the clipboard
    pub came: Option<[u8; 32]>,
    /// came from the peer and was put on the clipboard
    pub applied: Option<[u8; 32]>,
    /// what the applied content reads back as
    pub landed: Option<[u8; 32]>,
    /// told to the peer
    pub sent: Option<[u8; 32]>,
}

/// What a [`Latest`] holds.
#[verifier::ext_equal]
pub struct Marks {
    pub came: Option<Seq<u8>>,
    pub applied: Option<Seq<u8>>,
    pub landed: Option<Seq<u8>>,
    pub sent: Option<Seq<u8>>,
}

impl View for Latest {
    type V = Marks;

    open spec fn view(&self) -> Marks {
        Marks {
            came: opt_print(self.came),
            applied: opt_print(self.applied),
            landed: opt_print(self.landed),
            sent: opt_print(self.sent),
        }
    }
}

impl Marks {
    pub open spec fn none() -> Marks {
        Marks { came: None, applied: None, landed: None, sent: None }
    }

    /// Whether `fp` is what was applied or sent last.
    pub open spec fn hold(self, fp: Seq<u8>) -> bool {
        ||| self.applied == Some(fp)
        ||| self.landed == Some(fp)
        ||| self.sent == Some(fp)
    }

    /// Content came from the peer.
    pub open spec fn arrive(self, fp: Seq<u8>) -> Marks {
        Marks { came: Some(fp), ..self }
    }

    /// What came is on the clipboard, and reads back as this, if at all.
    pub open spec fn land(self, readback: Option<Seq<u8>>) -> Marks {
        Marks { applied: self.came, landed: readback, ..self }
    }

    /// What is on the clipboard turns out to read as this.
    pub open spec fn absorb(self, fp: Seq<u8>) -> Marks {
        Marks { landed: Some(fp), ..self }
    }

    /// Content is told to the peer.
    pub open spec fn tell(self, fp: Seq<u8>) -> Marks {
        Marks { sent: Some(fp), ..self }
    }
}

fn is_print(o: &Option<[u8; 32]>, fp: &[u8; 32]) -> (r: bool)
    ensures
        r == (opt_print(*o) == Some(fp@)),
{
    match o {
        Some(f) => same_digest(f, fp),
        None => false,
    }
}

impl Latest {
    fn none() -> (r: Latest)
        ensures
            r@ == Marks::none(),
    {
        Latest { came: None, applied: None, landed: None, sent: None }
    }

    fn holds(&self, fp: &[u8; 32]) -> (r: bool)
        ensures
            r == self@.hold(fp@),
    {
        is_print(&self.applied, fp) || is_print(&self.landed, fp) || is_print(&self.sent, fp)
    }
}

/// What is known of the clipboard.
pub struct ClipboardMonitor {
    pub suppressed: Suppressed,
    pub text: Latest,
    pub image: Latest,
    /// fingerprint of the clipboard content as of the last poll
    pub last_seen: Option<[u8; 32]>,
    /// whether the last poll without text looked at images
    pub check_image: bool,
}

/// What a [`ClipboardMonitor`] knows.
#[verifier::ext_equal]
pub struct Clip {
    pub ring: Seq<Seq<u8>>,
    pub suppress_next_image: bool,
    pub text: Marks,
    pub image: Marks,
    pub last_seen: Option<Seq<u8>>,
    pub check_image: bool,
}

/// What an optional fingerprint is.
pub open spec fn opt_print(o: Option<[u8; 32]>) -> Option<Seq<u8>> {
    match o {
        Some(f) => Some(f@),
        None => None,
    }
}

impl View for ClipboardMonitor {
    type V = Clip;

    open spec fn view(&self) -> Clip {
        Clip {
            ring: prints(self.suppressed.ring@),
            suppress_next_image: self.suppressed.suppress_next_image,
            text: self.text@,
            image: self.image@,
            last_seen: opt_print(self.last_seen),
            check_image: self.check_image,
        }
    }
}

/// What a poll for text leads to.
#[derive(Debug)]
pub enum Poll {
    /// nothing more in this poll
    Idle,
    /// look for an image next ([`ClipboardMonitor::poll_image`])
    LookForImage,
    /// tell the peer
    Tell(Change),
}

/// What a [`Poll`] is.
#[verifier::ext_equal]
pub enum Polled {
    Idle,
    LookForImage,
    Tell(Changed),
}

impl View for Poll {
    type V = Polled;

    open spec fn view(&self) -> Polled {
        match *self {
            Poll::Idle => Polled::Idle,
            Poll::LookForImage => Polled::LookForImage,
            Poll::Tell(c) => Polled::Tell(c@),
        }
    }
}

impl Clip {
    pub open spec fn remember(self, fp: Seq<u8>) -> Clip {
        Clip { ring: remembered(self.ring, fp), ..self }
    }

    pub open spec fn see(self, fp: Seq<u8>) -> Clip {
        Clip { last_seen: Some(fp), ..self }
    }

    /// Nothing is known yet.
    pub open spec fn fresh() -> Clip {
        Clip {
            ring: Seq::empty(),
            suppress_next_image: false,
            text: Marks::none(),
            image: Marks::none(),
            last_seen: None,
            check_image: false,
        }
    }

    /// Text from the peer is about to go on the clipboard.
    pub open spec fn on_text(self, text: Seq<char>) -> Clip {
        let fp = text_print(text);
        Clip { text: self.text.arrive(fp), ..self.remember(fp) }
    }

    /// Text from the peer is on the clipboard, and reads back as this.
    pub open spec fn on_text_landed(self, readback: Option<Seq<char>>) -> Clip {
        match readback {
            Some(text) => {
                let fp = text_print(text);
                Clip { text: self.text.land(Some(fp)), ..self.remember(fp).see(fp) }
            },
            None => Clip { text: self.text.land(None), ..self },
        }
    }

    /// An image from the peer was decoded.
    pub open spec fn on_decoded(self, image: Option<(u32, u32, Seq<u8>)>) -> (Clip, Option<Picture>) {
        match image {
            Some((w, h, bytes)) => {
                let p = Picture { width: w as usize, height: h as usize, bytes };
                let fp = image_print(p);
                (Clip { image: self.image.arrive(fp), ..self.remember(fp) }, Some(p))
            },
            None => (self, None),
        }
    }

    /// An image from the peer is on the clipboard, and reads back as this.
    pub open spec fn on_image_landed(self, readback: Option<Picture>) -> Clip {
        match readback {
            Some(p) => {
                let fp = image_print(p);
                Clip { image: self.image.land(Some(fp)), ..self.remember(fp).see(fp) }
            },
            None => Clip { suppress_next_image: true, image: self.image.land(None), ..self },
        }
    }

    /// The clipboard was asked for text.
    pub open spec fn on_poll(self, enabled: bool, text: Option<Seq<char>>) -> (Clip, Polled) {
        if !enabled {
            (self, Polled::Idle)
        } else if text is Some && text->0.len() > 0 {
            let fp = text_print(text->0);
            if self.last_seen == Some(fp) {
                (self, Polled::Idle)
            } else if self.ring.contains(fp) || self.text.hold(fp) {
                (self.see(fp), Polled::Idle)
            } else {
                (
                    Clip { text: self.text.tell(fp), ..self.see(fp).remember(fp) },
                    Polled::Tell(Changed::Text(text->0)),
                )
            }
        } else {
            (
                Clip { check_image: !self.check_image, ..self },
                if self.check_image {
                    Polled::Idle
                } else {
                    Polled::LookForImage
                },
            )
        }
    }

    /// An image that is news was encoded, or could not be.
    pub open spec fn on_encoded(self, p: Picture, png: Option<Seq<u8>>) -> (Clip, Option<Changed>) {
        match png {
            Some(png) => (
                Clip {
                    image: self.image.tell(image_print(p)),
                    ..self.remember(image_print(p))
                },
                Some(Changed::Image { width: low(p.width), height: low(p.height), png }),
            ),
            None => (self, None),
        }
    }

    /// The clipboard was asked for an image.
    pub open spec fn on_image(self, image: Option<Picture>) -> (Clip, Option<Changed>) {
        match image {
            None => (self, None),
            Some(p) => {
                let fp = image_print(p);
                if self.last_seen == Some(fp) {
                    (self, None)
                } else if self.suppress_next_image {
                    // the first image seen after a remote one whose read-back
                    // failed, so a re-encoded copy isn't echoed
                    (
                        Clip {
                            suppress_next_image: false,
                            image: self.image.absorb(fp),
                            ..self.see(fp)
                        }.remember(fp),
                        None,
                    )
                } else if self.ring.contains(fp) || self.image.hold(fp) {
                    (self.see(fp), None)
                } else {
                    self.see(fp).on_encoded(p, encoded(p))
                }
            },
        }
    }
}

impl ClipboardMonitor {
    pub fn new() -> (r: ClipboardMonitor)
        ensures
            r@ == Clip::fresh(),
    {
        let r = ClipboardMonitor {
            suppressed: Suppressed { ring: Vec::new(), suppress_next_image: false },
            text: Latest::none(),
            image: Latest::none(),
            last_seen: None,
            check_image: false,
        };
        assert(r@.ring =~= Seq::<Seq<u8>>::empty());
        r
    }

    fn was_seen(&self, fp: &[u8; 32]) -> (r: bool)
        ensures
            r == (self@.last_seen == Some(fp@)),
    {
        is_print(&self.last_seen, fp)
    }

    /// Text from the peer is about to go on the clipboard.
    pub fn apply_text(&mut self, text: &str)
        ensures
            final(self)@ == old(self)@.on_text(text@),
    {
        let fp = fingerprint_text(text);
        self.suppressed.remember(fp);
        self.text.came = Some(fp);
    }

    /// Text from the peer is on the clipboard, and reads back as this: that
    /// is what future polls will see.
    pub fn text_landed(&mut self, readback: Option<String>)
        ensures
            final(self)@ == old(self)@.on_text_landed(crate::ipc::opt_text(readback)),
    {
        self.text.applied = self.text.came;
        match readback {
            Some(text) => {
                let fp = fingerprint_text(text.as_str());
                self.suppressed.remember(fp);
                self.text.landed = Some(fp);
                self.last_seen = Some(fp);
            },
            None => {
                self.text.landed = None;
            },
        }
    }

    /// An image from the peer: what is to go on the clipboard, if it can be
    /// decoded.
    pub fn apply_image(&mut self, png: &Vec<u8>) -> (r: Option<Image>)
        ensures
            (final(self)@, opt_picture(r)) == old(self)@.on_decoded(decoded(png@)),
    {
        let image = decode_png(png);
        self.apply_decoded(image)
    }

    /// An image from the peer was decoded: what is to go on the clipboard.
    pub fn apply_decoded(&mut self, image: Option<(u32, u32, Vec<u8>)>) -> (r: Option<Image>)
        ensures
            (final(self)@, opt_picture(r)) == old(self)@.on_decoded(opt_pixels(image)),
    {
        match image {
            Some((w, h, bytes)) => {
                let i = Image { width: w as usize, height: h as usize, bytes };
                let fp = fingerprint_image(&i);
                self.suppressed.remember(fp);
                self.image.came = Some(fp);
                Some(i)
            },
            None => None,
        }
    }

    /// An image from the peer is on the clipboard, and reads back as this.
    /// The system may re-encode it; if it could not be read back, the next
    /// image seen is absorbed instead.
    pub fn image_landed(&mut self, readback: Option<Image>)
        ensures
            final(self)@ == old(self)@.on_image_landed(opt_picture(readback)),
    {
        self.image.applied = self.image.came;
        match readback {
            Some(i) => {
                let fp = fingerprint_image(&i);
                self.suppressed.remember(fp);
                self.image.landed = Some(fp);
                self.last_seen = Some(fp);
            },
            None => {
                self.image.landed = None;
                self.suppressed.suppress_next_image = true;
            },
        }
    }

    /// The clipboard was asked for text. While sync is off it is left alone.
    pub fn poll_text(&mut self, enabled: bool, text: Option<String>) -> (r: Poll)
        ensures
            (final(self)@, r@) == old(self)@.on_poll(enabled, crate::ipc::opt_text(text)),
    {
        if !enabled {
            return Poll::Idle;
        }
        if let Some(text) = text {
            if !text.as_str().is_empty() {
                assert(text@.len() > 0);
                let fp = fingerprint_text(text.as_str());
                if self.was_seen(&fp) {
                    return Poll::Idle;
                }
                self.last_seen = Some(fp);
                if self.suppressed.contains(&fp) || self.text.holds(&fp) {
                    return Poll::Idle;
                }
                self.suppressed.remember(fp);
                self.text.sent = Some(fp);
                return Poll::Tell(Change::Text(text));
            }
            assert(text@.len() == 0);
        }
        self.check_image = !self.check_image;
        if self.check_image {
            Poll::LookForImage
        } else {
            Poll::Idle
        }
    }

    /// An image that is news was encoded, or could not be.
    pub fn image_encoded(&mut self, image: &Image, png: Option<Vec<u8>>) -> (r: Option<Change>)
        ensures
            (final(self)@, opt_change(r)) == old(self)@.on_encoded(image@, opt_bytes(png)),
    {
        match png {
            Some(png) => {
                let fp = fingerprint_image(image);
                self.suppressed.remember(fp);
                self.image.sent = Some(fp);
                Some(
                    Change::Image {
                        width: low_bits(image.width),
                        height: low_bits(image.height),
                        png,
                    },
                )
            },
            None => None,
        }
    }

    /// The clipboard was asked for an image.
    pub fn poll_image(&mut self, image: Option<Image>) -> (r: Option<Change>)
        ensures
            (final(self)@, opt_change(r)) == old(self)@.on_image(opt_picture(image)),
            // what is told is the image that is on the clipboard
            r is Some ==> image is Some && r->0 is Image && carries(r->0->png@, image->0@),
    {
        match image {
            None => None,
            Some(i) => {
                let fp = fingerprint_image(&i);
                if self.was_seen(&fp) {
                    return None;
                }
                self.last_seen = Some(fp);
                if self.suppressed.suppress_next_image {
                    self.suppressed.suppress_next_image = false;
                    self.suppressed.remember(fp);
                    self.image.landed = Some(fp);
                    return None;
                }
                if self.suppressed.contains(&fp) || self.image.holds(&fp) {
                    return None;
                }
                let png = encode_png(&i);
                self.image_encoded(&i, png)
            },
        }
    }
}

/* ---------------------------------- laws ---------------------------------- */

/// A fingerprint that was remembered is in the ring, and so are the seven
/// that came before it; the ring never outgrows its size, and holds nothing
/// twice.
pub proof fn the_ring_remembers(ring: Seq<Seq<u8>>, fp: Seq<u8>)
    requires
        ring.len() <= SUPPRESS_RING,
        ring.no_duplicates(),
    ensures
        remembered(ring, fp).contains(fp),
        remembered(ring, fp).len() <= SUPPRESS_RING,
        remembered(ring, fp).no_duplicates(),
        forall|i: int|
            0 <= i < ring.len() && i + (SUPPRESS_RING - 1) >= ring.len() ==> remembered(
                ring,
                fp,
            ).contains(#[trigger] ring[i]),
{
    let r = remembered(ring, fp);
    if !ring.contains(fp) {
        assert(r[r.len() - 1] == fp);
        assert forall|i: int|
            0 <= i < ring.len() && i + (SUPPRESS_RING - 1) >= ring.len() implies r.contains(
            #[trigger] ring[i],
        ) by {
            if ring.len() == SUPPRESS_RING {
                assert(r[i - 1] == ring[i]);
            } else {
                assert(r[i] == ring[i]);
            }
        }
        if ring.len() == SUPPRESS_RING {
            assert forall|i: int, j: int| 0 <= i < r.len() && 0 <= j < r.len() && i != j implies r[i]
                != r[j] by {
                if i < r.len() - 1 {
                    assert(r[i] == ring[i + 1]);
                }
                if j < r.len() - 1 {
                    assert(r[j] == ring[j + 1]);
                }
            }
        }
    }
}

/// What is remembered is never told to the peer, however often it is seen:
/// no copy loop can form.
pub proof fn remembered_content_is_not_told(
    c: Clip,
    enabled: bool,
    text: Option<Seq<char>>,
    image: Option<Picture>,
)
    ensures
        text is Some && (c.ring.contains(text_print(text->0)) || c.text.hold(text_print(text->0)))
            ==> !(c.on_poll(enabled, text).1 is Tell),
        image is Some && (c.ring.contains(image_print(image->0)) || c.image.hold(
            image_print(image->0),
        )) ==> c.on_image(image).1 is None,
{
}

/// One thing that happens to the clipboard.
pub enum ClipStep {
    /// [`ClipboardMonitor::apply_text`]
    ApplyText(Seq<char>),
    /// [`ClipboardMonitor::text_landed`]
    TextLanded(Option<Seq<char>>),
    /// [`ClipboardMonitor::apply_decoded`]
    ApplyImage(Option<(u32, u32, Seq<u8>)>),
    /// [`ClipboardMonitor::image_landed`]
    ImageLanded(Option<Picture>),
    /// [`ClipboardMonitor::poll_text`]
    PollText { enabled: bool, text: Option<Seq<char>> },
    /// [`ClipboardMonitor::poll_image`]
    PollImage(Option<Picture>),
    /// [`ClipboardMonitor::image_encoded`]
    Encoded { image: Picture, png: Option<Seq<u8>> },
}

impl Clip {
    /// What a step leads to, and what is told to the peer.
    pub open spec fn step(self, step: ClipStep) -> (Clip, Option<Changed>) {
        match step {
            ClipStep::ApplyText(text) => (self.on_text(text), None),
            ClipStep::TextLanded(readback) => (self.on_text_landed(readback), None),
            ClipStep::ApplyImage(image) => (self.on_decoded(image).0, None),
            ClipStep::ImageLanded(readback) => (self.on_image_landed(readback), None),
            ClipStep::PollText { enabled, text } => {
                let (c, polled) = self.on_poll(enabled, text);
                (
                    c,
                    match polled {
                        Polled::Tell(change) => Some(change),
                        _ => None,
                    },
                )
            },
            ClipStep::PollImage(image) => self.on_image(image),
            ClipStep::Encoded { image, png } => self.on_encoded(image, png),
        }
    }
}

/// What is known after a run of steps.
pub open spec fn known_after(run: Seq<ClipStep>) -> Clip
    decreases run.len(),
{
    if run.len() == 0 {
        Clip::fresh()
    } else {
        known_after(run.drop_last()).step(run.last()).0
    }
}

/// What the last step of a run tells the peer.
pub open spec fn told_last(run: Seq<ClipStep>) -> Option<Changed> {
    known_after(run.drop_last()).step(run.last()).1
}

/// The fingerprint of the last text that came from the peer.
pub open spec fn text_came(run: Seq<ClipStep>) -> Option<Seq<u8>>
    decreases run.len(),
{
    if run.len() == 0 {
        None
    } else {
        match run.last() {
            ClipStep::ApplyText(text) => Some(text_print(text)),
            _ => text_came(run.drop_last()),
        }
    }
}

/// The fingerprint of the last text from the peer that was put on the
/// clipboard.
pub open spec fn text_applied(run: Seq<ClipStep>) -> Option<Seq<u8>>
    decreases run.len(),
{
    if run.len() == 0 {
        None
    } else {
        match run.last() {
            ClipStep::TextLanded(_) => text_came(run.drop_last()),
            _ => text_applied(run.drop_last()),
        }
    }
}

/// The fingerprint that the last text put on the clipboard reads back as.
pub open spec fn text_landed_as(run: Seq<ClipStep>) -> Option<Seq<u8>>
    decreases run.len(),
{
    if run.len() == 0 {
        None
    } else {
        match run.last() {
            ClipStep::TextLanded(Some(text)) => Some(text_print(text)),
            ClipStep::TextLanded(None) => None,
            _ => text_landed_as(run.drop_last()),
        }
    }
}

/// The fingerprint of the last text that was told to the peer.
pub open spec fn text_told(run: Seq<ClipStep>) -> Option<Seq<u8>>
    decreases run.len(),
{
    if run.len() == 0 {
        None
    } else {
        match told_last(run) {
            Some(Changed::Text(text)) => Some(text_print(text)),
            _ => text_told(run.drop_last()),
        }
    }
}

/// The fingerprint of the last image that came from the peer.
pub open spec fn image_came(run: Seq<ClipStep>) -> Option<Seq<u8>>
    decreases run.len(),
{
    if run.len() == 0 {
        None
    } else {
        match run.last() {
            ClipStep::ApplyImage(Some((w, h, bytes))) => Some(
                image_print(Picture { width: w as usize, height: h as usize, bytes }),
            ),
            _ => image_came(run.drop_last()),
        }
    }
}

/// The fingerprint of the last image from the peer that was put on the
/// clipboard.
pub open spec fn image_applied(run: Seq<ClipStep>) -> Option<Seq<u8>>
    decreases run.len(),
{
    if run.len() == 0 {
        None
    } else {
        match run.last() {
            ClipStep::ImageLanded(_) => image_came(run.drop_last()),
            _ => image_applied(run.drop_last()),
        }
    }
}

/// The fingerprint that the last image put on the clipboard reads back as:
/// at once or, where it could not be read then, when an image was next seen.
pub open spec fn image_landed_as(run: Seq<ClipStep>) -> Option<Seq<u8>>
    decreases run.len(),
{
    if run.len() == 0 {
        None
    } else {
        let before = known_after(run.drop_last());
        match run.last() {
            ClipStep::ImageLanded(Some(p)) => Some(image_print(p)),
            ClipStep::ImageLanded(None) => None,
            ClipStep::PollImage(Some(p)) => if before.suppress_next_image && before.last_seen
                != Some(image_print(p)) {
                Some(image_print(p))
            } else {
                image_landed_as(run.drop_last())
            },
            _ => image_landed_as(run.drop_last()),
        }
    }
}

/// The image that a step looks at.
pub open spec fn looked_at(step: ClipStep) -> Picture {
    match step {
        ClipStep::PollImage(Some(p)) => p,
        ClipStep::Encoded { image, .. } => image,
        _ => arbitrary(),
    }
}

/// The fingerprint of the last image that was told to the peer.
pub open spec fn image_told(run: Seq<ClipStep>) -> Option<Seq<u8>>
    decreases run.len(),
{
    if run.len() == 0 {
        None
    } else {
        match told_last(run) {
            Some(Changed::Image { .. }) => Some(image_print(looked_at(run.last()))),
            _ => image_told(run.drop_last()),
        }
    }
}

/// What a step makes the latest text.
pub open spec fn text_marks(c: Clip, step: ClipStep) -> Marks {
    Marks {
        came: match step {
            ClipStep::ApplyText(text) => Some(text_print(text)),
            _ => c.text.came,
        },
        applied: match step {
            ClipStep::TextLanded(_) => c.text.came,
            _ => c.text.applied,
        },
        landed: match step {
            ClipStep::TextLanded(Some(text)) => Some(text_print(text)),
            ClipStep::TextLanded(None) => None,
            _ => c.text.landed,
        },
        sent: match c.step(step).1 {
            Some(Changed::Text(text)) => Some(text_print(text)),
            _ => c.text.sent,
        },
    }
}

/// What a step makes the latest image.
pub open spec fn image_marks(c: Clip, step: ClipStep) -> Marks {
    Marks {
        came: match step {
            ClipStep::ApplyImage(Some((w, h, bytes))) => Some(
                image_print(Picture { width: w as usize, height: h as usize, bytes }),
            ),
            _ => c.image.came,
        },
        applied: match step {
            ClipStep::ImageLanded(_) => c.image.came,
            _ => c.image.applied,
        },
        landed: match step {
            ClipStep::ImageLanded(Some(p)) => Some(image_print(p)),
            ClipStep::ImageLanded(None) => None,
            ClipStep::PollImage(Some(p)) => if c.suppress_next_image && c.last_seen != Some(
                image_print(p),
            ) {
                Some(image_print(p))
            } else {
                c.image.landed
            },
            _ => c.image.landed,
        },
        sent: match c.step(step).1 {
            Some(Changed::Image { .. }) => Some(image_print(looked_at(step))),
            _ => c.image.sent,
        },
    }
}

proof fn steps_mark_text(c: Clip, step: ClipStep)
    ensures
        c.step(step).0.text == text_marks(c, step),
{
}

proof fn steps_mark_images(c: Clip, step: ClipStep)
    ensures
        c.step(step).0.image == image_marks(c, step),
{
}

/// The latest text is known after any run, however much came in between.
pub proof fn the_latest_text_is_known(run: Seq<ClipStep>)
    ensures
        known_after(run).text == (Marks {
            came: text_came(run),
            applied: text_applied(run),
            landed: text_landed_as(run),
            sent: text_told(run),
        }),
    decreases run.len(),
{
    if run.len() > 0 {
        the_latest_text_is_known(run.drop_last());
        steps_mark_text(known_after(run.drop_last()), run.last());
    }
}

/// The latest image is known after any run, however much came in between.
pub proof fn the_latest_image_is_known(run: Seq<ClipStep>)
    ensures
        known_after(run).image == (Marks {
            came: image_came(run),
            applied: image_applied(run),
            landed: image_landed_as(run),
            sent: image_told(run),
        }),
    decreases run.len(),
{
    if run.len() > 0 {
        the_latest_image_is_known(run.drop_last());
        steps_mark_images(known_after(run.drop_last()), run.last());
    }
}

/// The last text applied from the peer is never told to it, neither as it
/// came nor as it reads back, and the last text told is never told again:
/// whatever was on the clipboard in between.
pub proof fn the_latest_text_is_not_told(run: Seq<ClipStep>, enabled: bool, text: Seq<char>)
    requires
        ({
            let fp = Some(text_print(text));
            text_applied(run) == fp || text_landed_as(run) == fp || text_told(run) == fp
        }),
    ensures
        !(known_after(run).on_poll(enabled, Some(text)).1 is Tell),
{
    the_latest_text_is_known(run);
}

/// The last image applied from the peer is never told to it, neither as it
/// came nor as it reads back, and the last image told is never told again:
/// whatever was on the clipboard in between.
pub proof fn the_latest_image_is_not_told(run: Seq<ClipStep>, image: Picture)
    requires
        ({
            let fp = Some(image_print(image));
            image_applied(run) == fp || image_landed_as(run) == fp || image_told(run) == fp
        }),
    ensures
        known_after(run).on_image(Some(image)).1 is None,
{
    the_latest_image_is_known(run);
}

/// The ring never outgrows its size and holds nothing twice, after any run.
pub proof fn the_ring_stays_small(run: Seq<ClipStep>)
    ensures
        known_after(run).ring.len() <= SUPPRESS_RING,
        known_after(run).ring.no_duplicates(),
    decreases run.len(),
{
    if run.len() > 0 {
        the_ring_stays_small(run.drop_last());
        let c = known_after(run.drop_last());
        match run.last() {
            ClipStep::ApplyText(text) => the_ring_remembers(c.ring, text_print(text)),
            ClipStep::TextLanded(Some(text)) => the_ring_remembers(c.ring, text_print(text)),
            ClipStep::ApplyImage(Some((w, h, bytes))) => the_ring_remembers(
                c.ring,
                image_print(Picture { width: w as usize, height: h as usize, bytes }),
            ),
            ClipStep::ImageLanded(Some(p)) => the_ring_remembers(c.ring, image_print(p)),
            ClipStep::PollText { text: Some(text), .. } => the_ring_remembers(
                c.ring,
                text_print(text),
            ),
            ClipStep::PollImage(Some(p)) => the_ring_remembers(c.ring, image_print(p)),
            ClipStep::Encoded { image, .. } => the_ring_remembers(c.ring, image_print(image)),
            _ => {},
        }
    }
}

/// An image whose read-back failed is not echoed either: the next new image
/// is absorbed.
pub proof fn unread_images_are_absorbed(c: Clip, p: Picture)
    ensures
        c.on_image_landed(None).on_image(Some(p)).1 is None,
{
}

} // verus!
