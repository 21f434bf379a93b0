//! Wire protocol of the sync channel (clipboard, file transfer, pairing).
//! Frames are a u32-BE length followed by an encoded [`SyncMessage`], sent
//! over the mutually-authenticated TLS stream.

use crate::ipc::opt_text;
use crate::text::{concat3, decimal, numeral};
use vstd::prelude::*;
use vstd::string::*;

verus! {

pub const PROTO_VERSION: u16 = 1;

/// Chunk size for file transfers.
pub const CHUNK_SIZE: usize = 262144;

/// Upper bound on a single frame; a chunk plus the overhead of its encoding
/// fits comfortably, anything larger is a protocol violation.
pub const MAX_FRAME_SIZE: u32 = 1048576;

#[derive(Debug)]
pub enum SyncMessage {
    /// sent by both sides right after the connection is established
    Hello { version: u16, name: String },
    /* clipboard */
    ClipText { text: String },
    ClipImage { width: u32, height: u32, png: Vec<u8> },
    /* file transfer */
    FileOffer { id: u64, name: String, size: u64 },
    FileAccept { id: u64 },
    FileReject { id: u64, reason: String },
    FileChunk { id: u64, offset: u64, data: Vec<u8> },
    FileDone { id: u64, sha256: [u8; 32] },
    FileCancel { id: u64, reason: String },
    /* pairing (only valid on a connection in pairing mode) */
    PairStart { spake_msg: Vec<u8>, name: String },
    PairResponse { spake_msg: Vec<u8>, name: String },
    PairConfirmA { mac: [u8; 32] },
    PairConfirmB { mac: [u8; 32] },
    Ping,
    Pong,
    /* drag-and-drop between machines */
    DragBegin { drag: u64, count: u32 },
    DragOffer { drag: u64, id: u64, name: String, size: u64 },
    DragDrop { drag: u64 },
    DragCancel { drag: u64 },
    /* folders */
    TreeOffer { tree: u64, name: String, files: u32, bytes: u64, drag: Option<u64> },
    TreeDir { tree: u64, rel: String },
    TreeFile { tree: u64, id: u64, rel: String, size: u64 },
    TreeEnd { tree: u64, error: Option<String> },
}

/// What a [`SyncMessage`] says.
#[verifier::ext_equal]
pub enum Msg {
    Hello { version: u16, name: Seq<char> },
    ClipText { text: Seq<char> },
    ClipImage { width: u32, height: u32, png: Seq<u8> },
    FileOffer { id: u64, name: Seq<char>, size: u64 },
    FileAccept { id: u64 },
    FileReject { id: u64, reason: Seq<char> },
    FileChunk { id: u64, offset: u64, data: Seq<u8> },
    FileDone { id: u64, sha256: Seq<u8> },
    FileCancel { id: u64, reason: Seq<char> },
    PairStart { spake_msg: Seq<u8>, name: Seq<char> },
    PairResponse { spake_msg: Seq<u8>, name: Seq<char> },
    PairConfirmA { mac: Seq<u8> },
    PairConfirmB { mac: Seq<u8> },
    Ping,
    Pong,
    DragBegin { drag: u64, count: u32 },
    DragOffer { drag: u64, id: u64, name: Seq<char>, size: u64 },
    DragDrop { drag: u64 },
    DragCancel { drag: u64 },
    TreeOffer { tree: u64, name: Seq<char>, files: u32, bytes: u64, drag: Option<u64> },
    TreeDir { tree: u64, rel: Seq<char> },
    TreeFile { tree: u64, id: u64, rel: Seq<char>, size: u64 },
    TreeEnd { tree: u64, error: Option<Seq<char>> },
}

impl View for SyncMessage {
    type V = Msg;

    open spec fn view(&self) -> Msg {
        match *self {
            SyncMessage::Hello { version, name } => Msg::Hello { version, name: name@ },
            SyncMessage::ClipText { text } => Msg::ClipText { text: text@ },
            SyncMessage::ClipImage { width, height, png } => Msg::ClipImage {
                width,
                height,
                png: png@,
            },
            SyncMessage::FileOffer { id, name, size } => Msg::FileOffer { id, name: name@, size },
            SyncMessage::FileAccept { id } => Msg::FileAccept { id },
            SyncMessage::FileReject { id, reason } => Msg::FileReject { id, reason: reason@ },
            SyncMessage::FileChunk { id, offset, data } => Msg::FileChunk {
                id,
                offset,
                data: data@,
            },
            SyncMessage::FileDone { id, sha256 } => Msg::FileDone { id, sha256: sha256@ },
            SyncMessage::FileCancel { id, reason } => Msg::FileCancel { id, reason: reason@ },
            SyncMessage::PairStart { spake_msg, name } => Msg::PairStart {
                spake_msg: spake_msg@,
                name: name@,
            },
            SyncMessage::PairResponse { spake_msg, name } => Msg::PairResponse {
                spake_msg: spake_msg@,
                name: name@,
            },
            SyncMessage::PairConfirmA { mac } => Msg::PairConfirmA { mac: mac@ },
            SyncMessage::PairConfirmB { mac } => Msg::PairConfirmB { mac: mac@ },
            SyncMessage::Ping => Msg::Ping,
            SyncMessage::Pong => Msg::Pong,
            SyncMessage::DragBegin { drag, count } => Msg::DragBegin { drag, count },
            SyncMessage::DragOffer { drag, id, name, size } => Msg::DragOffer {
                drag,
                id,
                name: name@,
                size,
            },
            SyncMessage::DragDrop { drag } => Msg::DragDrop { drag },
            SyncMessage::DragCancel { drag } => Msg::DragCancel { drag },
            SyncMessage::TreeOffer { tree, name, files, bytes, drag } => Msg::TreeOffer {
                tree,
                name: name@,
                files,
                bytes,
                drag,
            },
            SyncMessage::TreeDir { tree, rel } => Msg::TreeDir { tree, rel: rel@ },
            SyncMessage::TreeFile { tree, id, rel, size } => Msg::TreeFile {
                tree,
                id,
                rel: rel@,
                size,
            },
            SyncMessage::TreeEnd { tree, error } => Msg::TreeEnd { tree, error: opt_text(error) },
        }
    }
}

/* -------------------------------- frames -------------------------------- */

/// Why a frame cannot be read.
#[derive(Debug)]
pub enum ProtoError {
    /// announced length, over the limit
    FrameTooLarge(u32),
}

impl ProtoError {
    /// What is wrong, in words.
    pub fn message(&self) -> (r: String)
        ensures
            r@ == "frame of "@ + numeral(self->FrameTooLarge_0 as nat) + " bytes exceeds limit"@,
    {
        match self {
            ProtoError::FrameTooLarge(len) => {
                let n = decimal(*len as u64);
                concat3("frame of ", n.as_str(), " bytes exceeds limit")
            },
        }
    }
}

/// The number that four bytes stand for, most significant first.
pub open spec fn be_value(b: Seq<u8>) -> int {
    b[0] * 0x100_0000 + b[1] * 0x1_0000 + b[2] * 0x100 + b[3]
}

/// The four bytes of `n`, most significant first.
pub open spec fn be_bytes(n: int) -> Seq<u8> {
    seq![
        (n / 0x100_0000) as u8,
        (n / 0x1_0000 % 0x100) as u8,
        (n / 0x100 % 0x100) as u8,
        (n % 0x100) as u8,
    ]
}

/// A payload as it goes over the wire. The length field holds the low 32
/// bits of the length.
pub open spec fn framed(payload: Seq<u8>) -> Seq<u8> {
    be_bytes(payload.len() as int % 0x1_0000_0000) + payload
}

/// What the head of a stream of bytes holds.
#[derive(Debug)]
pub enum Frame {
    /// not enough bytes yet
    Partial,
    /// a whole payload, and the number of bytes that it took
    Whole { payload: Vec<u8>, used: usize },
}

/// The frame that carries `payload`.
pub fn frame(payload: &Vec<u8>) -> (r: Vec<u8>)
    ensures
        r@ == framed(payload@),
{
    let n: u32 = (payload.len() as u64 % 0x1_0000_0000u64) as u32;
    let mut r: Vec<u8> = Vec::new();
    r.push((n / 0x100_0000) as u8);
    r.push((n / 0x1_0000 % 0x100) as u8);
    r.push((n / 0x100 % 0x100) as u8);
    r.push((n % 0x100) as u8);
    assert(r@ =~= be_bytes(n as int));
    let mut i: usize = 0;
    while i < payload.len()
        invariant
            i <= payload@.len(),
            r@ == be_bytes(n as int) + payload@.take(i as int),
        decreases payload@.len() - i,
    {
        r.push(payload[i]);
        i = i + 1;
        assert(payload@.take(i as int) =~= payload@.take(i - 1).push(payload@[i - 1]));
    }
    assert(payload@.take(i as int) =~= payload@);
    r
}

/// Whether a payload of this length is one that the peer takes: a frame with
/// a longer one would end the connection.
pub fn fits_frame(len: usize) -> (r: bool)
    ensures
        r == (len <= MAX_FRAME_SIZE),
{
    len <= MAX_FRAME_SIZE as usize
}

/// The payload length that a frame's first four bytes announce.
pub fn frame_len(head: [u8; 4]) -> (r: Result<u32, ProtoError>)
    ensures
        be_value(head@) <= MAX_FRAME_SIZE ==> r is Ok && r->Ok_0 == be_value(head@),
        be_value(head@) > MAX_FRAME_SIZE ==> r is Err && r->Err_0->FrameTooLarge_0 == be_value(
            head@,
        ),
{
    let n: u32 = head[0] as u32 * 0x100_0000 + head[1] as u32 * 0x1_0000 + head[2] as u32 * 0x100
        + head[3] as u32;
    if n > MAX_FRAME_SIZE {
        Err(ProtoError::FrameTooLarge(n))
    } else {
        Ok(n)
    }
}

/// The payload of the frame at the head of `bytes`, if all of it is there and
/// it is not too long.
pub open spec fn payload_in(bytes: Seq<u8>) -> Option<Seq<u8>> {
    if bytes.len() >= 4 && be_value(bytes) <= MAX_FRAME_SIZE && bytes.len() >= 4 + be_value(
        bytes,
    ) {
        Some(bytes.subrange(4, 4 + be_value(bytes)))
    } else {
        None
    }
}

/// Take one frame off the head of `bytes`.
pub fn read_frame(bytes: &Vec<u8>) -> (r: Result<Frame, ProtoError>)
    ensures
        (bytes@.len() < 4 || be_value(bytes@) <= MAX_FRAME_SIZE && bytes@.len() < 4 + be_value(
            bytes@,
        )) <==> r matches Ok(Frame::Partial),
        (bytes@.len() >= 4 && be_value(bytes@) > MAX_FRAME_SIZE) ==> (r matches Err(
            ProtoError::FrameTooLarge(n),
        ) && n == be_value(bytes@)),
        (bytes@.len() >= 4 && be_value(bytes@) <= MAX_FRAME_SIZE && bytes@.len() >= 4 + be_value(
            bytes@,
        )) ==> (r matches Ok(Frame::Whole { payload, used }) && used == 4 + be_value(bytes@)
            && payload@ == bytes@.subrange(4, used as int)),
        payload_in(bytes@) is Some <==> (r matches Ok(Frame::Whole { .. })),
        r matches Ok(Frame::Whole { payload, used }) ==> Some(payload@) == payload_in(bytes@)
            && used == 4 + payload@.len(),
{
    if bytes.len() < 4 {
        return Ok(Frame::Partial);
    }
    let head: [u8; 4] = [bytes[0], bytes[1], bytes[2], bytes[3]];
    match frame_len(head) {
        Err(ProtoError::FrameTooLarge(n)) => Err(ProtoError::FrameTooLarge(n)),
        Ok(len) => {
            let used: usize = 4 + len as usize;
            if bytes.len() < used {
                return Ok(Frame::Partial);
            }
            let mut payload: Vec<u8> = Vec::new();
            let mut i: usize = 4;
            while i < used
                invariant
                    4 <= i <= used <= bytes@.len(),
                    payload@ == bytes@.subrange(4, i as int),
                decreases used - i,
            {
                payload.push(bytes[i]);
                i = i + 1;
                assert(bytes@.subrange(4, i as int) =~= bytes@.subrange(4, i - 1).push(
                    bytes@[i - 1],
                ));
            }
            Ok(Frame::Whole { payload, used })
        },
    }
}

proof fn bytes_make_up(n: u32)
    ensures
        n == (n / 0x100_0000) * 0x100_0000 + (n / 0x1_0000 % 0x100) * 0x1_0000 + (n / 0x100 % 0x100)
            * 0x100 + n % 0x100,
        n / 0x100_0000 < 0x100,
{
    assert(n == (n / 0x100_0000) * 0x100_0000 + (n / 0x1_0000 % 0x100) * 0x1_0000 + (n / 0x100
        % 0x100) * 0x100 + n % 0x100) by (bit_vector);
    assert(n / 0x100_0000 < 0x100) by (bit_vector);
}

/// A payload within the limit is read back from the frame that carries it,
/// whatever follows on the stream; one over the limit (and within what the
/// length field holds) is announced as too large.
pub proof fn frames_read_back(payload: Seq<u8>, rest: Seq<u8>)
    requires
        payload.len() < 0x1_0000_0000,
    ensures
        be_value(framed(payload) + rest) == payload.len(),
        (framed(payload) + rest).subrange(4, 4 + payload.len() as int) == payload,
{
    let n = payload.len() as u32;
    let s = framed(payload) + rest;
    bytes_make_up(n);
    assert(s.subrange(4, 4 + payload.len() as int) =~= payload);
    assert(s[0] == (n / 0x100_0000) as u8 && s[1] == (n / 0x1_0000 % 0x100) as u8 && s[2] == (n
        / 0x100 % 0x100) as u8 && s[3] == (n % 0x100) as u8);
}

} // verus!
