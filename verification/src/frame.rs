use vstd::prelude::*;

use crate::checksum::{crc16, crc16_spec, looks_like_text, looks_like_text_spec};
use crate::cursor::{le_u16, Cursor};
use crate::error::{DecodeError, ErrorKind, Result};
use crate::model::{frames_view, kind_of, Frame, FrameKind, FrameModel};

verus! {

/// The size of a frame header: kind, flags, channel, length and checksum.
pub open spec fn header_len() -> int {
    8
}

/// The error of a frame whose body runs past the end, at the frame's start.
pub open spec fn truncated_error(offset: int) -> DecodeError {
    DecodeError { kind: ErrorKind::UnexpectedEof, offset: offset as usize, detail: "frame body truncated" }
}

/// The error of a frame whose checksum does not match, at the frame's start.
pub open spec fn checksum_error(offset: int) -> DecodeError {
    DecodeError { kind: ErrorKind::BadChecksum, offset: offset as usize, detail: "frame checksum mismatch" }
}

/// The error of a stream with more than 512 frames, at the start of the last one.
pub open spec fn frame_limit_error(offset: int) -> DecodeError {
    DecodeError { kind: ErrorKind::LimitExceeded, offset: offset as usize, detail: "too many frames" }
}

/// The frame whose header starts at `p`, its body taken as it is.
pub open spec fn frame_at(d: Seq<u8>, p: int) -> FrameModel {
    FrameModel {
        kind: kind_of(d[p]),
        raw_kind: d[p],
        flags: d[p + 1],
        channel: le_u16(d, p + 2),
        checksum: le_u16(d, p + 6),
        payload: d.subrange(p + 8, p + 8 + le_u16(d, p + 4)),
    }
}

/// Reading frames from `d` at `p`, with `acc` read so far. A frame is read while at least a
/// header's worth of bytes is left. A body that runs past the end ends the read; it fails the
/// read when no frame came before it, unless the input looks like text (which is then read as
/// a manifest, see `parse_frames_spec`). A frame flagged `0x40` must carry the
/// CRC-16 of its body. More than 512 frames fail the read.
pub open spec fn frames_from(d: Seq<u8>, p: int, acc: Seq<FrameModel>) -> Result<Seq<FrameModel>>
    decreases d.len() - p,
{
    if p < 0 || d.len() - p < 8 {
        Ok(acc)
    } else {
        let len = le_u16(d, p + 4);
        if len > d.len() - (p + 8) {
            if acc.len() == 0 && !looks_like_text_spec(d) {
                Err(truncated_error(p))
            } else {
                Ok(acc)
            }
        } else {
            let f = frame_at(d, p);
            if f.flags & 0x40 != 0 && crc16_spec(f.payload) != f.checksum {
                Err(checksum_error(p))
            } else if acc.len() + 1 > 512 {
                Err(frame_limit_error(p))
            } else {
                frames_from(d, p + 8 + len, acc.push(f))
            }
        }
    }
}

/// The frame that a stream of text with no binary frame becomes: a manifest frame with the
/// whole input as its body.
pub open spec fn text_frame(d: Seq<u8>) -> FrameModel {
    FrameModel {
        kind: FrameKind::Manifest,
        raw_kind: 2,
        flags: 0,
        channel: 0,
        checksum: crc16_spec(d),
        payload: d,
    }
}

/// The frames of a stream.
pub open spec fn parse_frames_spec(d: Seq<u8>) -> Result<Seq<FrameModel>> {
    match frames_from(d, 0, Seq::empty()) {
        Ok(fs) => if fs.len() == 0 && looks_like_text_spec(d) {
            Ok(seq![text_frame(d)])
        } else {
            Ok(fs)
        },
        Err(e) => Err(e),
    }
}

/// The model of a result that carries frames.
pub open spec fn frames_result(r: Result<Vec<Frame>>) -> Result<Seq<FrameModel>> {
    match r {
        Ok(v) => Ok(frames_view(v@)),
        Err(e) => Err(e),
    }
}

/// The error of a stream that holds no frame.
pub open spec fn no_frame_error() -> DecodeError {
    DecodeError { kind: ErrorKind::InvalidFrame, offset: 0, detail: "no frame found" }
}

/// The first frame of a stream.
pub open spec fn parse_frame_spec(d: Seq<u8>) -> Result<FrameModel> {
    match parse_frames_spec(d) {
        Ok(fs) => if fs.len() > 0 {
            Ok(fs[0])
        } else {
            Err(no_frame_error())
        },
        Err(e) => Err(e),
    }
}

pub fn parse_frame(data: &[u8]) -> (r: Result<Frame>)
    ensures
        match r {
            Ok(f) => parse_frame_spec(data@) == Ok::<FrameModel, DecodeError>(f@),
            Err(e) => parse_frame_spec(data@) == Err::<FrameModel, DecodeError>(e),
        },
{
    let mut frames = parse_frames(data)?;
    if frames.len() == 0 {
        return Err(DecodeError::new(ErrorKind::InvalidFrame, 0, "no frame found"));
    }
    let ghost fs = frames@;
    let f = frames.remove(0);
    assert(f@ == frames_view(fs)[0]);
    Ok(f)
}

pub fn parse_frames(data: &[u8]) -> (r: Result<Vec<Frame>>)
    ensures
        frames_result(r) == parse_frames_spec(data@),
{
    let mut c = Cursor::new(data);
    let mut frames: Vec<Frame> = Vec::new();
    let ghost d = data@;
    assert(frames_view(frames@) == Seq::<FrameModel>::empty());
    while c.remaining() >= 8
        invariant_except_break
            frames_from(d, c.pos(), frames_view(frames@)) == frames_from(d, 0, Seq::empty()),
        invariant
            d == data@,
            c.bytes() == d,
            c.wf(),
            frames@.len() <= 512,
        ensures
            frames_from(d, 0, Seq::empty()) == Ok::<Seq<FrameModel>, DecodeError>(frames_view(frames@)),
        decreases d.len() - c.pos(),
    {
        let start = c.position();
        let raw_kind = c.u8()?;
        let flags = c.u8()?;
        let channel = c.u16()?;
        let len = c.u16()? as usize;
        let expected = c.u16()?;
        if len > c.remaining() {
            if frames.len() == 0 && !looks_like_text(data) {
                assert(frames_from(d, start as int, frames_view(frames@)) == Err::<Seq<FrameModel>, DecodeError>(truncated_error(start as int)));
                return Err(DecodeError::new(ErrorKind::UnexpectedEof, start, "frame body truncated"));
            }
            break;
        }
        let body = c.take(len)?;
        let payload = capture_payload(body);
        let frame = Frame {
            kind: FrameKind::from_byte(raw_kind),
            raw_kind,
            flags,
            channel,
            checksum: expected,
            payload,
        };
        assert(frame@ == frame_at(d, start as int));
        if flags & 0x40 != 0 && crc16(body) != expected {
            return Err(DecodeError::new(ErrorKind::BadChecksum, start, "frame checksum mismatch"));
        }
        if frames.len() + 1 > 512 {
            assert(frames_from(d, start as int, frames_view(frames@)) == Err::<Seq<FrameModel>, DecodeError>(frame_limit_error(start as int)));
            return Err(DecodeError::new(ErrorKind::LimitExceeded, start, "too many frames"));
        }
        let ghost before = frames@;
        frames.push(frame);
        assert(frames_view(frames@) == frames_view(before).push(frame@));
    }
    if frames.len() == 0 && looks_like_text(data) {
        let payload = capture_payload(data);
        frames.push(
            Frame {
                kind: FrameKind::Manifest,
                raw_kind: 2,
                flags: 0,
                channel: 0,
                checksum: crc16(data),
                payload,
            },
        );
        assert(frames_view(frames@) == seq![text_frame(d)]);
    }
    Ok(frames)
}

/// An owned copy of a byte slice.
fn capture_payload(bytes: &[u8]) -> (v: Vec<u8>)
    ensures
        v@ == bytes@,
{
    crate::arena::capture_bytes(bytes).bytes
}

/// The bytes of a well-formed frame of kind `kind`: flagged `0x40`, on channel 0, with the
/// CRC-16 of its body (the length field holds the body's length modulo 65536).
pub open spec fn encoded_frame(kind: u8, payload: Seq<u8>) -> Seq<u8> {
    let len = (payload.len() % 0x1_0000) as u16;
    let crc = crc16_spec(payload);
    seq![kind, 0x40u8, 0u8, 0u8, (len % 256) as u8, (len / 256) as u8, (crc % 256) as u8, (crc / 256) as u8] + payload
}

pub fn encode_frame_for_seed(kind: u8, payload: &[u8]) -> (out: Vec<u8>)
    ensures
        out@ == encoded_frame(kind, payload@),
{
    let mut out: Vec<u8> = Vec::new();
    let len = (payload.len() % 0x1_0000) as u16;
    let crc = crc16(payload);
    out.push(kind);
    out.push(0x40);
    out.push(0);
    out.push(0);
    out.push((len % 256) as u8);
    out.push((len / 256) as u8);
    out.push((crc % 256) as u8);
    out.push((crc / 256) as u8);
    let mut i: usize = 0;
    while i < payload.len()
        invariant
            0 <= i <= payload@.len(),
            out@ == seq![kind, 0x40u8, 0u8, 0u8, (len % 256) as u8, (len / 256) as u8, (crc % 256) as u8, (crc / 256) as u8] + payload@.take(i as int),
        decreases payload@.len() - i,
    {
        out.push(payload[i]);
        i = i + 1;
        assert(payload@.take(i as int) == payload@.take((i - 1) as int).push(payload@[i - 1]));
    }
    assert(payload@.take(payload@.len() as int) == payload@);
    out
}

/// A frame built by `encode_frame_for_seed` from a body of at most 65535 bytes reads back as
/// exactly one frame: of the given kind, flagged `0x40`, on channel 0, carrying the body and
/// its CRC-16.
pub proof fn lemma_encoded_frame_roundtrip(kind: u8, payload: Seq<u8>)
    requires
        payload.len() <= 0xffff,
    ensures
        parse_frames_spec(encoded_frame(kind, payload)) == Ok::<Seq<FrameModel>, DecodeError>(
            seq![
            FrameModel {
                kind: kind_of(kind),
                raw_kind: kind,
                flags: 0x40,
                channel: 0,
                checksum: crc16_spec(payload),
                payload: payload,
            },
        ],
        ),
{
    let d = encoded_frame(kind, payload);
    let len = payload.len() as u16;
    let crc = crc16_spec(payload);
    assert(le_u16(d, 4) == len);
    assert(le_u16(d, 6) == crc);
    assert(le_u16(d, 2) == 0);
    assert(d.subrange(8, 8 + len) == payload);
    let f = frame_at(d, 0);
    assert(frames_from(d, 8 + len, seq![f]) == Ok::<Seq<FrameModel>, DecodeError>(seq![f]));
    assert(seq![f] == Seq::<FrameModel>::empty().push(f));
}

} // verus!
