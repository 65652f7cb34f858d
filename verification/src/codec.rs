//! Reading and writing HTTP/2 frames over byte buffers: the 9-byte header,
//! each frame type's payload layout, and the errors a malformed frame yields.
use vstd::prelude::*;
use crate::bytes::{be16_val, be24_val, be32_val, be16_bytes, be24_bytes, be32_bytes, be16_from,
    be24_from, be32_from, push_be16, push_be24, push_be32};
use crate::flags;
use crate::flags::{flag_set, is_set};
use crate::frames::{Frame, FrameModel, PriorityInfo, spec_dependency_field, header_bytes,
    settings_bytes, settings_entry_bytes, stream_id_ok, lemma_mask31, FRAME_TYPE_DATA,
    FRAME_TYPE_HEADERS, FRAME_TYPE_PRIORITY, FRAME_TYPE_RST_STREAM, FRAME_TYPE_SETTINGS,
    FRAME_TYPE_PUSH_PROMISE, FRAME_TYPE_PING, FRAME_TYPE_GO_AWAY, FRAME_TYPE_WINDOW_UPDATE,
    FRAME_TYPE_CONTINUATION, MAX_PAYLOAD_LEN, STREAM_ID_LIMIT};

verus! {

/// Everything that can go wrong reading or writing a frame. A violated
/// structural invariant is reported through one of these; no partial frame is
/// ever returned.
#[derive(Debug)]
pub enum FrameError {
    /// The input ended before the frame did; carries the context read.
    ReadFailed(&'static str),
    /// The output could not take the frame; carries the context written.
    WriteFailed(&'static str),
    InvalidFrameSize(),
    StreamIdForbidden(),
    StreamIdRequired(),
    Unrecognized(u8),
}

pub type FrameResult = Result<Frame, FrameError>;

/// The abstract classification of a read failure, payload-free so that
/// contracts can state exactly which error a malformed input yields.
pub ghost enum FrameErrorKind {
    Truncated,
    BadSize,
    IdRequired,
    IdForbidden,
    Unknown { ty: u8 },
}

/// Whether the returned error is of the classified kind.
pub open spec fn err_matches(e: FrameError, k: FrameErrorKind) -> bool {
    match k {
        FrameErrorKind::Truncated => e is ReadFailed,
        FrameErrorKind::BadSize => e is InvalidFrameSize,
        FrameErrorKind::IdRequired => e is StreamIdRequired,
        FrameErrorKind::IdForbidden => e is StreamIdForbidden,
        FrameErrorKind::Unknown { ty } => e matches FrameError::Unrecognized(t) && t == ty,
    }
}

/// The bytes that precede the body proper in a payload: the pad-length byte,
/// the 5-byte priority section of a Headers frame, the 4-byte promised stream
/// id of a PushPromise frame.
pub open spec fn prefix_len(ty: u8, fl: u8) -> int {
    if ty == FRAME_TYPE_DATA {
        if flag_set(fl, flags::PADDED) {
            1int
        } else {
            0int
        }
    } else if ty == FRAME_TYPE_HEADERS {
        (if flag_set(fl, flags::PADDED) {
            1int
        } else {
            0int
        }) + (if flag_set(fl, flags::PRIORITY) {
            5int
        } else {
            0int
        })
    } else if ty == FRAME_TYPE_PUSH_PROMISE {
        (if flag_set(fl, flags::PADDED) {
            1int
        } else {
            0int
        }) + 4int
    } else {
        0int
    }
}

/// The structural checks that need only the frame header: the stream-id rules
/// and the fixed-size rules of the frame table, checked in the order the
/// reader applies them.
pub open spec fn pre_failure(len: int, ty: u8, fl: u8, sid: u32) -> Option<FrameErrorKind> {
    if ty == FRAME_TYPE_DATA {
        if sid == 0 {
            Some(FrameErrorKind::IdRequired)
        } else if flag_set(fl, flags::PADDED) && len == 0 {
            Some(FrameErrorKind::BadSize)
        } else {
            None
        }
    } else if ty == FRAME_TYPE_HEADERS {
        if sid == 0 {
            Some(FrameErrorKind::IdRequired)
        } else if len < prefix_len(ty, fl) {
            Some(FrameErrorKind::BadSize)
        } else {
            None
        }
    } else if ty == FRAME_TYPE_PRIORITY {
        if len != 5 {
            Some(FrameErrorKind::BadSize)
        } else if sid == 0 {
            Some(FrameErrorKind::IdRequired)
        } else {
            None
        }
    } else if ty == FRAME_TYPE_RST_STREAM {
        if len != 4 {
            Some(FrameErrorKind::BadSize)
        } else if sid == 0 {
            Some(FrameErrorKind::IdRequired)
        } else {
            None
        }
    } else if ty == FRAME_TYPE_SETTINGS {
        if len % 6 != 0 {
            Some(FrameErrorKind::BadSize)
        } else if sid != 0 {
            Some(FrameErrorKind::IdForbidden)
        } else {
            None
        }
    } else if ty == FRAME_TYPE_PUSH_PROMISE {
        if sid == 0 {
            Some(FrameErrorKind::IdRequired)
        } else if len < prefix_len(ty, fl) {
            Some(FrameErrorKind::BadSize)
        } else {
            None
        }
    } else if ty == FRAME_TYPE_PING {
        if len != 8 {
            Some(FrameErrorKind::BadSize)
        } else if sid != 0 {
            Some(FrameErrorKind::IdForbidden)
        } else {
            None
        }
    } else if ty == FRAME_TYPE_GO_AWAY {
        if len < 8 {
            Some(FrameErrorKind::BadSize)
        } else if sid != 0 {
            Some(FrameErrorKind::IdForbidden)
        } else {
            None
        }
    } else if ty == FRAME_TYPE_WINDOW_UPDATE {
        if len != 4 {
            Some(FrameErrorKind::BadSize)
        } else {
            None
        }
    } else if ty == FRAME_TYPE_CONTINUATION {
        if sid == 0 {
            Some(FrameErrorKind::IdRequired)
        } else {
            None
        }
    } else {
        Some(FrameErrorKind::Unknown { ty })
    }
}

/// The announced pad length: the first payload byte of a padded frame.
pub open spec fn pad_len(fl: u8, payload: Seq<u8>) -> int {
    if flag_set(fl, flags::PADDED) && payload.len() > 0 {
        payload[0] as int
    } else {
        0int
    }
}

/// The one check that needs the payload: announced padding must fit in the
/// bytes that remain after the prefix.
pub open spec fn body_failure(len: int, ty: u8, fl: u8, payload: Seq<u8>) -> Option<
    FrameErrorKind,
> {
    if (ty == FRAME_TYPE_DATA || ty == FRAME_TYPE_HEADERS || ty == FRAME_TYPE_PUSH_PROMISE)
        && flag_set(fl, flags::PADDED) && pad_len(fl, payload) > len - prefix_len(ty, fl) {
        Some(FrameErrorKind::BadSize)
    } else {
        None
    }
}

/// The priority information held in a raw dependency field and a weight byte.
pub open spec fn spec_priority_info(raw: u32, weight: u8) -> PriorityInfo {
    PriorityInfo {
        exclusive: raw & 0x80000000u32 != 0,
        stream_dependency_id: raw & 0x7fffffffu32,
        weight,
    }
}

/// The settings entry starting at byte `6 * i` of the payload.
pub open spec fn settings_entry_at(payload: Seq<u8>, i: int) -> (u16, u32) {
    (
        be16_val(payload[6 * i], payload[6 * i + 1]),
        be32_val(payload[6 * i + 2], payload[6 * i + 3], payload[6 * i + 4], payload[6 * i + 5]),
    )
}

/// The frame a structurally valid payload parses to.
pub open spec fn parse_payload(len: int, ty: u8, fl: u8, sid: u32, payload: Seq<u8>) -> FrameModel {
    let p = pad_len(fl, payload);
    let pre = prefix_len(ty, fl);
    if ty == FRAME_TYPE_DATA {
        FrameModel::Data {
            stream_id: sid,
            is_end_stream: flag_set(fl, flags::END_STREAM),
            data: payload.subrange(pre, len - p),
        }
    } else if ty == FRAME_TYPE_HEADERS {
        let off = if flag_set(fl, flags::PADDED) {
            1int
        } else {
            0int
        };
        FrameModel::Headers {
            stream_id: sid,
            priority_info: if flag_set(fl, flags::PRIORITY) {
                Some(
                    spec_priority_info(
                        be32_val(payload[off], payload[off + 1], payload[off + 2],
                            payload[off + 3]),
                        payload[off + 4],
                    ),
                )
            } else {
                None
            },
            is_end_of_stream: flag_set(fl, flags::END_STREAM),
            is_end_of_headers: flag_set(fl, flags::END_HEADERS),
            header_block_fragment: payload.subrange(pre, len - p),
        }
    } else if ty == FRAME_TYPE_PRIORITY {
        FrameModel::Priority {
            stream_id: sid,
            priority_info: spec_priority_info(
                be32_val(payload[0], payload[1], payload[2], payload[3]),
                payload[4],
            ),
        }
    } else if ty == FRAME_TYPE_RST_STREAM {
        FrameModel::RstStream {
            stream_id: sid,
            error_code: be32_val(payload[0], payload[1], payload[2], payload[3]),
        }
    } else if ty == FRAME_TYPE_SETTINGS {
        FrameModel::Settings {
            is_ack: flag_set(fl, flags::ACK),
            values: Seq::new((len / 6) as nat, |i: int| settings_entry_at(payload, i)),
        }
    } else if ty == FRAME_TYPE_PUSH_PROMISE {
        let off = if flag_set(fl, flags::PADDED) {
            1int
        } else {
            0int
        };
        FrameModel::PushPromise {
            stream_id: sid,
            promised_stream_id: be32_val(payload[off], payload[off + 1], payload[off + 2],
                payload[off + 3]),
            is_end_of_headers: flag_set(fl, flags::END_HEADERS),
            header_block_fragment: payload.subrange(pre, len - p),
        }
    } else if ty == FRAME_TYPE_PING {
        FrameModel::Ping { is_ack: flag_set(fl, flags::ACK), opaque_data: payload }
    } else if ty == FRAME_TYPE_GO_AWAY {
        FrameModel::GoAway {
            last_stream_id: be32_val(payload[0], payload[1], payload[2], payload[3]),
            error_code: be32_val(payload[4], payload[5], payload[6], payload[7]),
            additional_debug_data: payload.subrange(8, len),
        }
    } else if ty == FRAME_TYPE_WINDOW_UPDATE {
        FrameModel::WindowUpdate {
            stream_id: if sid == 0 {
                None
            } else {
                Some(sid)
            },
            size_increment: be32_val(payload[0], payload[1], payload[2], payload[3]),
        }
    } else {
        FrameModel::Continuation {
            stream_id: sid,
            is_end_headers: flag_set(fl, flags::END_HEADERS),
            header_block_fragment: payload,
        }
    }
}

/// What a whole payload yields: the first failed check's error, or the frame.
pub open spec fn payload_result(len: int, ty: u8, fl: u8, sid: u32, payload: Seq<u8>) -> Result<
    FrameModel,
    FrameErrorKind,
> {
    match pre_failure(len, ty, fl, sid) {
        Some(k) => Err(k),
        None => match body_failure(len, ty, fl, payload) {
            Some(k) => Err(k),
            None => Ok(parse_payload(len, ty, fl, sid, payload)),
        },
    }
}

/// What reading one frame from the front of `b` yields: the frame and the
/// bytes consumed, or the error of the first failed check. The stream id is
/// taken with its reserved high bit cleared.
pub open spec fn spec_read_frame(b: Seq<u8>) -> Result<(FrameModel, int), FrameErrorKind> {
    if b.len() < 9 {
        Err(FrameErrorKind::Truncated)
    } else {
        let len = be24_val(b[0], b[1], b[2]) as int;
        let ty = b[3];
        let fl = b[4];
        let sid = be32_val(b[5], b[6], b[7], b[8]) & 0x7fffffffu32;
        match pre_failure(len, ty, fl, sid) {
            Some(k) => Err(k),
            None => if b.len() < 9 + len {
                Err(FrameErrorKind::Truncated)
            } else {
                let payload = b.subrange(9, 9 + len);
                match body_failure(len, ty, fl, payload) {
                    Some(k) => Err(k),
                    None => Ok((parse_payload(len, ty, fl, sid, payload), 9 + len)),
                }
            },
        }
    }
}

/// Whether an executable per-type result agrees with the specified one.
pub open spec fn read_matches(r: FrameResult, pr: Result<FrameModel, FrameErrorKind>) -> bool {
    match r {
        Ok(f) => pr matches Ok(m) && f@ == m,
        Err(e) => pr matches Err(k) && err_matches(e, k),
    }
}

/// Whether an executable whole-frame result agrees with the specified one.
pub open spec fn read_frame_matches(
    r: Result<(Frame, usize), FrameError>,
    pr: Result<(FrameModel, int), FrameErrorKind>,
) -> bool {
    match r {
        Ok((f, n)) => pr matches Ok(m) && f@ == m.0 && n == m.1,
        Err(e) => pr matches Err(k) && err_matches(e, k),
    }
}

/// The bytes of `v` from `start` (inclusive) to `end` (exclusive), copied.
pub fn copy_range(v: &Vec<u8>, start: usize, end: usize) -> (out: Vec<u8>)
    requires
        start <= end <= v@.len(),
    ensures
        out@ == v@.subrange(start as int, end as int),
{
    let mut out: Vec<u8> = Vec::new();
    let mut i: usize = start;
    while i < end
        invariant
            start <= i <= end <= v@.len(),
            out@ == v@.subrange(start as int, i as int),
        decreases end - i,
    {
        out.push(v[i]);
        assert(out@ =~= v@.subrange(start as int, i + 1 as int));
        i = i + 1;
    }
    out
}

/// Append a copy of `src` to `out`.
pub fn append_bytes(out: &mut Vec<u8>, src: &Vec<u8>)
    ensures
        final(out)@ == old(out)@ + src@,
{
    let mut i: usize = 0;
    while i < src.len()
        invariant
            i <= src@.len(),
            out@ == old(out)@ + src@.subrange(0, i as int),
        decreases src@.len() - i,
    {
        out.push(src[i]);
        assert(out@ =~= old(out)@ + src@.subrange(0, i + 1 as int));
        i = i + 1;
    }
    assert(out@ =~= old(out)@ + src@);
}

/// Write the 9-byte frame header: length, type, flags, then the stream id
/// masked to its 31-bit field.
pub fn write_frame_header(out: &mut Vec<u8>, len: u32, frame_type: u8, fl: u8, stream_id: u32)
    requires
        len <= MAX_PAYLOAD_LEN,
    ensures
        final(out)@ == old(out)@ + header_bytes(len, frame_type, fl, stream_id),
{
    push_be24(out, len);
    out.push(frame_type);
    out.push(fl);
    push_be32(out, stream_id & 0x7fffffff);
    assert(final(out)@ =~= old(out)@ + header_bytes(len, frame_type, fl, stream_id));
}


/// Check the header-only rules for one frame: unknown type, stream-id
/// presence, fixed sizes.
fn check_frame_header(length: u32, frame_type: u8, fl: u8, stream_id: u32) -> (r: Option<
    FrameError,
>)
    ensures
        match pre_failure(length as int, frame_type, fl, stream_id) {
            Some(k) => r matches Some(e) && err_matches(e, k),
            None => r is None,
        },
{
    if frame_type == FRAME_TYPE_DATA {
        if stream_id == 0 {
            Some(FrameError::StreamIdRequired())
        } else if is_set(fl, flags::PADDED) && length == 0 {
            Some(FrameError::InvalidFrameSize())
        } else {
            None
        }
    } else if frame_type == FRAME_TYPE_HEADERS {
        let prefix: u32 = (if is_set(fl, flags::PADDED) {
            1
        } else {
            0
        }) + (if is_set(fl, flags::PRIORITY) {
            5
        } else {
            0
        });
        if stream_id == 0 {
            Some(FrameError::StreamIdRequired())
        } else if length < prefix {
            Some(FrameError::InvalidFrameSize())
        } else {
            None
        }
    } else if frame_type == FRAME_TYPE_PRIORITY {
        if length != 5 {
            Some(FrameError::InvalidFrameSize())
        } else if stream_id == 0 {
            Some(FrameError::StreamIdRequired())
        } else {
            None
        }
    } else if frame_type == FRAME_TYPE_RST_STREAM {
        if length != 4 {
            Some(FrameError::InvalidFrameSize())
        } else if stream_id == 0 {
            Some(FrameError::StreamIdRequired())
        } else {
            None
        }
    } else if frame_type == FRAME_TYPE_SETTINGS {
        if length % 6 != 0 {
            Some(FrameError::InvalidFrameSize())
        } else if stream_id != 0 {
            Some(FrameError::StreamIdForbidden())
        } else {
            None
        }
    } else if frame_type == FRAME_TYPE_PUSH_PROMISE {
        let prefix: u32 = (if is_set(fl, flags::PADDED) {
            1
        } else {
            0
        }) + 4;
        if stream_id == 0 {
            Some(FrameError::StreamIdRequired())
        } else if length < prefix {
            Some(FrameError::InvalidFrameSize())
        } else {
            None
        }
    } else if frame_type == FRAME_TYPE_PING {
        if length != 8 {
            Some(FrameError::InvalidFrameSize())
        } else if stream_id != 0 {
            Some(FrameError::StreamIdForbidden())
        } else {
            None
        }
    } else if frame_type == FRAME_TYPE_GO_AWAY {
        if length < 8 {
            Some(FrameError::InvalidFrameSize())
        } else if stream_id != 0 {
            Some(FrameError::StreamIdForbidden())
        } else {
            None
        }
    } else if frame_type == FRAME_TYPE_WINDOW_UPDATE {
        if length != 4 {
            Some(FrameError::InvalidFrameSize())
        } else {
            None
        }
    } else if frame_type == FRAME_TYPE_CONTINUATION {
        if stream_id == 0 {
            Some(FrameError::StreamIdRequired())
        } else {
            None
        }
    } else {
        Some(FrameError::Unrecognized(frame_type))
    }
}

/// Read a Data frame's payload: an optional pad-length byte, the data, then
/// that many padding bytes, which are not returned.
pub fn read_data_frame(frame_len: u32, stream_id: u32, fl: u8, payload: &Vec<u8>) -> (r:
    FrameResult)
    requires
        payload@.len() == frame_len,
        stream_id < STREAM_ID_LIMIT,
    ensures
        read_matches(r, payload_result(frame_len as int, FRAME_TYPE_DATA, fl, stream_id, payload@)),
{
    if stream_id == 0 {
        return Err(FrameError::StreamIdRequired());
    }
    let is_padded = is_set(fl, flags::PADDED);
    let is_end_stream = is_set(fl, flags::END_STREAM);
    if is_padded && frame_len == 0 {
        return Err(FrameError::InvalidFrameSize());
    }
    let pad: u8 = if is_padded {
        payload[0]
    } else {
        0
    };
    let prefix: usize = if is_padded {
        1
    } else {
        0
    };
    if pad as usize + prefix > payload.len() {
        return Err(FrameError::InvalidFrameSize());
    }
    let data = copy_range(payload, prefix, payload.len() - pad as usize);
    Ok(Frame::Data { stream_id, is_end_stream, data })
}

/// Read a Headers frame's payload: optional pad length, optional 5-byte
/// priority section, then the header-block fragment before the padding.
pub fn read_header_frame(frame_len: u32, stream_id: u32, fl: u8, payload: &Vec<u8>) -> (r:
    FrameResult)
    requires
        payload@.len() == frame_len,
        stream_id < STREAM_ID_LIMIT,
    ensures
        read_matches(r, payload_result(frame_len as int, FRAME_TYPE_HEADERS, fl, stream_id,
            payload@)),
{
    if stream_id == 0 {
        return Err(FrameError::StreamIdRequired());
    }
    let is_padded = is_set(fl, flags::PADDED);
    let has_priority = is_set(fl, flags::PRIORITY);
    let off: usize = if is_padded {
        1
    } else {
        0
    };
    let prefix: usize = off + (if has_priority {
        5
    } else {
        0
    });
    if payload.len() < prefix {
        return Err(FrameError::InvalidFrameSize());
    }
    let pad: u8 = if is_padded {
        payload[0]
    } else {
        0
    };
    if pad as usize + prefix > payload.len() {
        return Err(FrameError::InvalidFrameSize());
    }
    let priority_info = if has_priority {
        let raw = be32_from(payload[off], payload[off + 1], payload[off + 2], payload[off + 3]);
        Some(PriorityInfo::new(raw, payload[off + 4]))
    } else {
        None
    };
    let fragment = copy_range(payload, prefix, payload.len() - pad as usize);
    Ok(Frame::Headers {
        stream_id,
        priority_info,
        is_end_of_stream: is_set(fl, flags::END_STREAM),
        is_end_of_headers: is_set(fl, flags::END_HEADERS),
        header_block_fragment: fragment,
    })
}

/// Read a Priority frame's payload: a stream-dependency field and a weight.
pub fn read_priority_frame(frame_len: u32, stream_id: u32, fl: u8, payload: &Vec<u8>) -> (r:
    FrameResult)
    requires
        payload@.len() == frame_len,
        stream_id < STREAM_ID_LIMIT,
    ensures
        read_matches(r, payload_result(frame_len as int, FRAME_TYPE_PRIORITY, fl, stream_id,
            payload@)),
{
    if frame_len != 5 {
        Err(FrameError::InvalidFrameSize())
    } else if stream_id == 0 {
        Err(FrameError::StreamIdRequired())
    } else {
        let raw = be32_from(payload[0], payload[1], payload[2], payload[3]);
        Ok(Frame::Priority { stream_id, priority_info: PriorityInfo::new(raw, payload[4]) })
    }
}

/// Read an RstStream frame's payload: a 32-bit error code.
pub fn read_rst_stream_frame(frame_len: u32, stream_id: u32, fl: u8, payload: &Vec<u8>) -> (r:
    FrameResult)
    requires
        payload@.len() == frame_len,
        stream_id < STREAM_ID_LIMIT,
    ensures
        read_matches(r, payload_result(frame_len as int, FRAME_TYPE_RST_STREAM, fl, stream_id,
            payload@)),
{
    if frame_len != 4 {
        Err(FrameError::InvalidFrameSize())
    } else if stream_id == 0 {
        Err(FrameError::StreamIdRequired())
    } else {
        let error_code = be32_from(payload[0], payload[1], payload[2], payload[3]);
        Ok(Frame::RstStream { stream_id, error_code })
    }
}

/// Read a Settings frame's payload: six-byte entries of a 16-bit id and a
/// 32-bit value.
pub fn read_settings_frame(frame_len: u32, stream_id: u32, fl: u8, payload: &Vec<u8>) -> (r:
    FrameResult)
    requires
        payload@.len() == frame_len,
        stream_id < STREAM_ID_LIMIT,
    ensures
        read_matches(r, payload_result(frame_len as int, FRAME_TYPE_SETTINGS, fl, stream_id,
            payload@)),
{
    if frame_len % 6 != 0 {
        return Err(FrameError::InvalidFrameSize());
    }
    if stream_id != 0 {
        return Err(FrameError::StreamIdForbidden());
    }
    let is_ack = is_set(fl, flags::ACK);
    let n: usize = (frame_len / 6) as usize;
    let mut values: Vec<(u16, u32)> = Vec::new();
    let mut i: usize = 0;
    while i < n
        invariant
            payload@.len() == frame_len,
            frame_len % 6 == 0,
            n == frame_len / 6,
            i <= n,
            values@.len() == i,
            forall|j: int| 0 <= j < i ==> values@[j] == settings_entry_at(payload@, j),
        decreases n - i,
    {
        assert(6 * (i as int) + 5 < frame_len as int);
        let id = be16_from(payload[6 * i], payload[6 * i + 1]);
        let value = be32_from(payload[6 * i + 2], payload[6 * i + 3], payload[6 * i + 4],
            payload[6 * i + 5]);
        values.push((id, value));
        i = i + 1;
    }
    proof {
        assert(values@ =~= Seq::new((frame_len as int / 6) as nat, |j: int| settings_entry_at(
            payload@, j)));
    }
    Ok(Frame::Settings { is_ack, values })
}

/// Read a PushPromise frame's payload: optional pad length, the promised
/// stream id, then the header-block fragment before the padding.
pub fn read_push_promise_frame(frame_len: u32, stream_id: u32, fl: u8, payload: &Vec<u8>) -> (r:
    FrameResult)
    requires
        payload@.len() == frame_len,
        stream_id < STREAM_ID_LIMIT,
    ensures
        read_matches(r, payload_result(frame_len as int, FRAME_TYPE_PUSH_PROMISE, fl, stream_id,
            payload@)),
{
    if stream_id == 0 {
        return Err(FrameError::StreamIdRequired());
    }
    let is_padded = is_set(fl, flags::PADDED);
    let off: usize = if is_padded {
        1
    } else {
        0
    };
    let prefix: usize = off + 4;
    if payload.len() < prefix {
        return Err(FrameError::InvalidFrameSize());
    }
    let pad: u8 = if is_padded {
        payload[0]
    } else {
        0
    };
    if pad as usize + prefix > payload.len() {
        return Err(FrameError::InvalidFrameSize());
    }
    let promised_stream_id = be32_from(payload[off], payload[off + 1], payload[off + 2],
        payload[off + 3]);
    let fragment = copy_range(payload, prefix, payload.len() - pad as usize);
    Ok(Frame::PushPromise {
        stream_id,
        promised_stream_id,
        is_end_of_headers: is_set(fl, flags::END_HEADERS),
        header_block_fragment: fragment,
    })
}

/// Read a Ping frame's payload: exactly eight opaque bytes.
pub fn read_ping_frame(frame_len: u32, stream_id: u32, fl: u8, payload: &Vec<u8>) -> (r:
    FrameResult)
    requires
        payload@.len() == frame_len,
        stream_id < STREAM_ID_LIMIT,
    ensures
        read_matches(r, payload_result(frame_len as int, FRAME_TYPE_PING, fl, stream_id, payload@)),
{
    if frame_len != 8 {
        return Err(FrameError::InvalidFrameSize());
    }
    if stream_id != 0 {
        return Err(FrameError::StreamIdForbidden());
    }
    let opaque_data: [u8; 8] = [payload[0], payload[1], payload[2], payload[3], payload[4],
        payload[5], payload[6], payload[7]];
    proof {
        assert(opaque_data@ =~= payload@);
    }
    Ok(Frame::Ping { is_ack: is_set(fl, flags::ACK), opaque_data })
}

/// Read a GoAway frame's payload: last stream id, error code, debug data.
pub fn read_go_away_frame(frame_len: u32, stream_id: u32, fl: u8, payload: &Vec<u8>) -> (r:
    FrameResult)
    requires
        payload@.len() == frame_len,
        stream_id < STREAM_ID_LIMIT,
    ensures
        read_matches(r, payload_result(frame_len as int, FRAME_TYPE_GO_AWAY, fl, stream_id,
            payload@)),
{
    if frame_len < 8 {
        return Err(FrameError::InvalidFrameSize());
    }
    if stream_id != 0 {
        return Err(FrameError::StreamIdForbidden());
    }
    let last_stream_id = be32_from(payload[0], payload[1], payload[2], payload[3]);
    let error_code = be32_from(payload[4], payload[5], payload[6], payload[7]);
    let additional_debug_data = copy_range(payload, 8, payload.len());
    Ok(Frame::GoAway { last_stream_id, error_code, additional_debug_data })
}

/// Read a WindowUpdate frame's payload: a 32-bit size increment; a zero
/// stream id is presented as the connection-level `None`.
pub fn read_window_update_frame(frame_len: u32, stream_id: u32, fl: u8, payload: &Vec<u8>) -> (r:
    FrameResult)
    requires
        payload@.len() == frame_len,
        stream_id < STREAM_ID_LIMIT,
    ensures
        read_matches(r, payload_result(frame_len as int, FRAME_TYPE_WINDOW_UPDATE, fl, stream_id,
            payload@)),
{
    if frame_len != 4 {
        return Err(FrameError::InvalidFrameSize());
    }
    let size_increment = be32_from(payload[0], payload[1], payload[2], payload[3]);
    Ok(Frame::WindowUpdate {
        stream_id: if stream_id == 0 {
            None
        } else {
            Some(stream_id)
        },
        size_increment,
    })
}

/// Read a Continuation frame's payload: the whole payload is the fragment.
pub fn read_continuation_frame(frame_len: u32, stream_id: u32, fl: u8, payload: &Vec<u8>) -> (r:
    FrameResult)
    requires
        payload@.len() == frame_len,
        stream_id < STREAM_ID_LIMIT,
    ensures
        read_matches(r, payload_result(frame_len as int, FRAME_TYPE_CONTINUATION, fl, stream_id,
            payload@)),
{
    if stream_id == 0 {
        return Err(FrameError::StreamIdRequired());
    }
    let header_block_fragment = copy_range(payload, 0, payload.len());
    proof {
        assert(header_block_fragment@ =~= payload@);
    }
    Ok(Frame::Continuation {
        stream_id,
        is_end_headers: is_set(fl, flags::END_HEADERS),
        header_block_fragment,
    })
}

/// Read one frame from the front of `bytes`: the 9-byte header, then exactly
/// the advertised payload. Returns the frame and the bytes consumed, or the
/// error of the first violated rule, never a partial frame.
pub fn read_frame(bytes: &Vec<u8>) -> (r: Result<(Frame, usize), FrameError>)
    ensures
        read_frame_matches(r, spec_read_frame(bytes@)),
{
    if bytes.len() < 9 {
        return Err(FrameError::ReadFailed("frame header"));
    }
    let length: u32 = be24_from(bytes[0], bytes[1], bytes[2]);
    let frame_type: u8 = bytes[3];
    let fl: u8 = bytes[4];
    let raw_stream_id: u32 = be32_from(bytes[5], bytes[6], bytes[7], bytes[8]);
    let stream_id: u32 = raw_stream_id & 0x7fffffff;
    proof {
        lemma_mask31(raw_stream_id);
    }
    match check_frame_header(length, frame_type, fl, stream_id) {
        Some(e) => {
            return Err(e);
        },
        None => {},
    }
    if bytes.len() < 9 + length as usize {
        return Err(FrameError::ReadFailed("frame payload"));
    }
    let payload = copy_range(bytes, 9, 9 + length as usize);
    let res = if frame_type == FRAME_TYPE_DATA {
        read_data_frame(length, stream_id, fl, &payload)
    } else if frame_type == FRAME_TYPE_HEADERS {
        read_header_frame(length, stream_id, fl, &payload)
    } else if frame_type == FRAME_TYPE_PRIORITY {
        read_priority_frame(length, stream_id, fl, &payload)
    } else if frame_type == FRAME_TYPE_RST_STREAM {
        read_rst_stream_frame(length, stream_id, fl, &payload)
    } else if frame_type == FRAME_TYPE_SETTINGS {
        read_settings_frame(length, stream_id, fl, &payload)
    } else if frame_type == FRAME_TYPE_PUSH_PROMISE {
        read_push_promise_frame(length, stream_id, fl, &payload)
    } else if frame_type == FRAME_TYPE_PING {
        read_ping_frame(length, stream_id, fl, &payload)
    } else if frame_type == FRAME_TYPE_GO_AWAY {
        read_go_away_frame(length, stream_id, fl, &payload)
    } else if frame_type == FRAME_TYPE_WINDOW_UPDATE {
        read_window_update_frame(length, stream_id, fl, &payload)
    } else {
        read_continuation_frame(length, stream_id, fl, &payload)
    };
    match res {
        Ok(f) => Ok((f, 9 + length as usize)),
        Err(e) => Err(e),
    }
}

/// Write a Data frame: the derived header, then the payload as given.
pub fn write_data_frame(stream_id: u32, payload: &Vec<u8>, is_terminated: bool) -> (out: Vec<u8>)
    requires
        stream_id_ok(stream_id),
        payload@.len() <= MAX_PAYLOAD_LEN,
    ensures
        out@ == (FrameModel::Data {
            stream_id,
            is_end_stream: is_terminated,
            data: payload@,
        }).encode(),
{
    let mut out: Vec<u8> = Vec::new();
    write_frame_header(&mut out, payload.len() as u32, FRAME_TYPE_DATA, if is_terminated {
        flags::END_STREAM
    } else {
        0
    }, stream_id);
    append_bytes(&mut out, payload);
    proof {
        assert(out@ =~= (FrameModel::Data {
            stream_id,
            is_end_stream: is_terminated,
            data: payload@,
        }).encode());
    }
    out
}

/// Write a Headers frame: flags reassembled from the booleans, the priority
/// section if present, then the fragment.
pub fn write_headers_frame(
    stream_id: u32,
    priority_info: Option<PriorityInfo>,
    is_end_of_stream: bool,
    is_end_of_headers: bool,
    header_block_fragment: &Vec<u8>,
) -> (out: Vec<u8>)
    requires
        stream_id_ok(stream_id),
        priority_info matches Some(p) ==> p.wf(),
        header_block_fragment@.len() + (if priority_info is Some {
            5int
        } else {
            0int
        }) <= MAX_PAYLOAD_LEN,
    ensures
        out@ == (FrameModel::Headers {
            stream_id,
            priority_info,
            is_end_of_stream,
            is_end_of_headers,
            header_block_fragment: header_block_fragment@,
        }).encode(),
{
    let mut fl: u8 = 0;
    if is_end_of_stream {
        fl = fl + flags::END_STREAM;
    }
    if is_end_of_headers {
        fl = fl + flags::END_HEADERS;
    }
    if priority_info.is_some() {
        fl = fl + flags::PRIORITY;
    }
    let len: u32 = (header_block_fragment.len() + (if priority_info.is_some() {
        5
    } else {
        0
    })) as u32;
    let mut out: Vec<u8> = Vec::new();
    write_frame_header(&mut out, len, FRAME_TYPE_HEADERS, fl, stream_id);
    match &priority_info {
        Some(p) => {
            push_be32(&mut out, p.stream_dependency_field());
            out.push(p.weight);
        },
        None => {},
    }
    append_bytes(&mut out, header_block_fragment);
    proof {
        assert(out@ =~= (FrameModel::Headers {
            stream_id,
            priority_info,
            is_end_of_stream,
            is_end_of_headers,
            header_block_fragment: header_block_fragment@,
        }).encode());
    }
    out
}

/// Write a Priority frame: the dependency field and the weight.
pub fn write_priority_frame(stream_id: u32, priority_info: PriorityInfo) -> (out: Vec<u8>)
    requires
        stream_id_ok(stream_id),
        priority_info.wf(),
    ensures
        out@ == (FrameModel::Priority { stream_id, priority_info }).encode(),
{
    let mut out: Vec<u8> = Vec::new();
    write_frame_header(&mut out, 5, FRAME_TYPE_PRIORITY, 0, stream_id);
    push_be32(&mut out, priority_info.stream_dependency_field());
    out.push(priority_info.weight);
    proof {
        assert(out@ =~= (FrameModel::Priority { stream_id, priority_info }).encode());
    }
    out
}

/// Write an RstStream frame: the 32-bit error code.
pub fn write_rst_stream_frame(stream_id: u32, error_code: u32) -> (out: Vec<u8>)
    requires
        stream_id_ok(stream_id),
    ensures
        out@ == (FrameModel::RstStream { stream_id, error_code }).encode(),
{
    let mut out: Vec<u8> = Vec::new();
    write_frame_header(&mut out, 4, FRAME_TYPE_RST_STREAM, 0, stream_id);
    push_be32(&mut out, error_code);
    proof {
        assert(out@ =~= (FrameModel::RstStream { stream_id, error_code }).encode());
    }
    out
}

/// Write a Settings frame: six bytes per entry, on stream zero.
pub fn write_settings_frame(is_ack: bool, values: &Vec<(u16, u32)>) -> (out: Vec<u8>)
    requires
        6 * values@.len() <= MAX_PAYLOAD_LEN,
    ensures
        out@ == (FrameModel::Settings { is_ack, values: values@ }).encode(),
{
    proof {
        crate::frames::lemma_settings_bytes_len(values@);
    }
    let len: u32 = (values.len() * 6) as u32;
    let mut out: Vec<u8> = Vec::new();
    write_frame_header(&mut out, len, FRAME_TYPE_SETTINGS, if is_ack {
        flags::ACK
    } else {
        0
    }, 0);
    let ghost hdr = out@;
    let mut i: usize = 0;
    while i < values.len()
        invariant
            i <= values@.len(),
            out@ == hdr + settings_bytes(values@.take(i as int)),
        decreases values@.len() - i,
    {
        let entry = values[i];
        push_be16(&mut out, entry.0);
        push_be32(&mut out, entry.1);
        proof {
            crate::frames::lemma_settings_bytes_push(values@.take(i as int), values@[i as int]);
            assert(values@.take(i + 1 as int) =~= values@.take(i as int).push(values@[i as int]));
            assert(out@ =~= hdr + settings_bytes(values@.take(i + 1 as int)));
        }
        i = i + 1;
    }
    proof {
        assert(values@.take(values@.len() as int) =~= values@);
        assert(out@ =~= (FrameModel::Settings { is_ack, values: values@ }).encode());
    }
    out
}

/// Write a PushPromise frame: the promised stream id, then the fragment.
pub fn write_push_promise_frame(
    stream_id: u32,
    is_end_of_headers: bool,
    promised_stream_id: u32,
    header_block_fragment: &Vec<u8>,
) -> (out: Vec<u8>)
    requires
        stream_id_ok(stream_id),
        4 + header_block_fragment@.len() <= MAX_PAYLOAD_LEN,
    ensures
        out@ == (FrameModel::PushPromise {
            stream_id,
            promised_stream_id,
            is_end_of_headers,
            header_block_fragment: header_block_fragment@,
        }).encode(),
{
    let len: u32 = (4 + header_block_fragment.len()) as u32;
    let mut out: Vec<u8> = Vec::new();
    write_frame_header(&mut out, len, FRAME_TYPE_PUSH_PROMISE, if is_end_of_headers {
        flags::END_HEADERS
    } else {
        0
    }, stream_id);
    push_be32(&mut out, promised_stream_id);
    append_bytes(&mut out, header_block_fragment);
    proof {
        assert(out@ =~= (FrameModel::PushPromise {
            stream_id,
            promised_stream_id,
            is_end_of_headers,
            header_block_fragment: header_block_fragment@,
        }).encode());
    }
    out
}

/// Write a Ping frame: eight opaque bytes on stream zero.
pub fn write_ping_frame(is_ack: bool, opaque_data: [u8; 8]) -> (out: Vec<u8>)
    ensures
        out@ == (FrameModel::Ping { is_ack, opaque_data: opaque_data@ }).encode(),
{
    let mut out: Vec<u8> = Vec::new();
    write_frame_header(&mut out, 8, FRAME_TYPE_PING, if is_ack {
        flags::ACK
    } else {
        0
    }, 0);
    out.push(opaque_data[0]);
    out.push(opaque_data[1]);
    out.push(opaque_data[2]);
    out.push(opaque_data[3]);
    out.push(opaque_data[4]);
    out.push(opaque_data[5]);
    out.push(opaque_data[6]);
    out.push(opaque_data[7]);
    proof {
        assert(out@ =~= (FrameModel::Ping { is_ack, opaque_data: opaque_data@ }).encode());
    }
    out
}

/// Write a GoAway frame: last stream id, error code, debug data, on stream
/// zero.
pub fn write_go_away_frame(
    last_stream_id: u32,
    error_code: u32,
    additional_debug_data: &Vec<u8>,
) -> (out: Vec<u8>)
    requires
        8 + additional_debug_data@.len() <= MAX_PAYLOAD_LEN,
    ensures
        out@ == (FrameModel::GoAway {
            last_stream_id,
            error_code,
            additional_debug_data: additional_debug_data@,
        }).encode(),
{
    let len: u32 = (8 + additional_debug_data.len()) as u32;
    let mut out: Vec<u8> = Vec::new();
    write_frame_header(&mut out, len, FRAME_TYPE_GO_AWAY, 0, 0);
    push_be32(&mut out, last_stream_id);
    push_be32(&mut out, error_code);
    append_bytes(&mut out, additional_debug_data);
    proof {
        assert(out@ =~= (FrameModel::GoAway {
            last_stream_id,
            error_code,
            additional_debug_data: additional_debug_data@,
        }).encode());
    }
    out
}

/// Write a WindowUpdate frame: the size increment; `None` stands for the
/// connection and is written as stream zero.
pub fn write_window_update_frame(stream_id: Option<u32>, size_increment: u32) -> (out: Vec<u8>)
    requires
        stream_id matches Some(sid) ==> stream_id_ok(sid),
    ensures
        out@ == (FrameModel::WindowUpdate { stream_id, size_increment }).encode(),
{
    let sid: u32 = match stream_id {
        Some(s) => s,
        None => 0,
    };
    let mut out: Vec<u8> = Vec::new();
    write_frame_header(&mut out, 4, FRAME_TYPE_WINDOW_UPDATE, 0, sid);
    push_be32(&mut out, size_increment);
    proof {
        assert(out@ =~= (FrameModel::WindowUpdate { stream_id, size_increment }).encode());
    }
    out
}

/// Write a Continuation frame: the whole payload is the fragment.
pub fn write_continuation_frame(
    stream_id: u32,
    is_end_headers: bool,
    header_block_fragment: &Vec<u8>,
) -> (out: Vec<u8>)
    requires
        stream_id_ok(stream_id),
        header_block_fragment@.len() <= MAX_PAYLOAD_LEN,
    ensures
        out@ == (FrameModel::Continuation {
            stream_id,
            is_end_headers,
            header_block_fragment: header_block_fragment@,
        }).encode(),
{
    let mut out: Vec<u8> = Vec::new();
    write_frame_header(&mut out, header_block_fragment.len() as u32, FRAME_TYPE_CONTINUATION,
        if is_end_headers {
        flags::END_HEADERS
    } else {
        0
    }, stream_id);
    append_bytes(&mut out, header_block_fragment);
    proof {
        assert(out@ =~= (FrameModel::Continuation {
            stream_id,
            is_end_headers,
            header_block_fragment: header_block_fragment@,
        }).encode());
    }
    out
}

/// Write one frame: the 9-byte header derived from the frame's fields, then
/// its payload, emitting exactly the bytes required.
pub fn write_frame(frame: &Frame) -> (out: Vec<u8>)
    requires
        frame@.wf(),
    ensures
        out@ == frame@.encode(),
{
    match frame {
        Frame::Data { stream_id, is_end_stream, data } => write_data_frame(*stream_id, data,
            *is_end_stream),
        Frame::Headers {
            stream_id,
            priority_info,
            is_end_of_stream,
            is_end_of_headers,
            header_block_fragment,
        } => write_headers_frame(*stream_id, *priority_info, *is_end_of_stream, *is_end_of_headers,
            header_block_fragment),
        Frame::Priority { stream_id, priority_info } => write_priority_frame(*stream_id,
            *priority_info),
        Frame::RstStream { stream_id, error_code } => write_rst_stream_frame(*stream_id,
            *error_code),
        Frame::Settings { is_ack, values } => write_settings_frame(*is_ack, values),
        Frame::PushPromise {
            stream_id,
            promised_stream_id,
            is_end_of_headers,
            header_block_fragment,
        } => write_push_promise_frame(*stream_id, *is_end_of_headers, *promised_stream_id,
            header_block_fragment),
        Frame::Ping { is_ack, opaque_data } => write_ping_frame(*is_ack, *opaque_data),
        Frame::GoAway { last_stream_id, error_code, additional_debug_data } => write_go_away_frame(
            *last_stream_id, *error_code, additional_debug_data),
        Frame::WindowUpdate { stream_id, size_increment } => write_window_update_frame(*stream_id,
            *size_increment),
        Frame::Continuation { stream_id, is_end_headers, header_block_fragment } =>
            write_continuation_frame(*stream_id, *is_end_headers, header_block_fragment),
    }
}

} // verus!
