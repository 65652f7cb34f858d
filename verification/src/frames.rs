//! HTTP/2 frame values, their structural invariants, and the byte encoding
//! each one has on the wire.
use vstd::prelude::*;
use crate::bytes::{be16_bytes, be24_bytes, be32_bytes};

verus! {

pub type StreamId = u32;

pub const FRAME_TYPE_DATA: u8 = 0x0;

pub const FRAME_TYPE_HEADERS: u8 = 0x1;

pub const FRAME_TYPE_PRIORITY: u8 = 0x2;

pub const FRAME_TYPE_RST_STREAM: u8 = 0x3;

pub const FRAME_TYPE_SETTINGS: u8 = 0x4;

pub const FRAME_TYPE_PUSH_PROMISE: u8 = 0x5;

pub const FRAME_TYPE_PING: u8 = 0x6;

pub const FRAME_TYPE_GO_AWAY: u8 = 0x7;

pub const FRAME_TYPE_WINDOW_UPDATE: u8 = 0x8;

pub const FRAME_TYPE_CONTINUATION: u8 = 0x9;

/// The largest payload length the 3-byte length field can carry.
pub const MAX_PAYLOAD_LEN: u32 = 0xFFFFFF;

/// The first stream id that does not fit in the 31-bit field.
pub const STREAM_ID_LIMIT: u32 = 0x80000000;

/// The priority information a Headers or Priority frame carries. On the wire
/// the exclusive bit and the 31-bit dependency id share one 32-bit field.
#[derive(Debug, Clone, Copy, PartialEq, Eq, Structural)]
pub struct PriorityInfo {
    pub exclusive: bool,
    pub stream_dependency_id: StreamId,
    pub weight: u8,
}

/// The 32-bit stream-dependency field: the exclusive bit in the most
/// significant position, the dependency id in the low 31 bits.
pub open spec fn spec_dependency_field(p: PriorityInfo) -> u32 {
    p.stream_dependency_id | (if p.exclusive {
        0x80000000u32
    } else {
        0u32
    })
}

impl PriorityInfo {
    /// Split a raw stream-dependency field into the exclusive bit and the
    /// 31-bit dependency id.
    pub fn new(raw_stream_dependency: u32, weight: u8) -> (r: PriorityInfo)
        ensures
            r.exclusive == (raw_stream_dependency & 0x80000000u32 != 0),
            r.stream_dependency_id == raw_stream_dependency & 0x7fffffffu32,
            r.weight == weight,
            r.stream_dependency_id < STREAM_ID_LIMIT,
    {
        let exclusive = (raw_stream_dependency & 0x80000000) != 0;
        let stream_dependency_id = raw_stream_dependency & 0x7fffffff;
        proof {
            lemma_mask31(raw_stream_dependency);
        }
        PriorityInfo { exclusive, stream_dependency_id, weight }
    }

    /// Rejoin the exclusive bit and the dependency id into the wire field.
    pub fn stream_dependency_field(&self) -> (r: u32)
        ensures
            r == spec_dependency_field(*self),
    {
        self.stream_dependency_id | (if self.exclusive {
            0x80000000
        } else {
            0
        })
    }

    /// Structurally valid: the dependency id fits in its 31-bit field.
    pub open spec fn wf(self) -> bool {
        self.stream_dependency_id < STREAM_ID_LIMIT
    }
}

/// Masking to the low 31 bits keeps a value below 2^31 and leaves one that is
/// already below 2^31 unchanged.
pub proof fn lemma_mask31(v: u32)
    by (bit_vector)
    ensures
        v & 0x7fffffffu32 < 0x80000000u32,
        v < 0x80000000u32 ==> v & 0x7fffffffu32 == v,
{
}

/// Splitting a raw dependency field and rejoining the parts gives the field
/// back, and rejoined parts split into themselves.
pub proof fn lemma_dependency_field_round(raw: u32, id: u32)
    by (bit_vector)
    requires
        id < 0x80000000u32,
    ensures
        (raw & 0x80000000u32 != 0) ==> ((raw & 0x7fffffffu32) | 0x80000000u32) == raw,
        (raw & 0x80000000u32 == 0) ==> ((raw & 0x7fffffffu32) | 0u32) == raw,
        ((id | 0x80000000u32) & 0x80000000u32) != 0,
        (id | 0x80000000u32) & 0x7fffffffu32 == id,
        (id | 0u32) == id,
        id & 0x80000000u32 == 0,
        id & 0x7fffffffu32 == id,
{
}

/// One HTTP/2 frame, one variant per frame type, carrying only the semantic
/// fields; the 9-byte header is derived from them on write.
#[derive(Debug)]
pub enum Frame {
    Data { stream_id: StreamId, is_end_stream: bool, data: Vec<u8> },
    Headers {
        stream_id: StreamId,
        priority_info: Option<PriorityInfo>,
        is_end_of_stream: bool,
        is_end_of_headers: bool,
        header_block_fragment: Vec<u8>,
    },
    Priority { stream_id: StreamId, priority_info: PriorityInfo },
    RstStream { stream_id: StreamId, error_code: u32 },
    Settings { is_ack: bool, values: Vec<(u16, u32)> },
    PushPromise {
        stream_id: StreamId,
        promised_stream_id: u32,
        is_end_of_headers: bool,
        header_block_fragment: Vec<u8>,
    },
    Ping { is_ack: bool, opaque_data: [u8; 8] },
    GoAway { last_stream_id: u32, error_code: u32, additional_debug_data: Vec<u8> },
    WindowUpdate { stream_id: Option<StreamId>, size_increment: u32 },
    Continuation { stream_id: StreamId, is_end_headers: bool, header_block_fragment: Vec<u8> },
}

/// The mathematical value of a frame: byte payloads as sequences.
pub ghost enum FrameModel {
    Data { stream_id: StreamId, is_end_stream: bool, data: Seq<u8> },
    Headers {
        stream_id: StreamId,
        priority_info: Option<PriorityInfo>,
        is_end_of_stream: bool,
        is_end_of_headers: bool,
        header_block_fragment: Seq<u8>,
    },
    Priority { stream_id: StreamId, priority_info: PriorityInfo },
    RstStream { stream_id: StreamId, error_code: u32 },
    Settings { is_ack: bool, values: Seq<(u16, u32)> },
    PushPromise {
        stream_id: StreamId,
        promised_stream_id: u32,
        is_end_of_headers: bool,
        header_block_fragment: Seq<u8>,
    },
    Ping { is_ack: bool, opaque_data: Seq<u8> },
    GoAway { last_stream_id: u32, error_code: u32, additional_debug_data: Seq<u8> },
    WindowUpdate { stream_id: Option<StreamId>, size_increment: u32 },
    Continuation { stream_id: StreamId, is_end_headers: bool, header_block_fragment: Seq<u8> },
}

impl View for Frame {
    type V = FrameModel;

    open spec fn view(&self) -> FrameModel {
        match self {
            Frame::Data { stream_id, is_end_stream, data } => FrameModel::Data {
                stream_id: *stream_id,
                is_end_stream: *is_end_stream,
                data: data@,
            },
            Frame::Headers {
                stream_id,
                priority_info,
                is_end_of_stream,
                is_end_of_headers,
                header_block_fragment,
            } => FrameModel::Headers {
                stream_id: *stream_id,
                priority_info: *priority_info,
                is_end_of_stream: *is_end_of_stream,
                is_end_of_headers: *is_end_of_headers,
                header_block_fragment: header_block_fragment@,
            },
            Frame::Priority { stream_id, priority_info } => FrameModel::Priority {
                stream_id: *stream_id,
                priority_info: *priority_info,
            },
            Frame::RstStream { stream_id, error_code } => FrameModel::RstStream {
                stream_id: *stream_id,
                error_code: *error_code,
            },
            Frame::Settings { is_ack, values } => FrameModel::Settings {
                is_ack: *is_ack,
                values: values@,
            },
            Frame::PushPromise {
                stream_id,
                promised_stream_id,
                is_end_of_headers,
                header_block_fragment,
            } => FrameModel::PushPromise {
                stream_id: *stream_id,
                promised_stream_id: *promised_stream_id,
                is_end_of_headers: *is_end_of_headers,
                header_block_fragment: header_block_fragment@,
            },
            Frame::Ping { is_ack, opaque_data } => FrameModel::Ping {
                is_ack: *is_ack,
                opaque_data: opaque_data@,
            },
            Frame::GoAway { last_stream_id, error_code, additional_debug_data } => {
                FrameModel::GoAway {
                    last_stream_id: *last_stream_id,
                    error_code: *error_code,
                    additional_debug_data: additional_debug_data@,
                }
            },
            Frame::WindowUpdate { stream_id, size_increment } => FrameModel::WindowUpdate {
                stream_id: *stream_id,
                size_increment: *size_increment,
            },
            Frame::Continuation { stream_id, is_end_headers, header_block_fragment } => {
                FrameModel::Continuation {
                    stream_id: *stream_id,
                    is_end_headers: *is_end_headers,
                    header_block_fragment: header_block_fragment@,
                }
            },
        }
    }
}

/// A stream id that must name a stream: non-zero and within 31 bits.
pub open spec fn stream_id_ok(sid: StreamId) -> bool {
    0 < sid < STREAM_ID_LIMIT
}

/// The byte encoding of one settings entry: a 16-bit id then a 32-bit value.
pub open spec fn settings_entry_bytes(v: (u16, u32)) -> Seq<u8> {
    be16_bytes(v.0) + be32_bytes(v.1)
}

/// The byte encoding of a list of settings entries, in order.
pub open spec fn settings_bytes(values: Seq<(u16, u32)>) -> Seq<u8>
    decreases values.len(),
{
    if values.len() == 0 {
        Seq::empty()
    } else {
        settings_entry_bytes(values[0]) + settings_bytes(values.drop_first())
    }
}

pub proof fn lemma_settings_bytes_len(values: Seq<(u16, u32)>)
    ensures
        settings_bytes(values).len() == 6 * values.len(),
    decreases values.len(),
{
    if values.len() > 0 {
        lemma_settings_bytes_len(values.drop_first());
    }
}

/// Appending one entry appends its six bytes.
pub proof fn lemma_settings_bytes_push(values: Seq<(u16, u32)>, v: (u16, u32))
    ensures
        settings_bytes(values.push(v)) == settings_bytes(values) + settings_entry_bytes(v),
    decreases values.len(),
{
    if values.len() == 0 {
        let s = values.push(v);
        assert(s[0] == v);
        assert(s.drop_first() =~= Seq::<(u16, u32)>::empty());
        assert(settings_bytes(s.drop_first()) =~= Seq::<u8>::empty());
        assert(settings_bytes(s) =~= settings_bytes(values) + settings_entry_bytes(v));
    } else {
        assert(values.push(v).drop_first() =~= values.drop_first().push(v));
        lemma_settings_bytes_push(values.drop_first(), v);
        assert(settings_bytes(values.push(v)) =~= settings_bytes(values) + settings_entry_bytes(
            v,
        ));
    }
}

impl FrameModel {
    /// The structural invariants of the frame table: which frames must or
    /// must not carry a stream id, and what fits the length field.
    pub open spec fn wf(self) -> bool {
        match self {
            FrameModel::Data { stream_id, data, .. } => stream_id_ok(stream_id) && data.len()
                <= MAX_PAYLOAD_LEN,
            FrameModel::Headers { stream_id, priority_info, header_block_fragment, .. } => {
                &&& stream_id_ok(stream_id)
                &&& match priority_info {
                    Some(p) => p.wf(),
                    None => true,
                }
                &&& header_block_fragment.len() + (if priority_info is Some {
                    5int
                } else {
                    0int
                }) <= MAX_PAYLOAD_LEN
            },
            FrameModel::Priority { stream_id, priority_info } => stream_id_ok(stream_id)
                && priority_info.wf(),
            FrameModel::RstStream { stream_id, .. } => stream_id_ok(stream_id),
            FrameModel::Settings { values, .. } => 6 * values.len() <= MAX_PAYLOAD_LEN,
            FrameModel::PushPromise { stream_id, header_block_fragment, .. } => stream_id_ok(
                stream_id,
            ) && 4 + header_block_fragment.len() <= MAX_PAYLOAD_LEN,
            FrameModel::Ping { opaque_data, .. } => opaque_data.len() == 8,
            FrameModel::GoAway { additional_debug_data, .. } => 8 + additional_debug_data.len()
                <= MAX_PAYLOAD_LEN,
            FrameModel::WindowUpdate { stream_id, .. } => match stream_id {
                Some(sid) => stream_id_ok(sid),
                None => true,
            },
            FrameModel::Continuation { stream_id, header_block_fragment, .. } => stream_id_ok(
                stream_id,
            ) && header_block_fragment.len() <= MAX_PAYLOAD_LEN,
        }
    }

    /// The type byte the frame is written with.
    pub open spec fn type_byte(self) -> u8 {
        match self {
            FrameModel::Data { .. } => FRAME_TYPE_DATA,
            FrameModel::Headers { .. } => FRAME_TYPE_HEADERS,
            FrameModel::Priority { .. } => FRAME_TYPE_PRIORITY,
            FrameModel::RstStream { .. } => FRAME_TYPE_RST_STREAM,
            FrameModel::Settings { .. } => FRAME_TYPE_SETTINGS,
            FrameModel::PushPromise { .. } => FRAME_TYPE_PUSH_PROMISE,
            FrameModel::Ping { .. } => FRAME_TYPE_PING,
            FrameModel::GoAway { .. } => FRAME_TYPE_GO_AWAY,
            FrameModel::WindowUpdate { .. } => FRAME_TYPE_WINDOW_UPDATE,
            FrameModel::Continuation { .. } => FRAME_TYPE_CONTINUATION,
        }
    }

    /// The flag bits reassembled from the frame's boolean fields. The writer
    /// never pads, so the `PADDED` bit is never set on output.
    pub open spec fn flag_byte(self) -> u8 {
        match self {
            FrameModel::Data { is_end_stream, .. } => if is_end_stream {
                crate::flags::END_STREAM
            } else {
                0
            },
            FrameModel::Headers { priority_info, is_end_of_stream, is_end_of_headers, .. } => ((
            if is_end_of_stream {
                crate::flags::END_STREAM as int
            } else {
                0int
            }) + (if is_end_of_headers {
                crate::flags::END_HEADERS as int
            } else {
                0int
            }) + (if priority_info is Some {
                crate::flags::PRIORITY as int
            } else {
                0int
            })) as u8,
            FrameModel::Settings { is_ack, .. } => if is_ack {
                crate::flags::ACK
            } else {
                0
            },
            FrameModel::PushPromise { is_end_of_headers, .. } => if is_end_of_headers {
                crate::flags::END_HEADERS
            } else {
                0
            },
            FrameModel::Ping { is_ack, .. } => if is_ack {
                crate::flags::ACK
            } else {
                0
            },
            FrameModel::Continuation { is_end_headers, .. } => if is_end_headers {
                crate::flags::END_HEADERS
            } else {
                0
            },
            _ => 0,
        }
    }

    /// The stream id written into the header: zero for the connection-scoped
    /// frames, the frame's own id otherwise.
    pub open spec fn header_stream_id(self) -> u32 {
        match self {
            FrameModel::Data { stream_id, .. } => stream_id,
            FrameModel::Headers { stream_id, .. } => stream_id,
            FrameModel::Priority { stream_id, .. } => stream_id,
            FrameModel::RstStream { stream_id, .. } => stream_id,
            FrameModel::Settings { .. } => 0,
            FrameModel::PushPromise { stream_id, .. } => stream_id,
            FrameModel::Ping { .. } => 0,
            FrameModel::GoAway { .. } => 0,
            FrameModel::WindowUpdate { stream_id, .. } => match stream_id {
                Some(sid) => sid,
                None => 0,
            },
            FrameModel::Continuation { stream_id, .. } => stream_id,
        }
    }

    /// The payload bytes the frame is written with; the writer emits exactly
    /// the bytes required, without padding.
    pub open spec fn payload_bytes(self) -> Seq<u8> {
        match self {
            FrameModel::Data { data, .. } => data,
            FrameModel::Headers { priority_info, header_block_fragment, .. } => (match
                priority_info {
                Some(p) => be32_bytes(spec_dependency_field(p)) + seq![p.weight],
                None => Seq::empty(),
            }) + header_block_fragment,
            FrameModel::Priority { priority_info, .. } => be32_bytes(
                spec_dependency_field(priority_info),
            ) + seq![priority_info.weight],
            FrameModel::RstStream { error_code, .. } => be32_bytes(error_code),
            FrameModel::Settings { values, .. } => settings_bytes(values),
            FrameModel::PushPromise { promised_stream_id, header_block_fragment, .. } => be32_bytes(
                promised_stream_id,
            ) + header_block_fragment,
            FrameModel::Ping { opaque_data, .. } => opaque_data,
            FrameModel::GoAway { last_stream_id, error_code, additional_debug_data } => be32_bytes(
                last_stream_id,
            ) + be32_bytes(error_code) + additional_debug_data,
            FrameModel::WindowUpdate { size_increment, .. } => be32_bytes(size_increment),
            FrameModel::Continuation { header_block_fragment, .. } => header_block_fragment,
        }
    }

    /// The payload length the header advertises.
    pub open spec fn payload_len(self) -> int {
        self.payload_bytes().len() as int
    }

    /// The whole wire image: the 9-byte header, then the payload.
    pub open spec fn encode(self) -> Seq<u8> {
        header_bytes(self.payload_len() as u32, self.type_byte(), self.flag_byte(),
            self.header_stream_id()) + self.payload_bytes()
    }
}

/// The 9-byte frame header: 3-byte length, type, flags, 4-byte stream id with
/// the reserved high bit cleared.
pub open spec fn header_bytes(len: u32, ty: u8, flags: u8, stream_id: u32) -> Seq<u8> {
    be24_bytes(len) + seq![ty, flags] + be32_bytes(stream_id & 0x7fffffffu32)
}

} // verus!
