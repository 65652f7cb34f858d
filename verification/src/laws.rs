//! The codec's governing properties, proved once for every frame: what the
//! 9-byte header always encodes, that reading back a written frame gives the
//! frame, which error each violated invariant yields, and what padding
//! leaves of a fragment.
use vstd::prelude::*;
use crate::bytes::{be16_val, be24_val, be32_val, be24_bytes, be32_bytes, lemma_be16_round,
    lemma_be24_round, lemma_be32_round};
use crate::flags;
use crate::flags::flag_set;
use crate::frames::{FrameModel, PriorityInfo, spec_dependency_field, header_bytes, settings_bytes,
    settings_entry_bytes, lemma_mask31, lemma_dependency_field_round, lemma_settings_bytes_len,
    FRAME_TYPE_DATA, FRAME_TYPE_HEADERS, FRAME_TYPE_PRIORITY, FRAME_TYPE_RST_STREAM,
    FRAME_TYPE_SETTINGS, FRAME_TYPE_PUSH_PROMISE, FRAME_TYPE_PING, FRAME_TYPE_GO_AWAY,
    FRAME_TYPE_WINDOW_UPDATE, FRAME_TYPE_CONTINUATION, MAX_PAYLOAD_LEN};
use crate::codec::{FrameErrorKind, pre_failure, body_failure, pad_len, prefix_len, parse_payload,
    spec_read_frame, spec_priority_info, settings_entry_at};

verus! {

/// How the flag bits a writer assembles read back: each boolean lands on its
/// own bit, and the writer never sets the `PADDED` bit.
proof fn lemma_flag_bits(f: u8, e1: u8, e4: u8, e32: u8)
    by (bit_vector)
    requires
        e1 == 0 || e1 == 1,
        e4 == 0 || e4 == 4,
        e32 == 0 || e32 == 0x20,
        f == e1 + e4 + e32,
    ensures
        (f & 0x1u8 != 0) == (e1 == 1),
        (f & 0x4u8 != 0) == (e4 == 4),
        (f & 0x20u8 != 0) == (e32 == 0x20),
        f & 0x8u8 == 0,
{
}

/// The flag byte of every well-formed frame reads back to the frame's own
/// booleans, and never announces padding.
proof fn lemma_flag_byte(m: FrameModel)
    ensures
        !flag_set(m.flag_byte(), flags::PADDED),
        m matches FrameModel::Data { is_end_stream, .. } ==> flag_set(m.flag_byte(),
            flags::END_STREAM) == is_end_stream,
        m matches FrameModel::Headers { priority_info, is_end_of_stream, is_end_of_headers, .. }
            ==> (flag_set(m.flag_byte(), flags::END_STREAM) == is_end_of_stream && flag_set(
            m.flag_byte(), flags::END_HEADERS) == is_end_of_headers && flag_set(m.flag_byte(),
            flags::PRIORITY) == (priority_info is Some)),
        m matches FrameModel::Settings { is_ack, .. } ==> flag_set(m.flag_byte(), flags::ACK)
            == is_ack,
        m matches FrameModel::Ping { is_ack, .. } ==> flag_set(m.flag_byte(), flags::ACK) == is_ack,
        m matches FrameModel::PushPromise { is_end_of_headers, .. } ==> flag_set(m.flag_byte(),
            flags::END_HEADERS) == is_end_of_headers,
        m matches FrameModel::Continuation { is_end_headers, .. } ==> flag_set(m.flag_byte(),
            flags::END_HEADERS) == is_end_headers,
{
    match m {
        FrameModel::Data { is_end_stream, .. } => {
            lemma_flag_bits(m.flag_byte(), if is_end_stream { 1 } else { 0 }, 0, 0);
        },
        FrameModel::Headers { priority_info, is_end_of_stream, is_end_of_headers, .. } => {
            lemma_flag_bits(m.flag_byte(), if is_end_of_stream { 1 } else { 0 },
                if is_end_of_headers { 4 } else { 0 },
                if priority_info is Some { 0x20 } else { 0 });
        },
        FrameModel::Settings { is_ack, .. } => {
            lemma_flag_bits(m.flag_byte(), if is_ack { 1 } else { 0 }, 0, 0);
        },
        FrameModel::Ping { is_ack, .. } => {
            lemma_flag_bits(m.flag_byte(), if is_ack { 1 } else { 0 }, 0, 0);
        },
        FrameModel::PushPromise { is_end_of_headers, .. } => {
            lemma_flag_bits(m.flag_byte(), 0, if is_end_of_headers { 4 } else { 0 }, 0);
        },
        FrameModel::Continuation { is_end_headers, .. } => {
            lemma_flag_bits(m.flag_byte(), 0, if is_end_headers { 4 } else { 0 }, 0);
        },
        _ => {
            lemma_flag_bits(m.flag_byte(), 0, 0, 0);
        },
    }
}

/// Every payload a well-formed frame writes fits the 3-byte length field.
proof fn lemma_payload_len_bound(m: FrameModel)
    requires
        m.wf(),
    ensures
        0 <= m.payload_len() <= MAX_PAYLOAD_LEN,
{
    match m {
        FrameModel::Settings { values, .. } => {
            lemma_settings_bytes_len(values);
        },
        _ => {},
    }
}

/// Header framing: the 9-byte header of every well-formed frame encodes the
/// payload's own length, the frame's type byte, the flag bits reassembled
/// from its booleans, and the stream id masked to 31 bits.
pub proof fn lemma_header_framing(m: FrameModel)
    requires
        m.wf(),
    ensures
        m.encode().len() == 9 + m.payload_len(),
        be24_val(m.encode()[0], m.encode()[1], m.encode()[2]) == m.payload_len(),
        m.encode()[3] == m.type_byte(),
        m.encode()[4] == m.flag_byte(),
        be32_val(m.encode()[5], m.encode()[6], m.encode()[7], m.encode()[8]) == (
        m.header_stream_id() & 0x7fffffffu32),
        m.header_stream_id() & 0x7fffffffu32 == m.header_stream_id(),
        m.encode().subrange(9, 9 + m.payload_len()) == m.payload_bytes(),
{
    let b = m.encode();
    let pl = m.payload_bytes();
    let len = m.payload_len() as u32;
    let sid = m.header_stream_id();
    lemma_payload_len_bound(m);
    let hdr = header_bytes(len, m.type_byte(), m.flag_byte(), sid);
    assert(hdr.len() == 9);
    assert(b =~= hdr + pl);
    lemma_be24_round(len);
    lemma_be32_round(sid & 0x7fffffffu32);
    lemma_mask31(sid);
    assert(sid < 0x80000000u32);
    assert(b[0] == be24_bytes(len)[0] && b[1] == be24_bytes(len)[1] && b[2] == be24_bytes(len)[2]);
    assert(b[5] == be32_bytes(sid & 0x7fffffffu32)[0] && b[6] == be32_bytes(
        sid & 0x7fffffffu32)[1] && b[7] == be32_bytes(sid & 0x7fffffffu32)[2] && b[8]
        == be32_bytes(sid & 0x7fffffffu32)[3]);
    assert(b.subrange(9, 9 + m.payload_len()) =~= pl);
}

/// Each settings entry reads back from its six bytes.
proof fn lemma_settings_parse(values: Seq<(u16, u32)>)
    ensures
        settings_bytes(values).len() == 6 * values.len(),
        forall|i: int|
            0 <= i < values.len() ==> #[trigger] settings_entry_at(settings_bytes(values), i)
                == values[i],
    decreases values.len(),
{
    lemma_settings_bytes_len(values);
    if values.len() > 0 {
        let rest = values.drop_first();
        lemma_settings_parse(rest);
        lemma_settings_bytes_len(rest);
        let b = settings_bytes(values);
        let e = settings_entry_bytes(values[0]);
        let br = settings_bytes(rest);
        assert(b =~= e + br);
        lemma_be16_round(values[0].0);
        lemma_be32_round(values[0].1);
        assert(settings_entry_at(b, 0) == values[0]);
        assert forall|i: int| 1 <= i < values.len() implies #[trigger] settings_entry_at(b, i)
            == values[i] by {
            assert(b[6 * i] == br[6 * (i - 1)]);
            assert(b[6 * i + 1] == br[6 * (i - 1) + 1]);
            assert(b[6 * i + 2] == br[6 * (i - 1) + 2]);
            assert(b[6 * i + 3] == br[6 * (i - 1) + 3]);
            assert(b[6 * i + 4] == br[6 * (i - 1) + 4]);
            assert(b[6 * i + 5] == br[6 * (i - 1) + 5]);
            assert(settings_entry_at(br, i - 1) == rest[i - 1]);
        }
    }
}

/// A rejoined dependency field splits back into the exclusive bit and the
/// 31-bit id it was built from.
pub proof fn lemma_priority_packing(p: PriorityInfo)
    requires
        p.wf(),
    ensures
        (spec_dependency_field(p) & 0x80000000u32 != 0) == p.exclusive,
        spec_dependency_field(p) & 0x7fffffffu32 == p.stream_dependency_id,
        spec_priority_info(spec_dependency_field(p), p.weight) == p,
{
    lemma_dependency_field_round(spec_dependency_field(p), p.stream_dependency_id);
}

/// Round trip: reading a written well-formed frame gives the frame back and
/// consumes exactly its bytes.
pub proof fn lemma_read_write_round_trip(m: FrameModel)
    requires
        m.wf(),
    ensures
        spec_read_frame(m.encode()) matches Ok(r) && r.0 == m && r.1 == m.encode().len(),
{
    let b = m.encode();
    let pl = m.payload_bytes();
    let len = m.payload_len();
    let ty = m.type_byte();
    let fl = m.flag_byte();
    let sid = m.header_stream_id();
    lemma_header_framing(m);
    lemma_flag_byte(m);
    lemma_mask31(sid);
    let payload = b.subrange(9, 9 + len);
    assert(payload == pl);
    assert(pad_len(fl, payload) == 0);
    assert(body_failure(len, ty, fl, payload) is None);
    match m {
        FrameModel::Data { stream_id, is_end_stream, data } => {
            assert(pre_failure(len, ty, fl, sid) is None);
            assert(payload.subrange(0, len) =~= data);
            assert(parse_payload(len, ty, fl, sid, payload) == m);
        },
        FrameModel::Headers {
            stream_id,
            priority_info,
            is_end_of_stream,
            is_end_of_headers,
            header_block_fragment,
        } => {
            match priority_info {
                Some(p) => {
                    assert(prefix_len(ty, fl) == 5);
                    assert(pre_failure(len, ty, fl, sid) is None);
                    let df = spec_dependency_field(p);
                    assert(pl =~= be32_bytes(df) + seq![p.weight] + header_block_fragment);
                    assert(payload[0] == be32_bytes(df)[0] && payload[1] == be32_bytes(df)[1]
                        && payload[2] == be32_bytes(df)[2] && payload[3] == be32_bytes(df)[3]);
                    assert(payload[4] == p.weight);
                    lemma_be32_round(df);
                    lemma_priority_packing(p);
                    assert(payload.subrange(5, len) =~= header_block_fragment);
                    assert(parse_payload(len, ty, fl, sid, payload) == m);
                },
                None => {
                    assert(prefix_len(ty, fl) == 0);
                    assert(pre_failure(len, ty, fl, sid) is None);
                    assert(payload.subrange(0, len) =~= header_block_fragment);
                    assert(parse_payload(len, ty, fl, sid, payload) == m);
                },
            }
        },
        FrameModel::Priority { stream_id, priority_info } => {
            let df = spec_dependency_field(priority_info);
            assert(pl =~= be32_bytes(df) + seq![priority_info.weight]);
            assert(len == 5);
            assert(pre_failure(len, ty, fl, sid) is None);
            assert(payload[0] == be32_bytes(df)[0] && payload[1] == be32_bytes(df)[1] && payload[2]
                == be32_bytes(df)[2] && payload[3] == be32_bytes(df)[3]);
            assert(payload[4] == priority_info.weight);
            lemma_be32_round(df);
            lemma_priority_packing(priority_info);
            assert(parse_payload(len, ty, fl, sid, payload) == m);
        },
        FrameModel::RstStream { stream_id, error_code } => {
            assert(pl =~= be32_bytes(error_code));
            assert(len == 4);
            assert(pre_failure(len, ty, fl, sid) is None);
            lemma_be32_round(error_code);
            assert(parse_payload(len, ty, fl, sid, payload) == m);
        },
        FrameModel::Settings { is_ack, values } => {
            lemma_settings_parse(values);
            assert(len == 6 * values.len());
            assert(len % 6 == 0);
            assert(pre_failure(len, ty, fl, sid) is None);
            assert(len / 6 == values.len());
            assert(Seq::new((len / 6) as nat, |i: int| settings_entry_at(payload, i)) =~= values);
            assert(parse_payload(len, ty, fl, sid, payload) == m);
        },
        FrameModel::PushPromise {
            stream_id,
            promised_stream_id,
            is_end_of_headers,
            header_block_fragment,
        } => {
            assert(pl =~= be32_bytes(promised_stream_id) + header_block_fragment);
            assert(prefix_len(ty, fl) == 4);
            assert(pre_failure(len, ty, fl, sid) is None);
            assert(payload[0] == be32_bytes(promised_stream_id)[0] && payload[1] == be32_bytes(
                promised_stream_id)[1] && payload[2] == be32_bytes(promised_stream_id)[2]
                && payload[3] == be32_bytes(promised_stream_id)[3]);
            lemma_be32_round(promised_stream_id);
            assert(payload.subrange(4, len) =~= header_block_fragment);
            assert(parse_payload(len, ty, fl, sid, payload) == m);
        },
        FrameModel::Ping { is_ack, opaque_data } => {
            assert(len == 8);
            assert(pre_failure(len, ty, fl, sid) is None);
            assert(parse_payload(len, ty, fl, sid, payload) == m);
        },
        FrameModel::GoAway { last_stream_id, error_code, additional_debug_data } => {
            assert(pl =~= be32_bytes(last_stream_id) + be32_bytes(error_code)
                + additional_debug_data);
            assert(len >= 8);
            assert(pre_failure(len, ty, fl, sid) is None);
            assert(payload[0] == be32_bytes(last_stream_id)[0] && payload[1] == be32_bytes(
                last_stream_id)[1] && payload[2] == be32_bytes(last_stream_id)[2] && payload[3]
                == be32_bytes(last_stream_id)[3]);
            assert(payload[4] == be32_bytes(error_code)[0] && payload[5] == be32_bytes(
                error_code)[1] && payload[6] == be32_bytes(error_code)[2] && payload[7]
                == be32_bytes(error_code)[3]);
            lemma_be32_round(last_stream_id);
            lemma_be32_round(error_code);
            assert(payload.subrange(8, len) =~= additional_debug_data);
            assert(parse_payload(len, ty, fl, sid, payload) == m);
        },
        FrameModel::WindowUpdate { stream_id, size_increment } => {
            assert(pl =~= be32_bytes(size_increment));
            assert(len == 4);
            assert(pre_failure(len, ty, fl, sid) is None);
            lemma_be32_round(size_increment);
            match stream_id {
                Some(s) => {
                    assert(sid == s && s != 0);
                },
                None => {
                    assert(sid == 0);
                },
            }
            assert(parse_payload(len, ty, fl, sid, payload) == m);
        },
        FrameModel::Continuation { stream_id, is_end_headers, header_block_fragment } => {
            assert(pre_failure(len, ty, fl, sid) is None);
            assert(payload =~= header_block_fragment);
            assert(parse_payload(len, ty, fl, sid, payload) == m);
        },
    }
    assert(spec_read_frame(b) matches Ok(r) && r.0 == m && r.1 == 9 + len);
}

/// Invariant enforcement: a frame whose header violates its row of the frame
/// table reads back as the matching error, and no frame.
pub proof fn lemma_invariant_enforcement(b: Seq<u8>)
    requires
        b.len() >= 9,
    ensures
        ({
            let len = be24_val(b[0], b[1], b[2]) as int;
            let ty = b[3];
            let sid = be32_val(b[5], b[6], b[7], b[8]) & 0x7fffffffu32;
            &&& (ty == FRAME_TYPE_DATA || ty == FRAME_TYPE_CONTINUATION) && sid == 0 ==> (
            spec_read_frame(b) matches Err(k) && k is IdRequired)
            &&& (ty == FRAME_TYPE_HEADERS || ty == FRAME_TYPE_PUSH_PROMISE) && sid == 0 ==> (
            spec_read_frame(b) matches Err(k) && k is IdRequired)
            &&& ty == FRAME_TYPE_PRIORITY && len == 5 && sid == 0 ==> (spec_read_frame(b)
                matches Err(k) && k is IdRequired)
            &&& ty == FRAME_TYPE_RST_STREAM && len == 4 && sid == 0 ==> (spec_read_frame(b)
                matches Err(k) && k is IdRequired)
            &&& ty == FRAME_TYPE_SETTINGS && len % 6 == 0 && sid != 0 ==> (spec_read_frame(b)
                matches Err(k) && k is IdForbidden)
            &&& ty == FRAME_TYPE_PING && len == 8 && sid != 0 ==> (spec_read_frame(b) matches Err(
                k,
            ) && k is IdForbidden)
            &&& ty == FRAME_TYPE_GO_AWAY && len >= 8 && sid != 0 ==> (spec_read_frame(b)
                matches Err(k) && k is IdForbidden)
            &&& ty == FRAME_TYPE_PRIORITY && len != 5 ==> (spec_read_frame(b) matches Err(k)
                && k is BadSize)
            &&& ty == FRAME_TYPE_RST_STREAM && len != 4 ==> (spec_read_frame(b) matches Err(k)
                && k is BadSize)
            &&& ty == FRAME_TYPE_PING && len != 8 ==> (spec_read_frame(b) matches Err(k)
                && k is BadSize)
            &&& ty == FRAME_TYPE_WINDOW_UPDATE && len != 4 ==> (spec_read_frame(b) matches Err(k)
                && k is BadSize)
            &&& ty == FRAME_TYPE_SETTINGS && len % 6 != 0 ==> (spec_read_frame(b) matches Err(k)
                && k is BadSize)
            &&& ty == FRAME_TYPE_GO_AWAY && len < 8 ==> (spec_read_frame(b) matches Err(k)
                && k is BadSize)
            &&& ty > 9 ==> (spec_read_frame(b) matches Err(k) && k matches FrameErrorKind::Unknown {
                ty: t,
            } && t == ty)
        }),
{
}

/// Padding: a padded Data, Headers or PushPromise frame that reads back
/// successfully returns a fragment exactly pad-length-and-prefix shorter
/// than its payload.
pub proof fn lemma_padding(b: Seq<u8>)
    requires
        b.len() >= 9,
        spec_read_frame(b) is Ok,
    ensures
        ({
            let len = be24_val(b[0], b[1], b[2]) as int;
            let ty = b[3];
            let fl = b[4];
            let payload = b.subrange(9, 9 + len);
            let p = pad_len(fl, payload);
            &&& ty == FRAME_TYPE_DATA && flag_set(fl, flags::PADDED) ==> (spec_read_frame(
                b,
            ) matches Ok(r) && r.0 matches FrameModel::Data { data, .. } && data.len() == len - 1
                - p)
            &&& ty == FRAME_TYPE_HEADERS && flag_set(fl, flags::PADDED) ==> (spec_read_frame(
                b,
            ) matches Ok(r) && r.0 matches FrameModel::Headers { header_block_fragment, .. }
                && header_block_fragment.len() == len - 1 - (if flag_set(fl, flags::PRIORITY) {
                5int
            } else {
                0int
            }) - p)
            &&& ty == FRAME_TYPE_PUSH_PROMISE && flag_set(fl, flags::PADDED) ==> (spec_read_frame(
                b,
            ) matches Ok(r) && r.0 matches FrameModel::PushPromise { header_block_fragment, .. }
                && header_block_fragment.len() == len - 1 - 4 - p)
        }),
{
}

} // verus!
