use byteorder::{NetworkEndian, WriteBytesExt};
use std::io::Write;

use rust_https_server::codec::{read_frame, write_frame, FrameError};
use rust_https_server::frames::{Frame, PriorityInfo};

const FRAME_TYPE_DATA: u8 = 0x0;
const FRAME_TYPE_HEADERS: u8 = 0x1;
const FRAME_TYPE_SETTINGS: u8 = 0x4;
const FRAME_TYPE_PUSH_PROMISE: u8 = 0x5;
const PADDED: u8 = 0x8;
const END_STREAM: u8 = 0x1;
const END_HEADERS: u8 = 0x4;
const PRIORITY: u8 = 0x20;
const ACK: u8 = 0x1;
const HEADER_TABLE_SIZE: u16 = 0x01;
const ENABLE_PUSH: u16 = 0x02;
const PROTOCOL_ERROR: u32 = 0x0001;

fn create_dummy_frame(flags: u8) -> Vec<u8> {
    let mut frame_bytes = Vec::new();
    let frame_payload = "testing";
    let frame_length: u32 = frame_payload.len() as u32;
    frame_bytes.write_u24::<NetworkEndian>(frame_length).unwrap();
    frame_bytes.write_u8(FRAME_TYPE_DATA).unwrap();
    frame_bytes.write_u8(flags).unwrap();
    frame_bytes.write_u32::<NetworkEndian>(0x0001).unwrap();
    frame_bytes.write(frame_payload.as_bytes()).unwrap();
    frame_bytes
}

#[test]
fn read_header_works() {}

#[test]
fn test_no_padding() {
    let frame_bytes = create_dummy_frame(0x0);
    match read_frame(&frame_bytes) {
        Ok((Frame::Data { stream_id: _, data: actual, is_end_stream: _ }, _)) => {
            assert_eq!("testing".as_bytes(), actual.as_slice())
        }
        Ok((frame, _)) => panic!("Success? {:?}", frame),
        Err(e) => panic!("Error:{:?}", e),
    }
}

#[test]
fn test_with_padding() {
    let mut frame_bytes = Vec::new();
    let frame_payload = "testing";
    let frame_length: u32 = (frame_payload.len() + 2) as u32;
    frame_bytes.write_u24::<NetworkEndian>(frame_length).unwrap();
    frame_bytes.write_u8(FRAME_TYPE_DATA).unwrap();
    frame_bytes.write_u8(PADDED).unwrap();
    frame_bytes.write_u32::<NetworkEndian>(0x0001).unwrap();
    frame_bytes.write_u8(0x1).unwrap();
    frame_bytes.write(frame_payload.as_bytes()).unwrap();
    frame_bytes.write_u8(0x0).unwrap();
    match read_frame(&frame_bytes) {
        Ok((Frame::Data { stream_id: _, data: actual, is_end_stream: _ }, _)) => {
            assert_eq!(frame_payload.as_bytes(), actual.as_slice())
        }
        Ok((frame, _)) => panic!("Success? {:?}", frame),
        Err(e) => panic!("Error:{:?}", e),
    }
}

#[test]
fn test_not_end() {
    let frame_bytes = create_dummy_frame(0x0);
    match read_frame(&frame_bytes) {
        Ok((Frame::Data { stream_id: _, data: _, is_end_stream }, _)) => {
            assert_eq!(false, is_end_stream)
        }
        Ok((frame, _)) => panic!("Success? {:?}", frame),
        Err(e) => panic!("Error:{:?}", e),
    }
}

#[test]
fn test_is_end() {
    let frame_bytes = create_dummy_frame(END_STREAM);
    match read_frame(&frame_bytes) {
        Ok((Frame::Data { stream_id: _, data: _, is_end_stream }, _)) => {
            assert_eq!(true, is_end_stream)
        }
        Ok((frame, _)) => panic!("Success? {:?}", frame),
        Err(e) => panic!("Error:{:?}", e),
    }
}

#[test]
fn test_write_frame() {
    let output = write_frame(&Frame::Data {
        stream_id: 1,
        data: Vec::from("test"),
        is_end_stream: false,
    });
    assert_eq!(
        output,
        vec![0x0, 0x0, 0x4, FRAME_TYPE_DATA, 0x0, 0x0, 0x0, 0x0, 0x1, b't', b'e', b's', b't']
    )
}

#[test]
fn data_test_round_trip() {
    let output = write_frame(&Frame::Data {
        stream_id: 1,
        data: Vec::from("test"),
        is_end_stream: false,
    });
    match read_frame(&output) {
        Ok((Frame::Data { stream_id: 1, data: payload, is_end_stream: false }, _)) => {
            assert_eq!("test".as_bytes(), payload.as_slice())
        }
        _ => assert!(false),
    }
}

fn create_dummy_settings_frame(flags: u8, settings: Vec<(u16, u32)>) -> Vec<u8> {
    let mut frame_bytes = Vec::new();
    let frame_length: u32 = (settings.len() * 6) as u32;
    frame_bytes.write_u24::<NetworkEndian>(frame_length).unwrap();
    frame_bytes.write_u8(FRAME_TYPE_SETTINGS).unwrap();
    frame_bytes.write_u8(flags).unwrap();
    frame_bytes.write_u32::<NetworkEndian>(0x0000).unwrap();
    for setting in settings {
        frame_bytes.write_u16::<NetworkEndian>(setting.0).unwrap();
        frame_bytes.write_u32::<NetworkEndian>(setting.1).unwrap();
    }
    frame_bytes
}

#[test]
fn settings_test_empty_frame() {
    let frame_bytes = create_dummy_settings_frame(0x0, Vec::new());
    match read_frame(&frame_bytes) {
        Ok((Frame::Settings { is_ack: _, values }, _)) => assert_eq!(values.len(), 0),
        Ok((frame, _)) => panic!("Success? {:?}", frame),
        Err(e) => panic!("Error:{:?}", e),
    }
}

#[test]
fn test_empty_ack_frame() {
    let frame_bytes = create_dummy_settings_frame(ACK, Vec::new());
    match read_frame(&frame_bytes) {
        Ok((Frame::Settings { is_ack, values: _ }, _)) => assert_eq!(true, is_ack),
        Ok((frame, _)) => panic!("Success? {:?}", frame),
        Err(e) => panic!("Error:{:?}", e),
    }
}

#[test]
fn test_frame_with_single_setting() {
    let frame_bytes = create_dummy_settings_frame(0x0, vec![(HEADER_TABLE_SIZE, 0x0001)]);
    match read_frame(&frame_bytes) {
        Ok((Frame::Settings { is_ack: _, values }, _)) => assert_eq!(values.len(), 1),
        Ok((frame, _)) => panic!("Success? {:?}", frame),
        Err(e) => panic!("Error:{:?}", e),
    }
}

#[test]
fn test_frame_with_multiple_settings() {
    let frame_bytes =
        create_dummy_settings_frame(0x0, vec![(HEADER_TABLE_SIZE, 0x0001), (ENABLE_PUSH, 0x0000)]);
    match read_frame(&frame_bytes) {
        Ok((Frame::Settings { is_ack: _, values }, _)) => {
            assert_eq!(values, vec![(HEADER_TABLE_SIZE, 0x0001), (ENABLE_PUSH, 0x0000)])
        }
        Ok((frame, _)) => panic!("Success? {:?}", frame),
        Err(e) => panic!("Error:{:?}", e),
    }
}

#[test]
fn settings_test_round_trip() {
    let output = write_frame(&Frame::Settings {
        is_ack: true,
        values: vec![(HEADER_TABLE_SIZE, 0x0009)],
    });
    match read_frame(&output) {
        Ok((Frame::Settings { is_ack, values }, _)) => {
            assert_eq!(true, is_ack);
            assert_eq!(values, vec![(HEADER_TABLE_SIZE, 0x0009)]);
        }
        _ => assert!(false),
    }
}

fn create_dummy_headers_frame(
    flags: u8,
    mut fragment: Vec<u8>,
    mut padding_len: u8,
    priority_section: Option<[u8; 5]>,
) -> Vec<u8> {
    let mut frame_bytes = Vec::new();
    let frame_length: u32 = fragment.len() as u32
        + padding_len as u32
        + if padding_len > 0 { 1 } else { 0 }
        + if priority_section.is_some() { 5 } else { 0 };
    frame_bytes.write_u24::<NetworkEndian>(frame_length).unwrap();
    frame_bytes.write_u8(FRAME_TYPE_HEADERS).unwrap();
    frame_bytes.write_u8(flags).unwrap();
    frame_bytes.write_u32::<NetworkEndian>(0x0001).unwrap();
    if padding_len > 0 {
        frame_bytes.write_u8(padding_len).unwrap();
    }
    if let Some(priority_bytes) = priority_section {
        for b in priority_bytes.iter() {
            frame_bytes.push(*b);
        }
    }
    frame_bytes.append(&mut fragment);
    while padding_len > 0 {
        frame_bytes.push(0x0);
        padding_len -= 1;
    }
    frame_bytes
}

#[test]
fn headers_test_empty_frame() {
    let frame_bytes = create_dummy_headers_frame(0x0, Vec::new(), 0x0, None);
    match read_frame(&frame_bytes) {
        Ok((Frame::Headers { header_block_fragment, .. }, _)) => {
            assert_eq!(header_block_fragment.len(), 0)
        }
        Ok((frame, _)) => panic!("Success? {:?}", frame),
        Err(e) => panic!("Error:{:?}", e),
    }
}

#[test]
fn test_frame_random_data() {
    let frame_bytes = create_dummy_headers_frame(
        0x0,
        vec![0x0, 0x1, 0x2, 0x3, 0x4, 0x5, 0x6, 0x7, 0x8, 0x9],
        0x0,
        None,
    );
    match read_frame(&frame_bytes) {
        Ok((Frame::Headers { header_block_fragment, .. }, _)) => {
            assert_eq!(header_block_fragment.len(), 10)
        }
        Ok((frame, _)) => panic!("Success? {:?}", frame),
        Err(e) => panic!("Error:{:?}", e),
    }
}

#[test]
fn test_frame_random_data_with_padding() {
    let fragment = vec![0x0, 0x1, 0x2, 0x3, 0x4, 0x5, 0x6, 0x7, 0x8, 0x9];
    let frame_bytes = create_dummy_headers_frame(PADDED, fragment.clone(), 0x2, None);
    match read_frame(&frame_bytes) {
        Ok((Frame::Headers { header_block_fragment, .. }, _)) => {
            assert_eq!(header_block_fragment, fragment)
        }
        Ok((frame, _)) => panic!("Success? {:?}", frame),
        Err(e) => panic!("Error:{:?}", e),
    }
}

#[test]
fn test_priority_frame() {
    let fragment = vec![0x0, 0x1, 0x2, 0x3, 0x4, 0x5, 0x6, 0x7, 0x8, 0x9];
    let frame_bytes = create_dummy_headers_frame(
        PRIORITY,
        fragment.clone(),
        0x0,
        Some([0x80, 0x0, 0x0, 0x2, 0x1]),
    );
    match read_frame(&frame_bytes) {
        Ok((
            Frame::Headers {
                priority_info:
                    Some(PriorityInfo { exclusive: true, weight: 0x01, stream_dependency_id: 2 }),
                header_block_fragment,
                ..
            },
            _,
        )) => assert_eq!(header_block_fragment, fragment),
        Ok((Frame::Headers { priority_info, .. }, _)) => {
            panic!("Incorrect priority_info: {:?}", priority_info)
        }
        Ok((frame, _)) => panic!("Success? {:?}", frame),
        Err(e) => panic!("Error:{:?}", e),
    }
}

#[test]
fn headers_test_round_trip() {
    let output = write_frame(&Frame::Headers {
        priority_info: Some(PriorityInfo { exclusive: true, weight: 0x01, stream_dependency_id: 16 }),
        is_end_of_stream: true,
        is_end_of_headers: true,
        stream_id: 0x0001,
        header_block_fragment: vec![0xFF],
    });
    match read_frame(&output) {
        Ok((
            Frame::Headers {
                priority_info: Some(PriorityInfo { exclusive, weight, stream_dependency_id }),
                is_end_of_stream,
                is_end_of_headers,
                stream_id,
                header_block_fragment,
            },
            _,
        )) => {
            assert_eq!(true, exclusive);
            assert_eq!(0x01, weight);
            assert_eq!(16, stream_dependency_id);
            assert_eq!(true, is_end_of_stream);
            assert_eq!(true, is_end_of_headers);
            assert_eq!(0x0001, stream_id);
            assert_eq!(header_block_fragment, vec![0xFF]);
        }
        Err(FrameError::ReadFailed(context)) => panic!("ReadFailed:{}", context),
        _ => assert!(false),
    }
}

#[test]
fn test_round_trip_no_priority() {
    let output = write_frame(&Frame::Headers {
        priority_info: None,
        is_end_of_stream: true,
        is_end_of_headers: true,
        stream_id: 0x0001,
        header_block_fragment: vec![0xFF],
    });
    match read_frame(&output) {
        Ok((
            Frame::Headers {
                priority_info: None,
                is_end_of_stream,
                is_end_of_headers,
                stream_id,
                header_block_fragment,
            },
            _,
        )) => {
            assert_eq!(true, is_end_of_stream);
            assert_eq!(true, is_end_of_headers);
            assert_eq!(0x0001, stream_id);
            assert_eq!(header_block_fragment, vec![0xFF]);
        }
        Err(FrameError::ReadFailed(context)) => panic!("ReadFailed:{}", context),
        _ => assert!(false),
    }
}

#[test]
fn priority_test_round_trip() {
    let output = write_frame(&Frame::Priority {
        stream_id: 0x1,
        priority_info: PriorityInfo { exclusive: true, weight: 0x01, stream_dependency_id: 16 },
    });
    match read_frame(&output) {
        Ok((Frame::Priority { stream_id, priority_info }, _)) => {
            assert_eq!(true, priority_info.exclusive);
            assert_eq!(0x01, priority_info.weight);
            assert_eq!(16, priority_info.stream_dependency_id);
            assert_eq!(0x1, stream_id);
        }
        Err(FrameError::ReadFailed(context)) => panic!("ReadFailed:{}", context),
        _ => assert!(false),
    }
}

#[test]
fn rst_stream_test_round_trip() {
    let output = write_frame(&Frame::RstStream { stream_id: 0x1, error_code: PROTOCOL_ERROR });
    match read_frame(&output) {
        Ok((Frame::RstStream { stream_id, error_code }, _)) => {
            assert_eq!(0x1, stream_id);
            assert_eq!(PROTOCOL_ERROR, error_code);
        }
        Err(FrameError::ReadFailed(context)) => panic!("ReadFailed:{}", context),
        _ => assert!(false),
    }
}

fn create_dummy_push_promise_frame(
    flags: u8,
    promised_stream_id: u32,
    mut fragment: Vec<u8>,
    mut padding_len: u8,
) -> Vec<u8> {
    let mut frame_bytes = Vec::new();
    let frame_length: u32 =
        if padding_len > 0 { 1 } else { 0 } + 4 + fragment.len() as u32 + padding_len as u32;
    frame_bytes.write_u24::<NetworkEndian>(frame_length).unwrap();
    frame_bytes.write_u8(FRAME_TYPE_PUSH_PROMISE).unwrap();
    frame_bytes.write_u8(flags).unwrap();
    frame_bytes.write_u32::<NetworkEndian>(0x0001).unwrap();
    if padding_len > 0 {
        frame_bytes.write_u8(padding_len).unwrap();
    }
    frame_bytes.write_u32::<NetworkEndian>(promised_stream_id).unwrap();
    frame_bytes.append(&mut fragment);
    while padding_len > 0 {
        frame_bytes.push(0x0);
        padding_len -= 1;
    }
    frame_bytes
}

#[test]
fn test_empty() {
    let frame_bytes = create_dummy_push_promise_frame(0x0, 0x1, Vec::new(), 0x0);
    match read_frame(&frame_bytes) {
        Ok((Frame::PushPromise { promised_stream_id, header_block_fragment, .. }, _)) => {
            assert_eq!(promised_stream_id, 0x1);
            assert_eq!(header_block_fragment.len(), 0);
        }
        Ok((frame, _)) => panic!("Success? {:?}", frame),
        Err(e) => panic!("Error:{:?}", e),
    }
}

#[test]
fn test_header_frag() {
    let header_frag = vec![0x01, 0x02, 0x03, 0x04, 0x05, 0x06, 0x07, 0x08, 0x09];
    let frame_bytes = create_dummy_push_promise_frame(0x0, 0x1, header_frag.clone(), 0x0);
    match read_frame(&frame_bytes) {
        Ok((Frame::PushPromise { header_block_fragment, .. }, _)) => {
            assert_eq!(header_block_fragment, header_frag)
        }
        Ok((frame, _)) => panic!("Success? {:?}", frame),
        Err(e) => panic!("Error:{:?}", e),
    }
}

#[test]
fn test_header_frag_with_padding() {
    let header_frag = vec![0x01, 0x02, 0x03, 0x04, 0x05, 0x06, 0x07, 0x08, 0x09];
    let frame_bytes = create_dummy_push_promise_frame(PADDED, 0x1, header_frag.clone(), 10);
    match read_frame(&frame_bytes) {
        Ok((Frame::PushPromise { header_block_fragment, .. }, _)) => {
            assert_eq!(header_block_fragment, header_frag)
        }
        Ok((frame, _)) => panic!("Success? {:?}", frame),
        Err(e) => panic!("Error:{:?}", e),
    }
}

#[test]
fn test_end_of_headers() {
    let frame_bytes = create_dummy_push_promise_frame(END_HEADERS, 0x1, Vec::new(), 0x0);
    match read_frame(&frame_bytes) {
        Ok((Frame::PushPromise { is_end_of_headers, .. }, _)) => {
            assert_eq!(is_end_of_headers, true)
        }
        Ok((frame, _)) => panic!("Success? {:?}", frame),
        Err(e) => panic!("Error:{:?}", e),
    }
}

#[test]
fn push_promise_test_round_trip() {
    let header_frag = vec![0x01, 0x02, 0x03, 0x04, 0x05, 0x06, 0x07, 0x08, 0x09];
    let output = write_frame(&Frame::PushPromise {
        stream_id: 0x1,
        promised_stream_id: 0x2,
        is_end_of_headers: true,
        header_block_fragment: header_frag.clone(),
    });
    match read_frame(&output) {
        Ok((
            Frame::PushPromise {
                promised_stream_id,
                is_end_of_headers,
                stream_id,
                header_block_fragment,
            },
            _,
        )) => {
            assert_eq!(stream_id, 0x1);
            assert_eq!(promised_stream_id, 0x2);
            assert_eq!(is_end_of_headers, true);
            assert_eq!(header_block_fragment, header_frag);
        }
        Err(FrameError::ReadFailed(context)) => panic!("ReadFailed:{}", context),
        _ => assert!(false),
    }
}

#[test]
fn ping_test_round_trip() {
    let output = write_frame(&Frame::Ping {
        is_ack: true,
        opaque_data: [0x1, 0x2, 0x3, 0x4, 0x5, 0x6, 0x7, 0x8],
    });
    match read_frame(&output) {
        Ok((Frame::Ping { is_ack, opaque_data }, _)) => {
            assert_eq!(true, is_ack);
            assert_eq!(opaque_data, [0x1, 0x2, 0x3, 0x4, 0x5, 0x6, 0x7, 0x8]);
        }
        Err(FrameError::ReadFailed(context)) => panic!("ReadFailed:{}", context),
        _ => assert!(false),
    }
}

#[test]
fn go_away_test_round_trip() {
    let output = write_frame(&Frame::GoAway {
        last_stream_id: 0x1,
        error_code: 0x2,
        additional_debug_data: vec![0x1, 0x2, 0x3, 0x4, 0x5, 0x6, 0x7, 0x8],
    });
    match read_frame(&output) {
        Ok((Frame::GoAway { last_stream_id, error_code, additional_debug_data }, _)) => {
            assert_eq!(0x1, last_stream_id);
            assert_eq!(0x2, error_code);
            assert_eq!(additional_debug_data, vec![0x1, 0x2, 0x3, 0x4, 0x5, 0x6, 0x7, 0x8]);
        }
        Ok((frame, _)) => panic!("Wrong type:{:?}", frame),
        Err(FrameError::ReadFailed(context)) => panic!("ReadFailed:{}", context),
        Err(e) => panic!("error:{:?}", e),
    }
}

#[test]
fn window_update_test_round_trip() {
    let output = write_frame(&Frame::WindowUpdate { stream_id: None, size_increment: 0xff });
    match read_frame(&output) {
        Ok((Frame::WindowUpdate { stream_id, size_increment }, _)) => {
            assert_eq!(None, stream_id);
            assert_eq!(0xff, size_increment);
        }
        Err(FrameError::ReadFailed(context)) => panic!("ReadFailed:{}", context),
        _ => assert!(false),
    }
}

#[test]
fn continuation_test_round_trip() {
    let output = write_frame(&Frame::Continuation {
        stream_id: 0x1,
        is_end_headers: true,
        header_block_fragment: vec![0x1, 0x2, 0x3, 0x4, 0x5, 0x6, 0x7, 0x8],
    });
    match read_frame(&output) {
        Ok((Frame::Continuation { stream_id, is_end_headers, header_block_fragment }, _)) => {
            assert_eq!(0x1, stream_id);
            assert_eq!(is_end_headers, true);
            assert_eq!(vec![0x1, 0x2, 0x3, 0x4, 0x5, 0x6, 0x7, 0x8], header_block_fragment);
        }
        Err(FrameError::ReadFailed(context)) => panic!("ReadFailed:{}", context),
        _ => assert!(false),
    }
}

#[test]
fn stream_id_required_yields_error() {
    let mut frame_bytes = Vec::new();
    frame_bytes.write_u24::<NetworkEndian>(0).unwrap();
    frame_bytes.write_u8(FRAME_TYPE_DATA).unwrap();
    frame_bytes.write_u8(0x0).unwrap();
    frame_bytes.write_u32::<NetworkEndian>(0x0000).unwrap();
    match read_frame(&frame_bytes) {
        Err(FrameError::StreamIdRequired()) => {}
        other => panic!("expected StreamIdRequired, got {:?}", other),
    }
}

#[test]
fn stream_id_forbidden_yields_error() {
    let mut frame_bytes = Vec::new();
    frame_bytes.write_u24::<NetworkEndian>(0).unwrap();
    frame_bytes.write_u8(FRAME_TYPE_SETTINGS).unwrap();
    frame_bytes.write_u8(0x0).unwrap();
    frame_bytes.write_u32::<NetworkEndian>(0x0001).unwrap();
    match read_frame(&frame_bytes) {
        Err(FrameError::StreamIdForbidden()) => {}
        other => panic!("expected StreamIdForbidden, got {:?}", other),
    }
}

#[test]
fn bad_size_yields_error() {
    let mut frame_bytes = Vec::new();
    frame_bytes.write_u24::<NetworkEndian>(7).unwrap();
    frame_bytes.write_u8(0x2).unwrap();
    frame_bytes.write_u8(0x0).unwrap();
    frame_bytes.write_u32::<NetworkEndian>(0x0001).unwrap();
    frame_bytes.extend_from_slice(&[0u8; 7]);
    match read_frame(&frame_bytes) {
        Err(FrameError::InvalidFrameSize()) => {}
        other => panic!("expected InvalidFrameSize, got {:?}", other),
    }
}

#[test]
fn unknown_type_yields_error() {
    let mut frame_bytes = Vec::new();
    frame_bytes.write_u24::<NetworkEndian>(0).unwrap();
    frame_bytes.write_u8(0x77).unwrap();
    frame_bytes.write_u8(0x0).unwrap();
    frame_bytes.write_u32::<NetworkEndian>(0x0001).unwrap();
    match read_frame(&frame_bytes) {
        Err(FrameError::Unrecognized(0x77)) => {}
        other => panic!("expected Unrecognized, got {:?}", other),
    }
}

#[test]
fn truncated_input_yields_read_failed() {
    let frame_bytes = vec![0x0, 0x0];
    match read_frame(&frame_bytes) {
        Err(FrameError::ReadFailed(_)) => {}
        other => panic!("expected ReadFailed, got {:?}", other),
    }
}

#[test]
fn priority_packing_splits_and_rejoins() {
    let p = PriorityInfo::new(0x8000_0010, 7);
    assert_eq!(p.exclusive, true);
    assert_eq!(p.stream_dependency_id, 0x10);
    assert_eq!(p.weight, 7);
    assert_eq!(p.stream_dependency_field(), 0x8000_0010);
    let q = PriorityInfo::new(0x10, 9);
    assert_eq!(q.exclusive, false);
    assert_eq!(q.stream_dependency_field(), 0x10);
}
