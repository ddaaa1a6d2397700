use risotto::framing::{
    check_common_header, message_type, next_frame_step, parse_common_header, split_frames,
    CommonHeader, FrameStep, FramingError, MessageType, StreamEnd,
};

const NO_LIMIT: u32 = u32::MAX;

#[test]
fn reads_big_endian_length() {
    let header = parse_common_header(&[3, 0x01, 0x02, 0x03, 0x04, 0]);
    assert_eq!(header, CommonHeader { version: 3, length: 0x0102_0304, message_type: 0 });
}

#[test]
fn accepts_smallest_sound_header() {
    let r = check_common_header(&[3, 0, 0, 0, 6, 6], NO_LIMIT);
    assert_eq!(r, Ok(CommonHeader { version: 3, length: 6, message_type: 6 }));
}

#[test]
fn rejects_version_two() {
    let r = check_common_header(&[2, 0, 0, 0, 6, 0], NO_LIMIT);
    assert_eq!(r, Err(FramingError::UnsupportedVersion(2)));
}

#[test]
fn rejects_length_below_header() {
    assert_eq!(
        check_common_header(&[3, 0, 0, 0, 5, 0], NO_LIMIT),
        Err(FramingError::InvalidLength(5))
    );
    assert_eq!(
        check_common_header(&[3, 0, 0, 0, 0, 0], NO_LIMIT),
        Err(FramingError::InvalidLength(0))
    );
}

#[test]
fn rejects_type_above_six() {
    let r = check_common_header(&[3, 0, 0, 0, 6, 7], NO_LIMIT);
    assert_eq!(r, Err(FramingError::UnsupportedType(7)));
}

#[test]
fn rejects_length_beyond_limit() {
    assert_eq!(
        check_common_header(&[3, 0, 0, 0x10, 0x01, 0], 4096),
        Err(FramingError::TooLong(4097))
    );
    assert_eq!(
        check_common_header(&[3, 0, 0, 0x10, 0x00, 0], 4096),
        Ok(CommonHeader { version: 3, length: 4096, message_type: 0 })
    );
}

#[test]
fn version_is_checked_before_length_and_type() {
    let r = check_common_header(&[9, 0, 0, 0, 0, 200], NO_LIMIT);
    assert_eq!(r, Err(FramingError::UnsupportedVersion(9)));
    let r = check_common_header(&[3, 0, 0, 0, 1, 200], NO_LIMIT);
    assert_eq!(r, Err(FramingError::InvalidLength(1)));
}

#[test]
fn names_message_types() {
    assert_eq!(message_type(0), Some(MessageType::RouteMonitoring));
    assert_eq!(message_type(1), Some(MessageType::StatisticsReport));
    assert_eq!(message_type(2), Some(MessageType::PeerDown));
    assert_eq!(message_type(3), Some(MessageType::PeerUp));
    assert_eq!(message_type(4), Some(MessageType::Initiation));
    assert_eq!(message_type(5), Some(MessageType::Termination));
    assert_eq!(message_type(6), Some(MessageType::RouteMirroring));
    assert_eq!(message_type(7), None);
}

#[test]
fn empty_peek_closes_cleanly() {
    assert_eq!(next_frame_step(0, &[0; 6], NO_LIMIT), FrameStep::Closed);
}

#[test]
fn short_peek_retries() {
    assert_eq!(next_frame_step(3, &[3, 0, 0, 0, 0, 0], NO_LIMIT), FrameStep::Retry);
}

#[test]
fn full_peek_reads_whole_message() {
    assert_eq!(next_frame_step(6, &[3, 0, 0, 0, 48, 0], NO_LIMIT), FrameStep::Read(48));
}

#[test]
fn framing_reject_version_two() {
    let step = next_frame_step(6, &[2, 0, 0, 0, 6, 4], NO_LIMIT);
    assert_eq!(step, FrameStep::Fail(FramingError::UnsupportedVersion(2)));
}

#[test]
fn splits_stream_into_messages() {
    let mut stream = vec![3, 0, 0, 0, 6, 4];
    stream.extend_from_slice(&[3, 0, 0, 0, 8, 0, 0xaa, 0xbb]);
    let (frames, end) = split_frames(&stream, NO_LIMIT);
    assert_eq!(frames, vec![(0, 6), (6, 8)]);
    assert_eq!(end, StreamEnd::Closed);
}

#[test]
fn stream_fails_at_first_bad_header() {
    let mut stream = vec![3, 0, 0, 0, 6, 4];
    stream.extend_from_slice(&[2, 0, 0, 0, 6, 4]);
    stream.extend_from_slice(&[3, 0, 0, 0, 6, 4]);
    let (frames, end) = split_frames(&stream, NO_LIMIT);
    assert_eq!(frames, vec![(0, 6)]);
    assert_eq!(end, StreamEnd::Failed(FramingError::UnsupportedVersion(2)));
}

#[test]
fn truncated_message_closes_without_error() {
    let stream = vec![3, 0, 0, 0, 10, 0, 1, 2];
    let (frames, end) = split_frames(&stream, NO_LIMIT);
    assert!(frames.is_empty());
    assert_eq!(end, StreamEnd::Closed);
    let (frames, end) = split_frames(&[3, 0, 0], NO_LIMIT);
    assert!(frames.is_empty());
    assert_eq!(end, StreamEnd::Closed);
    let (frames, end) = split_frames(&[], NO_LIMIT);
    assert!(frames.is_empty());
    assert_eq!(end, StreamEnd::Closed);
}
