use unterflow_protocol::error::EnumKind;
use unterflow_protocol::error::Error;
use unterflow_protocol::error::SbeError;
use unterflow_protocol::frame::align;
use unterflow_protocol::frame::control_message;
use unterflow_protocol::frame::full_duplex_single_message;
use unterflow_protocol::frame::padding;
use unterflow_protocol::frame::request_response;
use unterflow_protocol::frame::ControlMessageType;
use unterflow_protocol::frame::DataFrameType;
use unterflow_protocol::frame::Decoder;
use unterflow_protocol::frame::Encoder;
use unterflow_protocol::frame::Frame;
use unterflow_protocol::frame::TransportProtocol;

#[test]
fn decode_request_response() {
    let buffer = vec![
        // length
        15, 0, 0, 0,
        // version
        1,
        // flags
        12,
        // frame type
        0, 0,
        // stream id
        1, 4, 0, 0,
        // protocol,
        0, 0,
        // request id
        3, 2, 1, 0, 0, 0, 0, 0,
        // message
        1, 2, 3, 4, 5,
        // padding
        0, 0, 0, 0, 0,
    ];

    let frame = Frame::decode(&buffer).unwrap();

    if let Frame::RequestResponse(frame) = frame {
        let data_frame_header = frame.data_frame_header;
        assert_eq!(15, data_frame_header.length);
        assert_eq!(32, data_frame_header.aligned_length());
        assert_eq!(1, data_frame_header.version);
        assert_eq!(12, data_frame_header.flags);
        assert_eq!(DataFrameType::Message, data_frame_header.frame_type);
        assert_eq!(1025, data_frame_header.stream_id);

        let transport_header = frame.transport_header;
        assert_eq!(TransportProtocol::RequestResponse, transport_header.protocol);

        let request_response_header = frame.request_response_header;
        assert_eq!(66051, request_response_header.request_id);

        assert_eq!(vec![1, 2, 3, 4, 5], frame.message);
    } else {
        panic!("Expected request response frame but got {:?}", frame);
    }
}

#[test]
fn encode_request_response() {
    let expected = vec![
        // length
        15, 0, 0, 0,
        // version
        1,
        // flags
        12,
        // frame type
        0, 0,
        // stream id
        1, 4, 0, 0,
        // protocol,
        0, 0,
        // request id
        3, 2, 1, 0, 0, 0, 0, 0,
        // message
        1, 2, 3, 4, 5,
        // padding
        0, 0, 0, 0, 0,
    ];

    let frame = request_response(1, 12, 1025, 66051, &vec![1, 2, 3, 4, 5]).unwrap();

    assert_eq!(expected, frame);
}

#[test]
fn decode_full_duplex_single_message() {
    let buffer = vec![
        // length
        7, 0, 0, 0,
        // version
        1,
        // flags
        12,
        // frame type
        0, 0,
        // stream id
        1, 4, 0, 0,
        // protocol,
        1, 0,
        // message
        1, 2, 3, 4, 5,
        // padding
        0, 0, 0, 0, 0,
    ];

    let frame = Frame::decode(&buffer).unwrap();

    if let Frame::FullDuplexSingleMessage(frame) = frame {
        let data_frame_header = frame.data_frame_header;
        assert_eq!(7, data_frame_header.length);
        assert_eq!(24, data_frame_header.aligned_length());
        assert_eq!(1, data_frame_header.version);
        assert_eq!(12, data_frame_header.flags);
        assert_eq!(DataFrameType::Message, data_frame_header.frame_type);
        assert_eq!(1025, data_frame_header.stream_id);

        let transport_header = frame.transport_header;
        assert_eq!(TransportProtocol::FullDuplexSingleMessage, transport_header.protocol);

        assert_eq!(vec![1, 2, 3, 4, 5], frame.message);
    } else {
        panic!("Expected full duplex single message frame but got {:?}", frame);
    }
}

#[test]
fn encode_full_duplex_single_message() {
    let expected = vec![
        // length
        7, 0, 0, 0,
        // version
        1,
        // flags
        12,
        // frame type
        0, 0,
        // stream id
        1, 4, 0, 0,
        // protocol,
        1, 0,
        // message
        1, 2, 3, 4, 5,
        // padding
        0, 0, 0, 0, 0,
    ];

    let frame = full_duplex_single_message(1, 12, 1025, &vec![1, 2, 3, 4, 5]).unwrap();

    assert_eq!(expected, frame);
}

#[test]
fn decode_keep_alive_message() {
    let buffer = vec![
        // length
        6, 0, 0, 0,
        // version
        1,
        // flags
        12,
        // frame type
        0, 0,
        // stream id
        1, 4, 0, 0,
        // protocol
        2, 0,
        // message type
        0, 0, 0, 0,
        // padding
        0, 0, 0, 0, 0, 0,
    ];

    let frame = Frame::decode(&buffer).unwrap();

    if let Frame::ControlMessage(frame) = frame {
        let data_frame_header = frame.data_frame_header;
        assert_eq!(6, data_frame_header.length);
        assert_eq!(24, data_frame_header.aligned_length());
        assert_eq!(1, data_frame_header.version);
        assert_eq!(12, data_frame_header.flags);
        assert_eq!(DataFrameType::Message, data_frame_header.frame_type);
        assert_eq!(1025, data_frame_header.stream_id);

        let transport_header = frame.transport_header;
        assert_eq!(TransportProtocol::ControlMessage, transport_header.protocol);

        assert_eq!(ControlMessageType::KeepAlive, frame.message_type);
    } else {
        panic!("Expected control message frame but got {:?}", frame);
    }
}

#[test]
fn encode_keep_alive() {
    let expected = vec![
        // length
        6, 0, 0, 0,
        // version
        1,
        // flags
        12,
        // frame type
        0, 0,
        // stream id
        1, 4, 0, 0,
        // protocol
        2, 0,
        // message type
        0, 0, 0, 0,
        // padding
        0, 0, 0, 0, 0, 0,
    ];

    let frame = control_message(1, 12, 1025, &ControlMessageType::KeepAlive).unwrap();

    assert_eq!(expected, frame);
}

#[test]
fn decode_padding() {
    let buffer = vec![
        // length
        1, 0, 0, 0,
        // version
        1,
        // flags
        12,
        // frame type
        1, 0,
        // stream id
        1, 4, 0, 0,
        // padding body
        0,
        // padding
        0, 0, 0,
    ];

    let frame = Frame::decode(&buffer).unwrap();

    if let Frame::Padding(frame) = frame {
        let data_frame_header = frame.data_frame_header;
        assert_eq!(1, data_frame_header.length);
        assert_eq!(16, data_frame_header.aligned_length());
        assert_eq!(1, data_frame_header.version);
        assert_eq!(12, data_frame_header.flags);
        assert_eq!(DataFrameType::Padding, data_frame_header.frame_type);
        assert_eq!(1025, data_frame_header.stream_id);
    } else {
        panic!("Expected padding frame but got {:?}", frame);
    }
}

#[test]
fn encode_padding() {
    let expected = vec![
        // length
        1, 0, 0, 0,
        // version
        1,
        // flags
        12,
        // frame type
        1, 0,
        // stream id
        1, 4, 0, 0,
        // padding body
        0,
        // padding
        0, 0, 0,
    ];

    let frame = padding(1, 12, 1025, 1).unwrap();

    assert_eq!(expected, frame);
}

#[test]
fn align_rounds_up_to_the_next_multiple() {
    assert_eq!(0, align(0, 8));
    assert_eq!(8, align(1, 8));
    assert_eq!(8, align(7, 8));
    assert_eq!(8, align(8, 8));
    assert_eq!(16, align(9, 8));
    assert_eq!(192, align(190, 8));
}

#[test]
fn keep_alive_with_defaults() {
    let expected: Vec<u8> = vec![
        6, 0, 0, 0, 0, 0, 0, 0, 0, 0, 0, 0, 2, 0, 0, 0, 0, 0, 0, 0, 0, 0, 0, 0,
    ];
    let frame = control_message(0, 0, 0, &ControlMessageType::KeepAlive).unwrap();
    assert_eq!(24, frame.len());
    assert_eq!(expected, frame);
}

#[test]
fn encoded_frames_are_aligned_and_zero_padded() {
    for size in 0..40usize {
        let message: Vec<u8> = (0..size).map(|i| (i as u8) | 1).collect();
        let frame = request_response(0, 0, 7, 99, &message).unwrap();
        assert_eq!(0, frame.len() % 8);
        let decoded = Frame::decode(&frame).unwrap();
        assert_eq!(frame.len() as u64, decoded.aligned_length());
        let header = decoded.data_frame_header();
        assert_eq!((size + 10) as u32, header.length);
        let padding = header.padding() as usize;
        assert_eq!(frame.len(), 12 + size + 10 + padding);
        assert!(frame[frame.len() - padding..].iter().all(|b| *b == 0));
        if let Frame::RequestResponse(inner) = decoded {
            assert_eq!(99, inner.request_response_header.request_id);
            assert_eq!(&message[..], inner.message);
        } else {
            panic!("Expected request response frame but got {:?}", decoded);
        }
    }
}

#[test]
fn padding_frame_advances_by_its_aligned_length() {
    let mut stream = padding(0, 0, 3, 5).unwrap();
    let first = stream.len();
    assert_eq!(24, first);
    stream.extend(control_message(0, 0, 3, &ControlMessageType::KeepAlive).unwrap());

    let frame = Frame::decode(&stream).unwrap();
    assert!(matches!(frame, Frame::Padding(_)));
    let advance = frame.aligned_length() as usize;
    assert_eq!(first, advance);

    let next = Frame::decode(&stream[advance..]).unwrap();
    assert!(matches!(next, Frame::ControlMessage(_)));
}

#[test]
fn decode_rejects_short_and_unknown_input() {
    assert_eq!(
        Error::SbeError(SbeError::NotEnoughBytes),
        Frame::decode(&[0, 0, 0]).unwrap_err()
    );
    // the header promises more payload than there is
    let short = vec![9, 0, 0, 0, 0, 0, 0, 0, 0, 0, 0, 0, 1, 0, 1];
    assert_eq!(
        Error::SbeError(SbeError::NotEnoughBytes),
        Frame::decode(&short).unwrap_err()
    );
    // no transport header in an empty payload
    let empty = vec![0, 0, 0, 0, 0, 0, 0, 0, 0, 0, 0, 0];
    assert_eq!(
        Error::SbeError(SbeError::NotEnoughBytes),
        Frame::decode(&empty).unwrap_err()
    );
    let frame_type = vec![0, 0, 0, 0, 0, 0, 2, 0, 0, 0, 0, 0];
    assert_eq!(
        Error::UnknownEnum(EnumKind::DataFrameType, 2),
        Frame::decode(&frame_type).unwrap_err()
    );
    let protocol = vec![2, 0, 0, 0, 0, 0, 0, 0, 0, 0, 0, 0, 3, 0, 0, 0];
    assert_eq!(
        Error::UnknownEnum(EnumKind::TransportProtocol, 3),
        Frame::decode(&protocol).unwrap_err()
    );
    let control = vec![
        6, 0, 0, 0, 0, 0, 0, 0, 0, 0, 0, 0, 2, 0, 1, 0, 0, 0, 0, 0, 0, 0, 0, 0,
    ];
    assert_eq!(
        Error::UnknownEnum(EnumKind::ControlFrameBody, 1),
        Frame::decode(&control).unwrap_err()
    );
}

#[test]
fn decoder_truncate_and_remaining() {
    let data = [1u8, 2, 3, 4, 5];
    let mut decoder = Decoder::new(&data);
    assert!(decoder.truncate(6).is_err());
    assert!(decoder.truncate(3).is_ok());
    assert_eq!(&[1u8, 2, 3][..], decoder.remaining());
}

#[test]
fn encoder_write_fills_the_buffer_in_order() {
    let mut encoder = Encoder::new(vec![0; 4]);
    assert!(encoder.write(&[1, 2]).is_ok());
    assert!(encoder.write(&[3]).is_ok());
    assert_eq!(
        Error::SbeError(SbeError::NotEnoughBytes),
        encoder.write(&[4, 5]).unwrap_err()
    );
    assert_eq!(vec![1, 2, 3, 0], encoder.finish());
}
