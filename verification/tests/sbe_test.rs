use byteorder::LittleEndian;
use byteorder::WriteBytesExt;
use std::io::Write;
use unterflow_protocol::error::EnumKind;
use unterflow_protocol::error::Error;
use unterflow_protocol::error::SbeError;
use unterflow_protocol::io::Data;
use unterflow_protocol::io::FromBytes;
use unterflow_protocol::io::HasBlockLength;
use unterflow_protocol::io::HasData;
use unterflow_protocol::io::HasMessageLength;
use unterflow_protocol::io::Message;
use unterflow_protocol::io::ToBytes;
use unterflow_protocol::msgpack::message::TopologyRequest;
use unterflow_protocol::msgpack::task::TaskEvent;
use unterflow_protocol::msgpack::task::TaskState;
use unterflow_protocol::sbe::decode_control_message_response;
use unterflow_protocol::sbe::decode_execute_command_response;
use unterflow_protocol::sbe::decode_message;
use unterflow_protocol::sbe::encode_control_message_request;
use unterflow_protocol::sbe::encode_execute_command_request;
use unterflow_protocol::sbe::encode_message;
use unterflow_protocol::sbe::AppendRequest;
use unterflow_protocol::sbe::ControlMessageRequest;
use unterflow_protocol::sbe::ControlMessageResponse;
use unterflow_protocol::sbe::ControlMessageType;
use unterflow_protocol::sbe::ErrorCode;
use unterflow_protocol::sbe::ErrorResponse;
use unterflow_protocol::sbe::EventType;
use unterflow_protocol::sbe::ExecuteCommandRequest;
use unterflow_protocol::sbe::ExecuteCommandResponse;
use unterflow_protocol::sbe::MessageHeader;
use unterflow_protocol::sbe::SubscribedEvent;
use unterflow_protocol::sbe::SubscriptionType;
use unterflow_protocol::sbe::ToMessageHeader;
use unterflow_protocol::sbe::ANY_PARTITION;
use unterflow_protocol::EventMetadata;

#[test]
fn test_message_header() {
    let mut buffer = vec![];

    buffer.write_u16::<LittleEndian>(1).unwrap();
    buffer.write_u16::<LittleEndian>(2).unwrap();
    buffer.write_u16::<LittleEndian>(3).unwrap();
    buffer.write_u16::<LittleEndian>(4).unwrap();

    let header = MessageHeader {
        block_length: 1,
        template_id: 2,
        schema_id: 3,
        version: 4,
    };

    let mut bytes = vec![];
    header.to_bytes(&mut bytes).unwrap();

    assert_eq!(buffer, bytes);

    assert_eq!(header, MessageHeader::from_bytes(&mut &buffer[..]).unwrap());

    assert_eq!(8, MessageHeader::block_length());
}

#[test]
fn test_control_message_request() {
    let mut buffer = vec![];

    buffer.write_u8(1).unwrap();
    buffer.write_u16::<LittleEndian>(7).unwrap();
    buffer.write_u16::<LittleEndian>(2).unwrap();
    buffer.write_all(&[12, 13]).unwrap();

    let request = ControlMessageRequest {
        message_type: ControlMessageType::RemoveTaskSubscription,
        partition_id: 7,
        data: vec![12, 13].into(),
    };

    let mut bytes = vec![];
    request.to_bytes(&mut bytes).unwrap();

    assert_eq!(buffer, bytes);
    assert_eq!(
        request,
        ControlMessageRequest::from_bytes(&mut &buffer[..]).unwrap()
    );

    assert_eq!(
        MessageHeader {
            block_length: 3,
            template_id: 10,
            schema_id: 0,
            version: 1,
        },
        ControlMessageRequest::message_header()
    );

    assert_eq!(
        ControlMessageType::RemoveTaskSubscription,
        request.message_type
    );
}

#[test]
fn test_control_message_response() {
    let mut buffer = vec![];

    buffer.write_u16::<LittleEndian>(2).unwrap();
    buffer.write_all(&[12, 13]).unwrap();

    let response = ControlMessageResponse {
        data: vec![12, 13].into(),
    };

    let mut bytes = vec![];
    response.to_bytes(&mut bytes).unwrap();

    assert_eq!(buffer, bytes);
    assert_eq!(
        response,
        ControlMessageResponse::from_bytes(&mut &buffer[..]).unwrap()
    );

    assert_eq!(
        MessageHeader {
            block_length: 0,
            template_id: 11,
            schema_id: 0,
            version: 1,
        },
        ControlMessageResponse::message_header()
    );
}

#[test]
fn test_execute_command_request() {
    let mut buffer = vec![];

    buffer.write_u16::<LittleEndian>(1).unwrap();
    buffer.write_u64::<LittleEndian>(2).unwrap();
    buffer.write_u64::<LittleEndian>(3).unwrap();
    buffer.write_u8(3).unwrap();
    buffer.write_u16::<LittleEndian>(3).unwrap();
    buffer.write_all("foo".as_bytes()).unwrap();
    buffer.write_u16::<LittleEndian>(3).unwrap();
    buffer.write_all(&[1, 2, 3]).unwrap();

    let request = ExecuteCommandRequest {
        topic_name: "foo".into(),
        partition_id: 1,
        position: 2,
        key: 3,
        event_type: EventType::SubscriberEvent,
        command: vec![1, 2, 3].into(),
    };

    let mut bytes = vec![];
    request.to_bytes(&mut bytes).unwrap();

    assert_eq!(buffer, bytes);
    assert_eq!(
        request,
        ExecuteCommandRequest::from_bytes(&mut &buffer[..]).unwrap()
    );

    assert_eq!(
        MessageHeader {
            block_length: 19,
            template_id: 20,
            schema_id: 0,
            version: 1,
        },
        ExecuteCommandRequest::message_header()
    );
}

#[test]
fn test_execute_command_response() {
    let mut buffer = vec![];

    buffer.write_u16::<LittleEndian>(1).unwrap();
    buffer.write_u64::<LittleEndian>(2).unwrap();
    buffer.write_u64::<LittleEndian>(3).unwrap();
    buffer.write_u16::<LittleEndian>(3).unwrap();
    buffer.write_all("foo".as_bytes()).unwrap();
    buffer.write_u16::<LittleEndian>(3).unwrap();
    buffer.write_all(&[1, 2, 3]).unwrap();

    let response = ExecuteCommandResponse {
        topic_name: "foo".into(),
        partition_id: 1,
        position: 2,
        key: 3,
        event: vec![1, 2, 3].into(),
    };

    let mut bytes = vec![];
    response.to_bytes(&mut bytes).unwrap();

    assert_eq!(buffer, bytes);
    assert_eq!(
        response,
        ExecuteCommandResponse::from_bytes(&mut &buffer[..]).unwrap()
    );

    assert_eq!(
        MessageHeader {
            block_length: 18,
            template_id: 21,
            schema_id: 0,
            version: 1,
        },
        ExecuteCommandResponse::message_header()
    );
}

#[test]
fn test_subscribed_event() {
    let mut buffer = vec![];

    buffer.write_u16::<LittleEndian>(1).unwrap();
    buffer.write_u64::<LittleEndian>(2).unwrap();
    buffer.write_u64::<LittleEndian>(3).unwrap();
    buffer.write_u64::<LittleEndian>(4).unwrap();
    buffer.write_u8(1).unwrap();
    buffer.write_u8(6).unwrap();
    buffer.write_u16::<LittleEndian>(3).unwrap();
    buffer.write_all("foo".as_bytes()).unwrap();
    buffer.write_u16::<LittleEndian>(3).unwrap();
    buffer.write_all(&[1, 2, 3]).unwrap();

    let response = SubscribedEvent {
        partition_id: 1,
        position: 2,
        key: 3,
        subscriber_key: 4,
        subscription_type: SubscriptionType::TopicSubscription,
        event_type: EventType::IncidentEvent,
        topic_name: "foo".into(),
        event: vec![1, 2, 3].into(),
    };

    let mut bytes = vec![];
    response.to_bytes(&mut bytes).unwrap();

    assert_eq!(buffer, bytes);
    assert_eq!(
        response,
        SubscribedEvent::from_bytes(&mut &buffer[..]).unwrap()
    );

    assert_eq!(
        MessageHeader {
            block_length: 28,
            template_id: 30,
            schema_id: 0,
            version: 1,
        },
        SubscribedEvent::message_header()
    );
}

#[test]
fn test_append_request() {
    let mut buffer = vec![];

    buffer.write_u16::<LittleEndian>(1).unwrap();
    buffer.write_u16::<LittleEndian>(2).unwrap();
    buffer.write_u64::<LittleEndian>(3).unwrap();
    buffer.write_i32::<LittleEndian>(4).unwrap();
    buffer.write_u64::<LittleEndian>(5).unwrap();
    buffer.write_u16::<LittleEndian>(6).unwrap();
    buffer.write_u16::<LittleEndian>(3).unwrap();
    buffer.write_all("foo".as_bytes()).unwrap();
    buffer.write_u16::<LittleEndian>(3).unwrap();
    buffer.write_all("bar".as_bytes()).unwrap();
    buffer.write_u16::<LittleEndian>(3).unwrap();
    buffer.write_all(&[1, 2, 3]).unwrap();

    let event = AppendRequest {
        partition_id: 1,
        term: 2,
        previous_event_position: 3,
        previous_event_term: 4,
        commit_position: 5,
        port: 6,
        topic_name: "foo".into(),
        host: "bar".into(),
        data: vec![1, 2, 3].into(),
    };

    let mut bytes = vec![];
    event.to_bytes(&mut bytes).unwrap();

    assert_eq!(buffer, bytes);
    assert_eq!(event, AppendRequest::from_bytes(&mut &buffer[..]).unwrap());

    assert_eq!(
        MessageHeader {
            block_length: 26,
            template_id: 10,
            schema_id: 4,
            version: 1,
        },
        AppendRequest::message_header()
    );
}

#[test]
fn test_error_response() {
    let response = ErrorResponse {
        error_code: ErrorCode::TopicNotFound,
        error_data: Data::from(b"no topic".to_vec()),
        failed_request: Data::from(vec![9, 8]),
    };
    let mut bytes = vec![];
    response.to_bytes(&mut bytes).unwrap();
    assert_eq!(
        vec![1, 8, 0, b'n', b'o', b' ', b't', b'o', b'p', b'i', b'c', 2, 0, 9, 8],
        bytes
    );
    assert_eq!(response, ErrorResponse::from_bytes(&mut &bytes[..]).unwrap());
    assert_eq!(
        MessageHeader {
            block_length: 1,
            template_id: 0,
            schema_id: 0,
            version: 1,
        },
        ErrorResponse::message_header()
    );
    assert_eq!(&Data::from(b"no topic".to_vec()), response.data());
    assert_eq!(15, response.message_length());
}

#[test]
fn message_struct() {
    assert_eq!(30, SubscribedEvent::template_id());
    assert_eq!(0, SubscribedEvent::schema_id());
    assert_eq!(1, SubscribedEvent::version());
    assert_eq!(10, AppendRequest::template_id());
    assert_eq!(4, AppendRequest::schema_id());
    assert_eq!(1, AppendRequest::version());
    assert_eq!(28, SubscribedEvent::block_length());
}

#[test]
fn encoded_message_starts_with_the_header_of_its_template() {
    let request = ExecuteCommandRequest {
        topic_name: "default-topic".into(),
        partition_id: 4,
        position: 5,
        key: 6,
        event_type: EventType::TaskEvent,
        command: vec![0xc0].into(),
    };
    let mut bytes = vec![0xee];
    encode_message(&request, &mut bytes).unwrap();
    assert_eq!(&[0xee, 19, 0, 20, 0, 0, 0, 1, 0][..], &bytes[..9]);

    let mut reader: &[u8] = &bytes[1..];
    assert_eq!(
        ExecuteCommandRequest::message_header(),
        MessageHeader::from_bytes(&mut reader).unwrap()
    );

    bytes.push(0x55);
    let mut reader: &[u8] = &bytes[1..];
    assert_eq!(request, decode_message::<ExecuteCommandRequest>(&mut reader).unwrap());
    assert_eq!(&[0x55u8][..], reader);
}

#[test]
fn message_of_another_template_is_unsupported_and_not_consumed() {
    let response = ControlMessageResponse {
        data: vec![1].into(),
    };
    let mut bytes = vec![];
    encode_message(&response, &mut bytes).unwrap();

    let mut reader: &[u8] = &bytes;
    assert_eq!(
        Error::UnsupportedMessage(MessageHeader {
            block_length: 0,
            template_id: 11,
            schema_id: 0,
            version: 1,
        }),
        decode_message::<ControlMessageRequest>(&mut reader).unwrap_err()
    );
    assert_eq!(bytes.len(), reader.len());

    // the version is part of the match
    bytes[6] = 2;
    let mut reader: &[u8] = &bytes;
    assert_eq!(
        Error::UnsupportedMessage(MessageHeader {
            block_length: 0,
            template_id: 11,
            schema_id: 0,
            version: 2,
        }),
        decode_message::<ControlMessageResponse>(&mut reader).unwrap_err()
    );
    assert_eq!(bytes.len(), reader.len());
}

#[test]
fn unknown_enum_in_a_block_is_reported() {
    let mut buffer = vec![];
    buffer.write_u16::<LittleEndian>(1).unwrap();
    buffer.write_u64::<LittleEndian>(2).unwrap();
    buffer.write_u64::<LittleEndian>(3).unwrap();
    buffer.write_u8(77).unwrap();
    buffer.write_u16::<LittleEndian>(0).unwrap();
    buffer.write_u16::<LittleEndian>(0).unwrap();
    let mut reader: &[u8] = &buffer;
    assert_eq!(
        Error::UnknownEnum(EnumKind::EventType, 77),
        ExecuteCommandRequest::from_bytes(&mut reader).unwrap_err()
    );
    assert_eq!(buffer.len(), reader.len());
}

#[test]
fn topic_name_must_be_utf8() {
    let mut buffer = vec![];
    buffer.write_u16::<LittleEndian>(1).unwrap();
    buffer.write_u64::<LittleEndian>(2).unwrap();
    buffer.write_u64::<LittleEndian>(3).unwrap();
    buffer.write_u16::<LittleEndian>(1).unwrap();
    buffer.write_all(&[0xff]).unwrap();
    buffer.write_u16::<LittleEndian>(0).unwrap();
    let mut reader: &[u8] = &buffer;
    assert_eq!(
        Error::InvalidUtf8,
        ExecuteCommandResponse::from_bytes(&mut reader).unwrap_err()
    );
}

#[test]
fn encode_control_message_request_writes_header_block_and_data() {
    let bytes =
        encode_control_message_request(ANY_PARTITION, ControlMessageType::RequestTopology, &[0x80])
            .unwrap();
    assert_eq!(
        vec![3, 0, 10, 0, 0, 0, 1, 0, 4, 255, 255, 1, 0, 0x80],
        bytes
    );
    let mut reader: &[u8] = &bytes;
    assert_eq!(
        ControlMessageRequest {
            message_type: ControlMessageType::RequestTopology,
            partition_id: 0xffff,
            data: vec![0x80].into(),
        },
        decode_message::<ControlMessageRequest>(&mut reader).unwrap()
    );
    assert!(reader.is_empty());
}

#[test]
fn encode_execute_command_request_writes_header_block_topic_and_command() {
    let bytes = encode_execute_command_request(2, EventType::TopicEvent, &[7, 8, 9]).unwrap();
    let mut expected = vec![19, 0, 20, 0, 0, 0, 1, 0, 2, 0];
    expected.extend([255u8; 16]);
    expected.extend([9, 0, 0, 3, 0, 7, 8, 9]);
    assert_eq!(expected, bytes);

    let mut reader: &[u8] = &bytes;
    let request = decode_message::<ExecuteCommandRequest>(&mut reader).unwrap();
    assert_eq!(2, request.partition_id);
    assert_eq!(u64::MAX, request.position);
    assert_eq!(u64::MAX, request.key);
    assert_eq!(EventType::TopicEvent, request.event_type);
    assert_eq!("", request.topic_name);
    assert_eq!(Data::from(vec![7, 8, 9]), request.command);
}

#[test]
fn encoders_refuse_data_longer_than_the_schema_allows() {
    let long = vec![0u8; 65535];
    assert_eq!(
        Error::SbeError(SbeError::SliceIsLongerThanAllowedBySchema),
        encode_control_message_request(0, ControlMessageType::AddTaskSubscription, &long)
            .unwrap_err()
    );
    assert_eq!(
        Error::SbeError(SbeError::SliceIsLongerThanAllowedBySchema),
        encode_execute_command_request(0, EventType::TaskEvent, &long).unwrap_err()
    );
    assert_eq!(
        8 + 3 + 2 + 65534,
        encode_control_message_request(0, ControlMessageType::AddTaskSubscription, &long[1..])
            .unwrap()
            .len()
    );
}

#[test]
fn decode_control_message_response_hands_out_the_data() {
    let response = ControlMessageResponse {
        data: vec![5, 6, 7].into(),
    };
    let mut bytes = vec![];
    encode_message(&response, &mut bytes).unwrap();
    assert_eq!(&[5u8, 6, 7][..], decode_control_message_response(&bytes).unwrap());

    assert_eq!(
        Error::SbeError(SbeError::NotEnoughBytes),
        decode_control_message_response(&bytes[..7]).unwrap_err()
    );
    assert_eq!(
        Error::SbeError(SbeError::NotEnoughBytes),
        decode_control_message_response(&bytes[..bytes.len() - 1]).unwrap_err()
    );
    bytes[2] = 10;
    assert_eq!(
        Error::UnsupportedMessage(MessageHeader {
            block_length: 0,
            template_id: 10,
            schema_id: 0,
            version: 1,
        }),
        decode_control_message_response(&bytes).unwrap_err()
    );
}

#[test]
fn decode_execute_command_response_hands_out_metadata_and_event() {
    let response = ExecuteCommandResponse {
        topic_name: "default-topic".into(),
        partition_id: 3,
        position: 4_294_967_296,
        key: 4_294_967_400,
        event: vec![0x80].into(),
    };
    let mut bytes = vec![];
    encode_message(&response, &mut bytes).unwrap();
    let (metadata, event) = decode_execute_command_response(&bytes).unwrap();
    assert_eq!(
        EventMetadata {
            partition_id: 3,
            position: 4_294_967_296,
            key: 4_294_967_400,
        },
        metadata
    );
    assert_eq!(&[0x80u8][..], event);

    assert_eq!(
        Error::SbeError(SbeError::NotEnoughBytes),
        decode_execute_command_response(&bytes[..20]).unwrap_err()
    );
    bytes[0] = 19;
    assert!(matches!(
        decode_execute_command_response(&bytes).unwrap_err(),
        Error::UnsupportedMessage(_)
    ));
}

#[test]
fn control_message_type_with_data() {
    let request = ControlMessageType::RequestTopology
        .with(&TopologyRequest {})
        .unwrap();
    assert_eq!(ControlMessageType::RequestTopology, request.message_type);
    assert_eq!(ANY_PARTITION, request.partition_id);
    assert_eq!(Data::from(vec![0x80]), request.data);
}

#[test]
fn complete_task_copies_the_envelope_and_forces_the_state() {
    let message = SubscribedEvent {
        partition_id: 1,
        position: 2,
        key: 3,
        subscriber_key: 4,
        subscription_type: SubscriptionType::TaskSubscription,
        event_type: EventType::TaskEvent,
        topic_name: "default-topic".into(),
        event: vec![0x80].into(),
    };
    let mut event = TaskEvent::new(TaskState::Locked, "foo", 3);
    event.set_lock_owner("test");
    event.set_payload(vec![]);

    let request = ExecuteCommandRequest::complete_task(&message, event.clone()).unwrap();
    assert_eq!("default-topic", request.topic_name);
    assert_eq!(1, request.partition_id);
    assert_eq!(2, request.position);
    assert_eq!(3, request.key);
    assert_eq!(EventType::TaskEvent, request.event_type);

    let mut expected = event;
    expected.set_state(TaskState::Complete);
    expected.set_payload(vec![0xc0]);
    assert_eq!(
        expected,
        <TaskEvent as unterflow_protocol::io::FromData>::from_data(&request).unwrap()
    );
}
