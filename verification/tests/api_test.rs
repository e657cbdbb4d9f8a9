use unterflow_protocol::create_task_response;
use unterflow_protocol::create_topic_request;
use unterflow_protocol::error::Error;
use unterflow_protocol::error::SbeError;
use unterflow_protocol::frame::control_message;
use unterflow_protocol::frame::decode_request_response;
use unterflow_protocol::frame::full_duplex_single_message;
use unterflow_protocol::frame::request_response;
use unterflow_protocol::frame::ControlMessageType as ControlFrame;
use unterflow_protocol::frame::DataFrameType;
use unterflow_protocol::frame::Frame;
use unterflow_protocol::frame::TransportProtocol;
use unterflow_protocol::io::Data;
use unterflow_protocol::io::FromBytes;
use unterflow_protocol::io::FromData;
use unterflow_protocol::io::ToData;
use unterflow_protocol::msgpack::message::TopologyRequest;
use unterflow_protocol::msgpack::task::TaskEvent;
use unterflow_protocol::msgpack::task::TaskState;
use unterflow_protocol::msgpack::topic::TopicEvent;
use unterflow_protocol::msgpack::topic::TopicState;
use unterflow_protocol::msgpack::topology::Broker;
use unterflow_protocol::msgpack::topology::TopicLeader;
use unterflow_protocol::msgpack::topology::TopologyResponse;
use unterflow_protocol::read_topic_response;
use unterflow_protocol::sbe::decode_message;
use unterflow_protocol::sbe::encode_message;
use unterflow_protocol::sbe::AppendRequest;
use unterflow_protocol::sbe::ControlMessageRequest;
use unterflow_protocol::sbe::ControlMessageResponse;
use unterflow_protocol::sbe::ControlMessageType;
use unterflow_protocol::sbe::ErrorCode;
use unterflow_protocol::sbe::ErrorResponse;
use unterflow_protocol::sbe::EventType;
use unterflow_protocol::sbe::ExecuteCommandRequest;
use unterflow_protocol::sbe::ExecuteCommandResponse;
use unterflow_protocol::sbe::MessageHeader;
use unterflow_protocol::sbe::SubscribedEvent;
use unterflow_protocol::sbe::SubscriptionType;
use unterflow_protocol::sbe::ToMessageHeader;
use unterflow_protocol::topology_request;
use unterflow_protocol::topology_response;
use unterflow_protocol::CreateTaskBuilder;
use unterflow_protocol::EventMetadata;

fn message_of<'a>(frame: &'a [u8]) -> (u64, &'a [u8]) {
    let frame = decode_request_response(frame).unwrap();
    (frame.request_response_header.request_id, frame.message)
}

#[test]
fn dump_test_test_topology_request() {
    let expected: Vec<u8> = vec![
        // data frame header: length, version, flags, type, stream id
        24, 0, 0, 0, 0, 0, 0, 0, 0, 0, 0, 0,
        // transport header
        0, 0,
        // request id
        0, 1, 0, 0, 0, 0, 0, 0,
        // message header
        3, 0, 10, 0, 0, 0, 1, 0,
        // message type and partition id
        4, 255, 255,
        // data
        1, 0, 0x80,
        // padding
        0, 0, 0, 0,
    ];
    let buffer = topology_request(256).unwrap();

    assert_eq!(expected, buffer);
}

#[test]
fn topology_request_read() {
    let buffer = topology_request(256).unwrap();
    let (request_id, mut message) = message_of(&buffer);
    assert_eq!(256, request_id);
    let request = decode_message::<ControlMessageRequest>(&mut message).unwrap();
    assert_eq!(
        ControlMessageRequest {
            message_type: ControlMessageType::RequestTopology,
            partition_id: 0xffff,
            data: Data::from(vec![0x80]),
        },
        request
    );
    let topology = TopologyRequest::from_data(&request).unwrap();
    assert_eq!(TopologyRequest {}, topology);
    assert_eq!(0, message.len());
}

#[test]
fn topology_request_write() {
    let expected = topology_request(256).unwrap();

    let message = ControlMessageType::RequestTopology
        .with(&TopologyRequest {})
        .unwrap();
    let mut buffer = vec![];
    encode_message(&message, &mut buffer).unwrap();
    let frame = request_response(0, 0, 0, 256, &buffer).unwrap();

    assert_eq!(expected, frame);
}

#[test]
fn topology_request_manual() {
    let buffer = topology_request(256).unwrap();
    let dump_length = buffer.len();

    let frame = match Frame::decode(&buffer).unwrap() {
        Frame::RequestResponse(frame) => frame,
        other => panic!("Expected request response, got {:?}", other),
    };
    let data_frame_header = frame.data_frame_header;
    assert_eq!(24, data_frame_header.length);
    assert_eq!(0, data_frame_header.version);
    assert_eq!(0, data_frame_header.flags);
    assert_eq!(DataFrameType::Message, data_frame_header.frame_type);
    assert_eq!(0, data_frame_header.stream_id);
    assert_eq!(dump_length as u64, data_frame_header.aligned_length());
    assert_eq!(
        TransportProtocol::RequestResponse,
        frame.transport_header.protocol
    );
    assert_eq!(256, frame.request_response_header.request_id);

    let mut reader = frame.message;
    let message_header = MessageHeader::from_bytes(&mut reader).unwrap();
    assert_eq!(ControlMessageRequest::message_header(), message_header);

    let request = ControlMessageRequest::from_bytes(&mut reader).unwrap();
    assert_eq!(ControlMessageType::RequestTopology, request.message_type);
    assert!(TopologyRequest::from_data(&request).is_ok());
    assert_eq!(0, reader.len());
    assert_eq!(4, data_frame_header.padding());
}

fn topology() -> TopologyResponse {
    TopologyResponse {
        topic_leaders: vec![TopicLeader::new(
            "0.0.0.0".to_string(),
            51_015,
            "internal-system".to_string(),
            0,
        )],
        brokers: vec![Broker::new("0.0.0.0".to_string(), 51_015)],
    }
}

fn topology_response_frame() -> Vec<u8> {
    let response = ControlMessageResponse {
        data: topology().to_data().unwrap(),
    };
    let mut message = vec![];
    encode_message(&response, &mut message).unwrap();
    request_response(0, 0, 0, 256, &message).unwrap()
}

#[test]
fn test_topology_response() {
    let response = topology_response_frame();

    let expected = topology();

    let topology = topology_response(&response).unwrap();
    assert_eq!(expected, topology);
}

#[test]
fn topology_response_read() {
    let response = topology_response_frame();
    let (request_id, mut message) = message_of(&response);
    assert_eq!(256, request_id);
    let message = decode_message::<ControlMessageResponse>(&mut message).unwrap();
    let topology = TopologyResponse::from_data(&message).unwrap();
    assert_eq!(
        vec![TopicLeader::new(
            "0.0.0.0".into(),
            51_015,
            "internal-system".into(),
            0
        )],
        topology.topic_leaders
    );
    assert_eq!(
        vec![Broker::new("0.0.0.0".into(), 51_015)],
        topology.brokers
    );
}

#[test]
fn topology_response_rejects_other_frames_and_messages() {
    let keep_alive = control_message(0, 0, 0, &ControlFrame::KeepAlive).unwrap();
    assert!(matches!(
        topology_response(&keep_alive).unwrap_err(),
        Error::DecodeError(_)
    ));
    let single = full_duplex_single_message(0, 0, 0, &[1, 2, 3]).unwrap();
    assert!(matches!(
        topology_response(&single).unwrap_err(),
        Error::DecodeError(_)
    ));
    assert_eq!(
        Error::SbeError(SbeError::NotEnoughBytes),
        topology_response(&[1, 2, 3]).unwrap_err()
    );
    let request = topology_request(1).unwrap();
    assert_eq!(
        Error::UnsupportedMessage(MessageHeader {
            block_length: 3,
            template_id: 10,
            schema_id: 0,
            version: 1,
        }),
        topology_response(&request).unwrap_err()
    );
    let not_a_map = ControlMessageResponse {
        data: Data::from(vec![0xc0]),
    };
    let mut message = vec![];
    encode_message(&not_a_map, &mut message).unwrap();
    let frame = request_response(0, 0, 0, 1, &message).unwrap();
    assert!(matches!(
        topology_response(&frame).unwrap_err(),
        Error::DecodeError(_)
    ));
}

#[test]
fn should_create_topic() {
    let request = create_topic_request(123, 0, "test-topic", 2).unwrap();
    assert_eq!(0, request.len() % 8);
    let (request_id, mut message) = message_of(&request);
    assert_eq!(123, request_id);
    let command = decode_message::<ExecuteCommandRequest>(&mut message).unwrap();
    assert_eq!(0, command.partition_id);
    assert_eq!(u64::MAX, command.position);
    assert_eq!(u64::MAX, command.key);
    assert_eq!(EventType::TopicEvent, command.event_type);
    assert_eq!(
        TopicEvent {
            state: TopicState::Create,
            name: "test-topic".to_string(),
            partitions: 2,
        },
        TopicEvent::from_data(&command).unwrap()
    );

    // the broker answers with the event that it has recorded
    let response = ExecuteCommandResponse {
        partition_id: 0,
        position: 4_294_967_296,
        key: 4_294_967_296,
        topic_name: "internal-system".to_string(),
        event: TopicEvent {
            state: TopicState::Created,
            name: "test-topic".to_string(),
            partitions: 2,
        }
        .to_data()
        .unwrap(),
    };
    let mut message = vec![];
    encode_message(&response, &mut message).unwrap();
    let buffer = request_response(0, 0, 0, 123, &message).unwrap();

    let event = read_topic_response(&buffer).unwrap();
    assert_eq!(123, event.request_id);
    assert_eq!(0, event.metadata.partition_id);
    assert_eq!(4_294_967_296, event.metadata.position);
    assert_eq!(TopicState::Created, event.event.state);
    assert_eq!("test-topic", event.event.name);
    assert_eq!(2, event.event.partitions);
}

#[test]
fn read_topic_response_reports_an_unknown_state() {
    let mut payload = vec![0x81, 0xa5];
    payload.extend(b"state");
    payload.push(0xa4);
    payload.extend(b"GONE");
    let response = ExecuteCommandResponse {
        partition_id: 0,
        position: 1,
        key: 2,
        topic_name: String::new(),
        event: Data::from(payload),
    };
    let mut message = vec![];
    encode_message(&response, &mut message).unwrap();
    let buffer = request_response(0, 0, 0, 5, &message).unwrap();
    assert_eq!(
        Error::UnknownState("GONE".to_string()),
        read_topic_response(&buffer).unwrap_err()
    );
}

#[test]
fn test_create_task() {
    let partition = 3;
    let payload = vec![0x81, 0xa3, b'f', b'o', b'o', 0xa3, b'b', b'a', b'r'];

    let request = CreateTaskBuilder::new(0, partition, "foo")
        .retries(4)
        .custom_header("a", "1")
        .custom_header("b", "2")
        .payload(payload.clone())
        .unwrap()
        .build()
        .unwrap();

    let (request_id, mut message) = message_of(&request);
    assert_eq!(0, request_id);
    let command = decode_message::<ExecuteCommandRequest>(&mut message).unwrap();
    assert_eq!(partition, command.partition_id);
    assert_eq!(EventType::TaskEvent, command.event_type);
    let task = TaskEvent::from_data(&command).unwrap();
    assert_eq!(TaskState::Create, task.state);
    assert_eq!("foo", task.task_type);
    assert_eq!(4, task.retries);
    assert_eq!(
        vec![
            ("a".to_string(), "1".to_string()),
            ("b".to_string(), "2".to_string())
        ],
        task.custom_headers
    );
    assert_eq!(&payload, task.payload());

    let mut created = task;
    created.set_state(TaskState::Created);
    let response = ExecuteCommandResponse {
        partition_id: partition,
        position: 4_294_967_400,
        key: 4_294_967_400,
        topic_name: "default-topic".to_string(),
        event: created.to_data().unwrap(),
    };
    let mut message = vec![];
    encode_message(&response, &mut message).unwrap();
    let buffer = request_response(0, 0, 0, 0, &message).unwrap();

    let event = create_task_response(&buffer).unwrap();
    assert_eq!(
        EventMetadata {
            partition_id: partition,
            position: 4_294_967_400,
            key: 4_294_967_400,
        },
        event.metadata
    );
    assert_eq!(TaskState::Created, event.event.state);
    assert_eq!("foo", event.event.task_type);
    assert_eq!(4, event.event.retries);
    assert_eq!(created, event.event);
}

#[test]
fn create_task_builder_defaults() {
    let request = CreateTaskBuilder::new(9, 1, "bar").build().unwrap();
    let (request_id, mut message) = message_of(&request);
    assert_eq!(9, request_id);
    let command = decode_message::<ExecuteCommandRequest>(&mut message).unwrap();
    let task = TaskEvent::from_data(&command).unwrap();
    assert_eq!(TaskEvent::new(TaskState::Create, "bar", 3), task);
    assert_eq!(3, task.retries);
    assert!(task.custom_headers.is_empty());
    assert_eq!(&vec![0xc0], task.payload());

    let mut builder = CreateTaskBuilder::new(9, 1, "bar");
    builder.custom_headers(vec![("x".to_string(), "y".to_string())]);
    builder.custom_header("x", "z");
    let request = builder.build().unwrap();
    let (_, mut message) = message_of(&request);
    let command = decode_message::<ExecuteCommandRequest>(&mut message).unwrap();
    assert_eq!(
        vec![("x".to_string(), "z".to_string())],
        TaskEvent::from_data(&command).unwrap().custom_headers
    );
}

#[test]
fn create_task_builder_refuses_a_payload_that_is_no_document() {
    let mut builder = CreateTaskBuilder::new(9, 1, "bar");
    assert!(matches!(
        builder.payload(vec![]).unwrap_err(),
        Error::EncodeError(_)
    ));
    assert!(matches!(
        builder.payload(vec![0xa3, b'a']).unwrap_err(),
        Error::EncodeError(_)
    ));
    assert!(matches!(
        builder.payload(vec![0xc0, 0xc0]).unwrap_err(),
        Error::EncodeError(_)
    ));
    assert!(builder.payload(vec![0x92, 1, 2]).is_ok());
}

#[test]
fn create_task_builder_refuses_a_payload_too_long_for_the_command() {
    let mut document = vec![0xc5, 0xff, 0xff];
    document.extend(vec![0u8; 65535]);
    let mut builder = CreateTaskBuilder::new(9, 1, "bar");
    builder.payload(document).unwrap();
    assert_eq!(
        Error::SbeError(SbeError::SliceIsLongerThanAllowedBySchema),
        builder.build().unwrap_err()
    );
}

#[test]
fn keep_alive() {
    let buffer = control_message(0, 0, 0, &ControlFrame::KeepAlive).unwrap();
    let dump_length = buffer.len();
    assert_eq!(
        vec![6, 0, 0, 0, 0, 0, 0, 0, 0, 0, 0, 0, 2, 0, 0, 0, 0, 0, 0, 0, 0, 0, 0, 0],
        buffer
    );

    let frame = match Frame::decode(&buffer).unwrap() {
        Frame::ControlMessage(frame) => frame,
        other => panic!("Expected control message, got {:?}", other),
    };
    assert_eq!(6, frame.data_frame_header.length);
    assert_eq!(dump_length as u64, frame.data_frame_header.aligned_length());
    assert_eq!(
        TransportProtocol::ControlMessage,
        frame.transport_header.protocol
    );
    assert_eq!(ControlFrame::KeepAlive, frame.message_type);
    assert_eq!(6, frame.data_frame_header.padding());
}

#[test]
fn create_task_request() {
    let mut expected = TaskEvent::new(TaskState::Create, "foo", 3);
    expected.set_payload(vec![129, 167, 112, 97, 121, 108, 111, 97, 100, 123]);
    expected.add_custom_header("k1", "a");
    expected.add_custom_header("k2", "b");

    let request = ExecuteCommandRequest {
        partition_id: 0,
        position: 0,
        key: 0,
        event_type: EventType::TaskEvent,
        topic_name: "default-topic".to_string(),
        command: expected.to_data().unwrap(),
    };
    let mut message = vec![];
    encode_message(&request, &mut message).unwrap();
    let buffer = request_response(0, 0, 1, 257, &message).unwrap();
    let dump_length = buffer.len();
    assert_eq!(0, dump_length % 8);

    let frame = decode_request_response(&buffer).unwrap();
    let data_frame_header = frame.data_frame_header;
    assert_eq!((10 + message.len()) as u32, data_frame_header.length);
    assert_eq!(1, data_frame_header.stream_id);
    assert_eq!(dump_length as u64, data_frame_header.aligned_length());
    assert_eq!(257, frame.request_response_header.request_id);

    let mut reader = frame.message;
    let message_header = MessageHeader::from_bytes(&mut reader).unwrap();
    assert_eq!(ExecuteCommandRequest::message_header(), message_header);
    let request = ExecuteCommandRequest::from_bytes(&mut reader).unwrap();
    let task = TaskEvent::from_data(&request).unwrap();
    assert_eq!(expected, task);
    assert_eq!(0, reader.len());
    assert_eq!(
        dump_length,
        12 + data_frame_header.length() + data_frame_header.padding() as usize
    );
}

#[test]
fn task_subscription_locked_task() {
    let mut task = TaskEvent::new(TaskState::Locked, "foo", 3);
    task.set_lock_owner("test");
    task.set_lock_time(1_502_612_949_248);

    let event = SubscribedEvent {
        partition_id: 0,
        position: 4_294_967_772,
        key: 4_294_967_400,
        subscriber_key: 0,
        subscription_type: SubscriptionType::TaskSubscription,
        event_type: EventType::TaskEvent,
        topic_name: "default-topic".to_string(),
        event: task.to_data().unwrap(),
    };
    let mut message = vec![];
    encode_message(&event, &mut message).unwrap();
    let buffer = full_duplex_single_message(0, 0, 0, &message).unwrap();

    let frame = match Frame::decode(&buffer).unwrap() {
        Frame::FullDuplexSingleMessage(frame) => frame,
        other => panic!("Expected single message, got {:?}", other),
    };
    assert_eq!(
        TransportProtocol::FullDuplexSingleMessage,
        frame.transport_header.protocol
    );
    let mut reader = frame.message;
    let message_header = MessageHeader::from_bytes(&mut reader).unwrap();
    assert_eq!(30, message_header.template_id);
    assert_eq!(0, message_header.schema_id);
    assert_eq!(1, message_header.version);
    assert_eq!(SubscribedEvent::message_header(), message_header);

    let read = SubscribedEvent::from_bytes(&mut reader).unwrap();
    assert_eq!(event, read);
    let task = TaskEvent::from_data(&read).unwrap();
    assert_eq!(TaskState::Locked, task.state);
    assert_eq!("test", task.lock_owner);
    assert_eq!(1_502_612_949_248, task.lock_time);
    assert_eq!(&vec![0xc0], task.payload());
}

#[test]
fn error_topic_not_found() {
    let text =
        "Cannot execute command. Topic with name 'default-toic' and partition id '0' not found";
    let failed = ExecuteCommandRequest {
        partition_id: 0,
        position: 0,
        key: 0,
        event_type: EventType::TaskEvent,
        topic_name: "default-toic".into(),
        command: TaskEvent::new(TaskState::Create, "foo", 3)
            .to_data()
            .unwrap(),
    };
    let mut failed_request = vec![];
    encode_message(&failed, &mut failed_request).unwrap();
    let response = ErrorResponse {
        error_code: ErrorCode::TopicNotFound,
        error_data: Data::from(text.as_bytes().to_vec()),
        failed_request: Data::from(failed_request.clone()),
    };
    let mut message = vec![];
    encode_message(&response, &mut message).unwrap();
    let buffer = request_response(0, 0, 0, 1, &message).unwrap();

    let (request_id, mut reader) = message_of(&buffer);
    assert_eq!(1, request_id);
    let message_header = MessageHeader::from_bytes(&mut reader).unwrap();
    assert_eq!(0, message_header.template_id);
    assert_eq!(ErrorResponse::message_header(), message_header);

    let response = ErrorResponse::from_bytes(&mut reader).unwrap();
    assert_eq!(ErrorCode::TopicNotFound, response.error_code);
    assert_eq!(1, response.error_code.to_u8());
    assert_eq!(text, String::from_utf8(response.error_data.into()).unwrap());
    assert_eq!(failed_request.len(), response.failed_request.len());

    // failed request should be a valid execute command request
    let failed_request: Vec<u8> = response.failed_request.into();
    let mut failed_request = failed_request.as_slice();
    let message_header = MessageHeader::from_bytes(&mut failed_request).unwrap();
    assert_eq!(ExecuteCommandRequest::message_header(), message_header);
    let request = ExecuteCommandRequest::from_bytes(&mut failed_request).unwrap();
    assert_eq!(failed, request);
    assert_eq!(0, failed_request.len());
}

#[test]
fn append_request() {
    let data: Vec<u8> = (0..141u32).map(|i| (i * 7) as u8).collect();
    let request = AppendRequest {
        topic_name: "default".into(),
        partition_id: 0,
        term: 1,
        previous_event_position: 4_294_967_296,
        previous_event_term: 1,
        commit_position: 4_294_967_392,
        host: "localhost".into(),
        port: 8001,
        data: data.into(),
    };
    let mut message = vec![];
    encode_message(&request, &mut message).unwrap();
    let buffer = full_duplex_single_message(0, 0, 0, &message).unwrap();
    let dump_length = buffer.len();
    assert_eq!(0, dump_length % 8);

    let frame = match Frame::decode(&buffer).unwrap() {
        Frame::FullDuplexSingleMessage(frame) => frame,
        other => panic!("Expected single message, got {:?}", other),
    };
    assert_eq!(dump_length as u64, frame.data_frame_header.aligned_length());
    let mut reader = frame.message;
    let message_header = MessageHeader::from_bytes(&mut reader).unwrap();
    assert_eq!(10, message_header.template_id);
    assert_eq!(4, message_header.schema_id);
    assert_eq!(AppendRequest::message_header(), message_header);

    let read = AppendRequest::from_bytes(&mut reader).unwrap();
    assert_eq!(141, read.data.len());
    assert_eq!(request, read);
    assert_eq!(0, reader.len());
}
