use unterflow_protocol::error::Error;
use unterflow_protocol::error::SbeError;
use unterflow_protocol::frame::padding;
use unterflow_protocol::frame::request_response;
use unterflow_protocol::frame::ControlMessageType as ControlFrame;
use unterflow_protocol::io::Data;
use unterflow_protocol::io::FromBytes;
use unterflow_protocol::io::FromData;
use unterflow_protocol::io::ToBytes;
use unterflow_protocol::io::ToData;
use unterflow_protocol::msgpack::message::TaskSubscription;
use unterflow_protocol::msgpack::message::TopologyRequest;
use unterflow_protocol::msgpack::task::TaskEvent;
use unterflow_protocol::msgpack::task::TaskState;
use unterflow_protocol::sbe::AppendRequest;
use unterflow_protocol::sbe::ControlMessageRequest;
use unterflow_protocol::sbe::ControlMessageResponse;
use unterflow_protocol::sbe::ControlMessageType;
use unterflow_protocol::sbe::ErrorCode;
use unterflow_protocol::sbe::ErrorResponse;
use unterflow_protocol::sbe::EventType;
use unterflow_protocol::sbe::ExecuteCommandRequest;
use unterflow_protocol::sbe::ExecuteCommandResponse;
use unterflow_protocol::sbe::MessageHeader;
use unterflow_protocol::sbe::SubscribedEvent;
use unterflow_protocol::sbe::SubscriptionType;
use unterflow_protocol::topology_request;
use unterflow_protocol::transport::RequestResponseMessage;
use unterflow_protocol::transport::SingleRequestMessage;
use unterflow_protocol::transport::TransportBody;
use unterflow_protocol::transport::TransportMessage;

fn catalog() -> Vec<TransportMessage> {
    let task = TaskEvent::new(TaskState::Create, "foo", 3).to_data().unwrap();
    vec![
        TransportMessage::request(
            1,
            RequestResponseMessage::ControlMessageRequest(ControlMessageRequest {
                message_type: ControlMessageType::AddTaskSubscription,
                partition_id: 2,
                data: TaskSubscription::new("default-topic", 2, "foo", "me", 1_000, 0, 32)
                    .to_data()
                    .unwrap(),
            }),
        ),
        TransportMessage::request(
            u64::MAX,
            RequestResponseMessage::ControlMessageResponse(ControlMessageResponse {
                data: Data::from(vec![0x80]),
            }),
        ),
        TransportMessage::request(
            257,
            RequestResponseMessage::ExecuteCommandRequest(ExecuteCommandRequest {
                partition_id: 0,
                position: 0,
                key: 0,
                event_type: EventType::TaskEvent,
                topic_name: "default-topic".into(),
                command: task.clone(),
            }),
        ),
        TransportMessage::request(
            257,
            RequestResponseMessage::ExecuteCommandResponse(ExecuteCommandResponse {
                partition_id: 0,
                position: 4_294_967_296,
                key: 4_294_967_296,
                topic_name: "default-topic".into(),
                event: task.clone(),
            }),
        ),
        TransportMessage::request(
            3,
            RequestResponseMessage::ErrorResponse(ErrorResponse {
                error_code: ErrorCode::RequestProcessingFailure,
                error_data: Data::from(b"failed".to_vec()),
                failed_request: Data::from(vec![]),
            }),
        ),
        TransportMessage::single_request(SingleRequestMessage::SubscribedEvent(SubscribedEvent {
            partition_id: 1,
            position: 2,
            key: 3,
            subscriber_key: 4,
            subscription_type: SubscriptionType::TaskSubscription,
            event_type: EventType::TaskEvent,
            topic_name: "default-topic".into(),
            event: task,
        })),
        TransportMessage::single_request(SingleRequestMessage::AppendRequest(AppendRequest {
            partition_id: 0,
            term: 1,
            previous_event_position: 4_294_967_296,
            previous_event_term: -1,
            commit_position: 4_294_967_392,
            port: 8001,
            topic_name: "default".into(),
            host: "localhost".into(),
            data: Data::from(vec![7; 141]),
        })),
        TransportMessage::keep_alive(),
        TransportMessage {
            version: 9,
            flags: 0x80 | 0x20,
            stream_id: 1025,
            body: TransportBody::ControlMessage(ControlFrame::KeepAlive),
        },
    ]
}

#[test]
fn every_message_of_the_catalog_round_trips() {
    for message in catalog() {
        let mut buffer = vec![];
        message.to_bytes(&mut buffer).unwrap();
        assert_eq!(0, buffer.len() % 8);
        buffer.extend([0xde, 0xad]);

        let mut reader: &[u8] = &buffer;
        assert_eq!(Some(message), TransportMessage::decode(&mut reader).unwrap());
        assert_eq!(&[0xdeu8, 0xad][..], reader);
    }
}

#[test]
fn a_stream_of_frames_is_read_frame_by_frame() {
    let mut stream = vec![];
    let messages = catalog();
    for message in &messages {
        message.to_bytes(&mut stream).unwrap();
        stream.extend(padding(0, 0, 0, 3).unwrap());
    }
    let mut reader: &[u8] = &stream;
    for message in &messages {
        assert_eq!(Some(message), TransportMessage::decode(&mut reader).unwrap().as_ref());
        let before = reader.len();
        assert_eq!(None, TransportMessage::decode(&mut reader).unwrap());
        assert_eq!(16, before - reader.len());
    }
    assert!(reader.is_empty());
    assert_eq!(
        Error::SbeError(SbeError::NotEnoughBytes),
        TransportMessage::decode(&mut reader).unwrap_err()
    );
}

#[test]
fn request_is_the_frame_of_the_high_level_function() {
    let message = ControlMessageType::RequestTopology
        .with(&TopologyRequest {})
        .unwrap();
    let request =
        TransportMessage::request(256, RequestResponseMessage::ControlMessageRequest(message));
    let mut buffer = vec![];
    request.to_bytes(&mut buffer).unwrap();
    assert_eq!(topology_request(256).unwrap(), buffer);

    let mut reader: &[u8] = &buffer;
    let read = TransportMessage::decode(&mut reader).unwrap().unwrap();
    assert_eq!(0, reader.len());
    if let TransportBody::RequestResponse { request_id, message } = read.body {
        assert_eq!(256, request_id);
        if let RequestResponseMessage::ControlMessageRequest(ref message) = message {
            assert_eq!(TopologyRequest {}, TopologyRequest::from_data(message).unwrap());
        } else {
            panic!("Expected control message request, got {:?}", message);
        }
    } else {
        panic!("Expected request response, got {:?}", read);
    }
}

#[test]
fn unknown_template_is_unsupported_and_the_reader_stays() {
    // an append request is no request or response
    let append = AppendRequest {
        partition_id: 0,
        term: 1,
        previous_event_position: 2,
        previous_event_term: 3,
        commit_position: 4,
        port: 5,
        topic_name: "t".into(),
        host: "h".into(),
        data: Data::from(vec![]),
    };
    let mut message = vec![];
    unterflow_protocol::sbe::encode_message(&append, &mut message).unwrap();
    let frame = request_response(0, 0, 0, 1, &message).unwrap();
    let mut reader: &[u8] = &frame;
    assert_eq!(
        Error::UnsupportedMessage(MessageHeader {
            block_length: 26,
            template_id: 10,
            schema_id: 4,
            version: 1,
        }),
        TransportMessage::decode(&mut reader).unwrap_err()
    );
    assert_eq!(frame.len(), reader.len());

    let mut reader: &[u8] = &message;
    assert!(matches!(
        RequestResponseMessage::from_bytes(&mut reader).unwrap_err(),
        Error::UnsupportedMessage(_)
    ));
    assert_eq!(message.len(), reader.len());
    assert_eq!(
        SingleRequestMessage::AppendRequest(append),
        SingleRequestMessage::from_bytes(&mut reader).unwrap()
    );
    assert!(reader.is_empty());
}

#[test]
fn a_frame_without_its_padding_is_not_read() {
    let mut buffer = vec![];
    TransportMessage::keep_alive().to_bytes(&mut buffer).unwrap();
    assert_eq!(24, buffer.len());
    let mut reader: &[u8] = &buffer[..23];
    assert_eq!(
        Error::SbeError(SbeError::NotEnoughBytes),
        TransportMessage::decode(&mut reader).unwrap_err()
    );
    assert_eq!(23, reader.len());
}

#[test]
fn a_message_that_does_not_fit_is_refused_and_nothing_is_written() {
    let request = TransportMessage::request(
        1,
        RequestResponseMessage::ControlMessageResponse(ControlMessageResponse {
            data: Data::from(vec![0; 65535]),
        }),
    );
    let mut buffer = vec![1, 2, 3];
    assert_eq!(
        Error::SbeError(SbeError::SliceIsLongerThanAllowedBySchema),
        request.to_bytes(&mut buffer).unwrap_err()
    );
    assert_eq!(vec![1, 2, 3], buffer);
}
