use unterflow_protocol::error::EnumKind;
use unterflow_protocol::error::Error;
use unterflow_protocol::error::SbeError;
use unterflow_protocol::sbe::zb_protocol::start_decoding_append_request;
use unterflow_protocol::sbe::zb_protocol::start_decoding_broker_event_metadata;
use unterflow_protocol::sbe::zb_protocol::start_decoding_control_message_request;
use unterflow_protocol::sbe::zb_protocol::start_decoding_control_message_response;
use unterflow_protocol::sbe::zb_protocol::start_decoding_error_response;
use unterflow_protocol::sbe::zb_protocol::start_decoding_execute_command_request;
use unterflow_protocol::sbe::zb_protocol::start_decoding_execute_command_response;
use unterflow_protocol::sbe::zb_protocol::start_decoding_subscribed_event;
use unterflow_protocol::sbe::zb_protocol::start_encoding_append_request;
use unterflow_protocol::sbe::zb_protocol::start_encoding_broker_event_metadata;
use unterflow_protocol::sbe::zb_protocol::start_encoding_control_message_request;
use unterflow_protocol::sbe::zb_protocol::start_encoding_control_message_response;
use unterflow_protocol::sbe::zb_protocol::start_encoding_error_response;
use unterflow_protocol::sbe::zb_protocol::start_encoding_execute_command_request;
use unterflow_protocol::sbe::zb_protocol::start_encoding_execute_command_response;
use unterflow_protocol::sbe::zb_protocol::start_encoding_subscribed_event;
use unterflow_protocol::sbe::zb_protocol::AppendRequestFields;
use unterflow_protocol::sbe::zb_protocol::AppendRequestMessageHeader;
use unterflow_protocol::sbe::zb_protocol::BrokerEventMetadataFields;
use unterflow_protocol::sbe::zb_protocol::BrokerEventMetadataMessageHeader;
use unterflow_protocol::sbe::zb_protocol::CodecErr;
use unterflow_protocol::sbe::zb_protocol::ControlMessageRequestFields;
use unterflow_protocol::sbe::zb_protocol::ControlMessageRequestMessageHeader;
use unterflow_protocol::sbe::zb_protocol::ControlMessageResponseMessageHeader;
use unterflow_protocol::sbe::zb_protocol::ControlMessageType;
use unterflow_protocol::sbe::zb_protocol::ErrorCode;
use unterflow_protocol::sbe::zb_protocol::ErrorResponseFields;
use unterflow_protocol::sbe::zb_protocol::ErrorResponseMessageHeader;
use unterflow_protocol::sbe::zb_protocol::EventType;
use unterflow_protocol::sbe::zb_protocol::ExecuteCommandRequestFields;
use unterflow_protocol::sbe::zb_protocol::ExecuteCommandRequestMessageHeader;
use unterflow_protocol::sbe::zb_protocol::ExecuteCommandResponseFields;
use unterflow_protocol::sbe::zb_protocol::ExecuteCommandResponseMessageHeader;
use unterflow_protocol::sbe::zb_protocol::MessageHeader;
use unterflow_protocol::sbe::zb_protocol::SubscribedEventFields;
use unterflow_protocol::sbe::zb_protocol::SubscribedEventMessageHeader;
use unterflow_protocol::sbe::zb_protocol::SubscriptionType;

fn header(block_length: u16, template_id: u16, schema_id: u16, version: u16) -> MessageHeader {
    MessageHeader {
        block_length,
        template_id,
        schema_id,
        version,
    }
}

#[test]
fn catalog_headers() {
    assert_eq!(
        header(1, 0, 0, 1),
        ErrorResponseMessageHeader::default().message_header
    );
    assert_eq!(
        header(3, 10, 0, 1),
        ControlMessageRequestMessageHeader::default().message_header
    );
    assert_eq!(
        header(0, 11, 0, 1),
        ControlMessageResponseMessageHeader::default().message_header
    );
    assert_eq!(
        header(19, 20, 0, 1),
        ExecuteCommandRequestMessageHeader::default().message_header
    );
    assert_eq!(
        header(18, 21, 0, 1),
        ExecuteCommandResponseMessageHeader::default().message_header
    );
    assert_eq!(
        header(28, 30, 0, 1),
        SubscribedEventMessageHeader::default().message_header
    );
    assert_eq!(
        header(26, 10, 4, 1),
        AppendRequestMessageHeader::default().message_header
    );
    assert_eq!(
        header(31, 200, 0, 1),
        BrokerEventMetadataMessageHeader::default().message_header
    );
}

#[test]
fn enum_codes() {
    assert_eq!(0, SubscriptionType::TaskSubscription.to_u8());
    assert_eq!(1, SubscriptionType::TopicSubscription.to_u8());
    assert_eq!(None, SubscriptionType::from_u8(2));
    assert_eq!(Some(EventType::PartitionEvent), EventType::from_u8(10));
    assert_eq!(Some(EventType::TaskEvent), EventType::from_u8(0));
    assert_eq!(None, EventType::from_u8(11));
    assert_eq!(4, ControlMessageType::RequestTopology.to_u8());
    assert_eq!(
        Some(ControlMessageType::IncreaseTaskSubscriptionCredits),
        ControlMessageType::from_u8(2)
    );
    assert_eq!(None, ControlMessageType::from_u8(5));
    assert_eq!(1, ErrorCode::TopicNotFound.to_u8());
    assert_eq!(Some(ErrorCode::InvalidMessage), ErrorCode::from_u8(6));
    assert_eq!(Some(ErrorCode::MessageNotSupported), ErrorCode::from_u8(0));
    assert_eq!(None, ErrorCode::from_u8(7));
    for code in 0..=255u8 {
        if let Some(event_type) = EventType::from_u8(code) {
            assert_eq!(code, event_type.to_u8());
        }
        if let Some(error_code) = ErrorCode::from_u8(code) {
            assert_eq!(code, error_code.to_u8());
        }
    }
}

#[test]
fn error_response_staged() {
    let encoder = start_encoding_error_response(vec![0; 32]);
    let (written, encoder) = encoder.header().unwrap();
    assert_eq!(header(1, 0, 0, 1), written);
    let encoder = encoder
        .error_response_fields(ErrorResponseFields {
            error_code: ErrorCode::RequestTimeout,
        })
        .unwrap();
    let encoder = encoder.error_data(b"late").unwrap();
    let done = encoder.failed_request(&[1, 2, 3]).unwrap();
    let (size, buffer) = done.unwrap();
    assert_eq!(20, size);
    assert_eq!(
        &[1u8, 0, 0, 0, 0, 0, 1, 0, 4, 4, 0, b'l', b'a', b't', b'e', 3, 0, 1, 2, 3][..],
        &buffer[..size]
    );
    assert!(buffer[size..].iter().all(|b| *b == 0));

    let decoder = start_decoding_error_response(&buffer);
    let (read, decoder) = decoder.header().unwrap();
    assert_eq!(header(1, 0, 0, 1), read);
    let (fields, decoder) = decoder.error_response_fields().unwrap();
    assert_eq!(ErrorCode::RequestTimeout, fields.error_code);
    let (error_data, decoder) = decoder.error_data().unwrap();
    assert_eq!(b"late", error_data);
    let (failed_request, done) = decoder.failed_request().unwrap();
    assert_eq!(&[1u8, 2, 3][..], failed_request);
    assert_eq!(20, done.unwrap());
}

#[test]
fn execute_command_request_staged() {
    let fields = ExecuteCommandRequestFields {
        partition_id: 0x0102,
        position: 3,
        key: u64::MAX,
        event_type: EventType::WorkflowInstanceEvent,
    };
    let encoder = start_encoding_execute_command_request(vec![0xaa; 40]);
    let encoder = encoder
        .header_copy(&ExecuteCommandRequestMessageHeader::default().message_header)
        .unwrap();
    let encoder = encoder.execute_command_request_fields_copy(&fields).unwrap();
    let encoder = encoder.topic_name(b"t").unwrap();
    let done = encoder.command(&[0xc0]).unwrap();
    let (size, buffer) = done.unwrap();
    assert_eq!(8 + 19 + 3 + 3, size);
    let mut expected = vec![19u8, 0, 20, 0, 0, 0, 1, 0, 2, 1, 3, 0, 0, 0, 0, 0, 0, 0];
    expected.extend([255u8; 8]);
    expected.extend([5, 1, 0, b't', 1, 0, 0xc0]);
    assert_eq!(&expected[..], &buffer[..size]);
    assert!(buffer[size..].iter().all(|b| *b == 0xaa));

    let decoder = start_decoding_execute_command_request(&buffer[..size]);
    let (_, decoder) = decoder.header().unwrap();
    let (read, decoder) = decoder.execute_command_request_fields().unwrap();
    assert_eq!(fields, read);
    let (topic_name, decoder) = decoder.topic_name().unwrap();
    assert_eq!(b"t", topic_name);
    let (command, done) = decoder.command().unwrap();
    assert_eq!(&[0xc0u8][..], command);
    assert_eq!(size, done.unwrap());
}

#[test]
fn execute_command_response_staged() {
    let fields = ExecuteCommandResponseFields {
        partition_id: 1,
        position: 2,
        key: 3,
    };
    let encoder = start_encoding_execute_command_response(vec![0; 64]);
    let (_, encoder) = encoder.header().unwrap();
    let encoder = encoder.execute_command_response_fields(fields).unwrap();
    let encoder = encoder.topic_name(b"topic").unwrap();
    let (size, buffer) = encoder.event(&[1, 2]).unwrap().unwrap();
    assert_eq!(8 + 18 + 7 + 4, size);

    let decoder = start_decoding_execute_command_response(&buffer[..size]);
    let (read, decoder) = decoder.header().unwrap();
    assert_eq!(header(18, 21, 0, 1), read);
    let (read, decoder) = decoder.execute_command_response_fields().unwrap();
    assert_eq!(fields, read);
    let (topic_name, decoder) = decoder.topic_name().unwrap();
    assert_eq!(b"topic", topic_name);
    let (event, done) = decoder.event().unwrap();
    assert_eq!(&[1u8, 2][..], event);
    assert_eq!(size, done.unwrap());
}

#[test]
fn broker_event_metadata_staged() {
    let fields = BrokerEventMetadataFields {
        request_stream_id: -2,
        request_id: 3,
        subscription_id: 4,
        protocol_version: 5,
        event_type: EventType::RaftEvent,
        incident_key: 6,
    };
    let encoder = start_encoding_broker_event_metadata(vec![0; 39]);
    let (written, encoder) = encoder.header().unwrap();
    assert_eq!(header(31, 200, 0, 1), written);
    let (size, buffer) = encoder.broker_event_metadata_fields(fields).unwrap().unwrap();
    assert_eq!(39, size);
    assert_eq!(
        vec![
            31, 0, 200, 0, 0, 0, 1, 0, 254, 255, 255, 255, 3, 0, 0, 0, 0, 0, 0, 0, 4, 0, 0, 0, 0,
            0, 0, 0, 5, 0, 1, 6, 0, 0, 0, 0, 0, 0, 0
        ],
        buffer
    );

    let decoder = start_decoding_broker_event_metadata(&buffer);
    let (_, decoder) = decoder.header().unwrap();
    let (read, done) = decoder.broker_event_metadata_fields().unwrap();
    assert_eq!(fields, read);
    assert_eq!(39, done.unwrap());
}

#[test]
fn control_message_request_staged() {
    let fields = ControlMessageRequestFields {
        message_type: ControlMessageType::RemoveTopicSubscription,
        partition_id: 0xffff,
    };
    let encoder = start_encoding_control_message_request(vec![0; 16]);
    let (_, encoder) = encoder.header().unwrap();
    let encoder = encoder.control_message_request_fields(fields).unwrap();
    let (size, buffer) = encoder.data(&[0x80]).unwrap().unwrap();
    assert_eq!(14, size);
    assert_eq!(
        &[3u8, 0, 10, 0, 0, 0, 1, 0, 3, 255, 255, 1, 0, 0x80][..],
        &buffer[..size]
    );

    let decoder = start_decoding_control_message_request(&buffer[..size]);
    let (_, decoder) = decoder.header().unwrap();
    let (read, decoder) = decoder.control_message_request_fields().unwrap();
    assert_eq!(fields, read);
    let (data, done) = decoder.data().unwrap();
    assert_eq!(&[0x80u8][..], data);
    assert_eq!(14, done.unwrap());
}

#[test]
fn control_message_response_staged() {
    let encoder = start_encoding_control_message_response(vec![0; 12]);
    let (written, encoder) = encoder.header().unwrap();
    assert_eq!(header(0, 11, 0, 1), written);
    let (size, buffer) = encoder.data(&[7, 7]).unwrap().unwrap();
    assert_eq!(12, size);
    assert_eq!(vec![0, 0, 11, 0, 0, 0, 1, 0, 2, 0, 7, 7], buffer);

    let decoder = start_decoding_control_message_response(&buffer);
    let (_, decoder) = decoder.header().unwrap();
    let (data, done) = decoder.data().unwrap();
    assert_eq!(&[7u8, 7][..], data);
    assert_eq!(12, done.unwrap());
}

#[test]
fn subscribed_event_staged() {
    let fields = SubscribedEventFields {
        partition_id: 1,
        position: 2,
        key: 3,
        subscriber_key: 4,
        subscription_type: SubscriptionType::TopicSubscription,
        event_type: EventType::NoopEvent,
    };
    let encoder = start_encoding_subscribed_event(vec![0; 64]);
    let (_, encoder) = encoder.header().unwrap();
    let encoder = encoder.subscribed_event_fields_copy(&fields).unwrap();
    let encoder = encoder.topic_name(b"a").unwrap();
    let (size, buffer) = encoder.event(&[]).unwrap().unwrap();
    assert_eq!(8 + 28 + 3 + 2, size);
    assert_eq!(&[1u8, 8, 1, 0, b'a', 0, 0][..], &buffer[34..size]);

    let decoder = start_decoding_subscribed_event(&buffer[..size]);
    let (read, decoder) = decoder.header().unwrap();
    assert_eq!(header(28, 30, 0, 1), read);
    let (read, decoder) = decoder.subscribed_event_fields().unwrap();
    assert_eq!(fields, read);
    let (topic_name, decoder) = decoder.topic_name().unwrap();
    assert_eq!(b"a", topic_name);
    let (event, done) = decoder.event().unwrap();
    assert!(event.is_empty());
    assert_eq!(size, done.unwrap());
}

#[test]
fn append_request_staged() {
    let fields = AppendRequestFields {
        partition_id: 0,
        term: 1,
        previous_event_position: 4_294_967_296,
        previous_event_term: -1,
        commit_position: 4_294_967_392,
        port: 8001,
    };
    let encoder = start_encoding_append_request(vec![0; 64]);
    let (written, encoder) = encoder.header().unwrap();
    assert_eq!(header(26, 10, 4, 1), written);
    let encoder = encoder.append_request_fields(fields).unwrap();
    let encoder = encoder.topic_name(b"default").unwrap();
    let encoder = encoder.host(b"localhost").unwrap();
    let (size, buffer) = encoder.data(&[1, 2, 3]).unwrap().unwrap();
    assert_eq!(8 + 26 + 9 + 11 + 5, size);
    assert_eq!(
        &[
            0u8, 0, 1, 0, 0, 0, 0, 0, 1, 0, 0, 0, 255, 255, 255, 255, 96, 0, 0, 0, 1, 0, 0, 0, 65,
            31
        ][..],
        &buffer[8..34]
    );

    let decoder = start_decoding_append_request(&buffer[..size]);
    let (_, decoder) = decoder.header().unwrap();
    let (read, decoder) = decoder.append_request_fields().unwrap();
    assert_eq!(fields, read);
    let (topic_name, decoder) = decoder.topic_name().unwrap();
    assert_eq!(b"default", topic_name);
    let (host, decoder) = decoder.host().unwrap();
    assert_eq!(b"localhost", host);
    let (data, done) = decoder.data().unwrap();
    assert_eq!(&[1u8, 2, 3][..], data);
    assert_eq!(size, done.unwrap());
}

#[test]
fn encoder_reports_a_full_buffer() {
    let encoder = start_encoding_control_message_response(vec![0; 7]);
    assert_eq!(CodecErr::NotEnoughBytes, encoder.header().unwrap_err());

    let encoder = start_encoding_control_message_request(vec![0; 10]);
    let (_, encoder) = encoder.header().unwrap();
    assert_eq!(
        CodecErr::NotEnoughBytes,
        encoder
            .control_message_request_fields(ControlMessageRequestFields {
                message_type: ControlMessageType::RequestTopology,
                partition_id: 0,
            })
            .unwrap_err()
    );

    // no room for the length and the data together: nothing is written
    let encoder = start_encoding_control_message_response(vec![0; 9]);
    let (_, encoder) = encoder.header().unwrap();
    assert_eq!(CodecErr::NotEnoughBytes, encoder.data(&[]).unwrap_err());

    let encoder = start_encoding_control_message_response(vec![0; 11]);
    let (_, encoder) = encoder.header().unwrap();
    assert_eq!(CodecErr::NotEnoughBytes, encoder.data(&[1, 2]).unwrap_err());
}

#[test]
fn encoder_refuses_a_slice_longer_than_the_schema_allows() {
    let long = vec![0u8; 65535];
    let encoder = start_encoding_control_message_response(vec![0; 70_000]);
    let (_, encoder) = encoder.header().unwrap();
    assert_eq!(
        CodecErr::SliceIsLongerThanAllowedBySchema,
        encoder.data(&long).unwrap_err()
    );

    let encoder = start_encoding_control_message_response(vec![0; 70_000]);
    let (_, encoder) = encoder.header().unwrap();
    let (size, _) = encoder.data(&long[..65534]).unwrap().unwrap();
    assert_eq!(8 + 2 + 65534, size);

    assert_eq!(
        Error::SbeError(SbeError::SliceIsLongerThanAllowedBySchema),
        Error::from(CodecErr::SliceIsLongerThanAllowedBySchema)
    );
    assert_eq!(
        Error::SbeError(SbeError::NotEnoughBytes),
        Error::from(CodecErr::NotEnoughBytes)
    );
    assert_eq!(
        Error::UnknownEnum(EnumKind::EventType, 12),
        Error::from(CodecErr::UnknownEnum(EnumKind::EventType, 12))
    );
}

#[test]
fn decoder_skips_a_block_longer_than_known_and_refuses_a_shorter_one() {
    // a control message request whose block has two bytes more than known
    let bytes = [5u8, 0, 10, 0, 0, 0, 1, 0, 4, 1, 0, 0xee, 0xee, 1, 0, 0x80];
    let decoder = start_decoding_control_message_request(&bytes);
    let (read, decoder) = decoder.header().unwrap();
    assert_eq!(5, read.block_length);
    let (fields, decoder) = decoder.control_message_request_fields().unwrap();
    assert_eq!(ControlMessageType::RequestTopology, fields.message_type);
    assert_eq!(1, fields.partition_id);
    let (data, done) = decoder.data().unwrap();
    assert_eq!(&[0x80u8][..], data);
    assert_eq!(16, done.unwrap());

    // a block of two bytes is too short for the three that are known
    let bytes = [2u8, 0, 10, 0, 0, 0, 1, 0, 4, 1, 0, 1, 0, 0x80];
    let decoder = start_decoding_control_message_request(&bytes);
    let (_, decoder) = decoder.header().unwrap();
    assert_eq!(
        CodecErr::NotEnoughBytes,
        decoder.control_message_request_fields().unwrap_err()
    );

    // a template without fields skips whatever block is declared
    let bytes = [3u8, 0, 11, 0, 0, 0, 1, 0, 9, 9, 9, 2, 0, 7, 7];
    let decoder = start_decoding_control_message_response(&bytes);
    let (_, decoder) = decoder.header().unwrap();
    let (data, done) = decoder.data().unwrap();
    assert_eq!(&[7u8, 7][..], data);
    assert_eq!(15, done.unwrap());
}

#[test]
fn decoder_reports_missing_bytes_and_unknown_enums() {
    let decoder = start_decoding_error_response(&[1, 0, 0]);
    assert_eq!(CodecErr::NotEnoughBytes, decoder.header().unwrap_err());

    let bytes = [1u8, 0, 0, 0, 0, 0, 1, 0];
    let decoder = start_decoding_error_response(&bytes);
    let (_, decoder) = decoder.header().unwrap();
    assert_eq!(
        CodecErr::NotEnoughBytes,
        decoder.error_response_fields().unwrap_err()
    );

    let bytes = [1u8, 0, 0, 0, 0, 0, 1, 0, 9];
    let decoder = start_decoding_error_response(&bytes);
    let (_, decoder) = decoder.header().unwrap();
    assert_eq!(
        CodecErr::UnknownEnum(EnumKind::ErrorCode, 9),
        decoder.error_response_fields().unwrap_err()
    );

    let bytes = [1u8, 0, 0, 0, 0, 0, 1, 0, 1, 3, 0, 1, 2];
    let decoder = start_decoding_error_response(&bytes);
    let (_, decoder) = decoder.header().unwrap();
    let (_, decoder) = decoder.error_response_fields().unwrap();
    assert_eq!(CodecErr::NotEnoughBytes, decoder.error_data().unwrap_err());
}
