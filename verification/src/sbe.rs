//! The SBE layer: message headers, fixed blocks and variable-length fields.

pub mod zb_protocol;

pub use self::zb_protocol::ControlMessageType;
pub use self::zb_protocol::ErrorCode;
pub use self::zb_protocol::EventType;
pub use self::zb_protocol::MessageHeader;
pub use self::zb_protocol::SubscriptionType;

use crate::error::EnumKind;
use crate::error::Error;
use crate::error::SbeError;
use crate::io::Data;
use crate::io::FixedLength;
use crate::io::FromBytes;
use crate::io::HasBlockLength;
use crate::io::HasData;
use crate::io::HasMessageLength;
use crate::io::Message;
use crate::io::RoundTrip;
use crate::io::ToBytes;
use crate::io::ToData;
use crate::msgpack::task::TaskEvent;
use crate::msgpack::task::TaskEventView;
use crate::msgpack::task::TaskState;
use crate::msgpack::NIL;
use crate::wire::lemma_le_bytes_len;
use crate::EventMetadata;
use self::zb_protocol::parse_var_data;
use self::zb_protocol::var_data;
use self::zb_protocol::AppendRequestFields;
use self::zb_protocol::ControlMessageRequestFields;
use self::zb_protocol::ControlMessageRequestMessageHeader;
use self::zb_protocol::ControlMessageResponseMessageHeader;
use self::zb_protocol::ErrorResponseFields;
use self::zb_protocol::ExecuteCommandRequestFields;
use self::zb_protocol::ExecuteCommandRequestMessageHeader;
use self::zb_protocol::ExecuteCommandResponseFields;
use self::zb_protocol::ExecuteCommandResponseMessageHeader;
use self::zb_protocol::MAX_VAR_DATA_LENGTH;
use self::zb_protocol::SubscribedEventFields;
use vstd::prelude::*;
use vstd::slice::slice_subrange;
use vstd::std_specs::convert::FromSpecImpl;
use vstd::utf8::encode_utf8;

verus! {

/// The partition id that stands for any partition.
pub const ANY_PARTITION: u16 = 0xffff;

/// A control message response on the wire: its header and the data.
pub open spec fn control_message_response_bytes(data: Seq<u8>) -> Seq<u8> {
    ControlMessageResponseMessageHeader::canonical().bytes() + var_data(data)
}

/// What `s` says if it is read as a control message response: the data, or
/// the reason why it is none.
pub open spec fn parse_control_message_response(s: Seq<u8>) -> Result<Seq<u8>, Error> {
    if s.len() < 8 {
        Err(Error::not_enough_bytes())
    } else if MessageHeader::parse(s) != ControlMessageResponseMessageHeader::canonical() {
        Err(Error::UnsupportedMessage(MessageHeader::parse(s)))
    } else {
        match parse_var_data(s.skip(8)) {
            Some(data) => Ok(data),
            None => Err(Error::not_enough_bytes()),
        }
    }
}

/// Reads a control message response and hands out its data.
///
/// Fails with `UnsupportedMessage` when the header is not exactly the one
/// of the template, and with `NotEnoughBytes` when the message is cut short.
pub fn decode_control_message_response(data: &[u8]) -> (r: Result<&[u8], Error>)
    ensures
        match r {
            Ok(field) => parse_control_message_response(data@) == Ok::<Seq<u8>, Error>(field@),
            Err(error) => parse_control_message_response(data@) == Err::<Seq<u8>, Error>(error),
        },
{
    let decoder = zb_protocol::start_decoding_control_message_response(data);
    assert(decoder.scratch().rest() =~= data@);
    let (header, decoder) = match decoder.header() {
        Ok(read) => read,
        Err(error) => {
            return Err(Error::from(error));
        },
    };

    let expected_header = ControlMessageResponseMessageHeader::default().message_header;

    if header == expected_header {
        assert(decoder.scratch().rest() =~= data@.skip(8));
        assert(data@.skip(8).skip(0) =~= data@.skip(8));
        match decoder.data() {
            Ok((field, _)) => Ok(field),
            Err(error) => Err(Error::from(error)),
        }
    } else {
        Err(Error::UnsupportedMessage(header))
    }
}

/// A control message request on the wire: its header, its block and the
/// data.
pub open spec fn control_message_request_bytes(
    partition_id: u16,
    message_type: ControlMessageType,
    data: Seq<u8>,
) -> Seq<u8> {
    ControlMessageRequestMessageHeader::canonical().bytes() + (ControlMessageRequestFields {
        message_type,
        partition_id,
    }).bytes() + var_data(data)
}

/// Writes a control message request.
///
/// Fails with `SliceIsLongerThanAllowedBySchema` when `data` is longer than
/// 65534 bytes, and on no other input.
pub fn encode_control_message_request(
    partition_id: u16,
    message_type: ControlMessageType,
    data: &[u8],
) -> (r: Result<Vec<u8>, Error>)
    ensures
        match r {
            Ok(buffer) => {
                &&& data@.len() <= MAX_VAR_DATA_LENGTH
                &&& buffer@ == control_message_request_bytes(partition_id, message_type, data@)
            },
            Err(error) => {
                &&& data@.len() > MAX_VAR_DATA_LENGTH
                &&& error == Error::slice_too_long()
            },
        },
{
    if data.len() > MAX_VAR_DATA_LENGTH {
        return Err(Error::SbeError(SbeError::SliceIsLongerThanAllowedBySchema));
    }
    // +2 for the data length field (u16)
    let size: usize = 8 + 3 + data.len() + 2;
    let buffer = vec![0u8; size];
    let fields = ControlMessageRequestFields { message_type, partition_id };
    proof {
        ControlMessageRequestMessageHeader::canonical().lemma_parse_bytes();
        fields.lemma_parse_bytes();
        lemma_le_bytes_len(data@.len(), 2);
    }

    let encoder = zb_protocol::start_encoding_control_message_request(buffer);
    let encoder = match encoder.header() {
        Ok((_, encoder)) => encoder,
        Err(error) => {
            return Err(Error::from(error));
        },
    };
    let encoder = match encoder.control_message_request_fields_copy(&fields) {
        Ok(encoder) => encoder,
        Err(error) => {
            return Err(Error::from(error));
        },
    };
    let done = match encoder.data(data) {
        Ok(done) => done,
        Err(error) => {
            return Err(Error::from(error));
        },
    };
    let (size, mut buffer) = done.unwrap();
    buffer.truncate(size);
    assert(buffer@ =~= control_message_request_bytes(partition_id, message_type, data@));
    Ok(buffer)
}

impl<'d> From<&'d ExecuteCommandResponseFields> for EventMetadata {
    fn from(fields: &ExecuteCommandResponseFields) -> (r: EventMetadata) {
        EventMetadata {
            partition_id: fields.partition_id,
            position: fields.position,
            key: fields.key,
        }
    }
}

impl<'d> FromSpecImpl<&'d ExecuteCommandResponseFields> for EventMetadata {
    open spec fn obeys_from_spec() -> bool {
        true
    }

    open spec fn from_spec(fields: &ExecuteCommandResponseFields) -> EventMetadata {
        EventMetadata {
            partition_id: fields.partition_id,
            position: fields.position,
            key: fields.key,
        }
    }
}

/// An execute command response on the wire: its header, its block, the
/// topic name and the event.
pub open spec fn execute_command_response_bytes(
    fields: ExecuteCommandResponseFields,
    topic_name: Seq<u8>,
    event: Seq<u8>,
) -> Seq<u8> {
    ExecuteCommandResponseMessageHeader::canonical().bytes() + fields.bytes() + var_data(topic_name)
        + var_data(event)
}

/// What `s` says if it is read as an execute command response: where the
/// event stands and the event itself, or the reason why `s` is none.
pub open spec fn parse_execute_command_response(s: Seq<u8>) -> Result<
    (EventMetadata, Seq<u8>),
    Error,
> {
    if s.len() < 8 {
        Err(Error::not_enough_bytes())
    } else if MessageHeader::parse(s) != ExecuteCommandResponseMessageHeader::canonical() {
        Err(Error::UnsupportedMessage(MessageHeader::parse(s)))
    } else if s.len() < 26 {
        Err(Error::not_enough_bytes())
    } else {
        match ExecuteCommandResponseFields::parse(s.subrange(8, 26)) {
            Err(error) => Err(Error::of_codec_err(error)),
            Ok(fields) => match parse_var_data(s.skip(26)) {
                None => Err(Error::not_enough_bytes()),
                Some(topic_name) => match parse_var_data(s.skip(28 + topic_name.len() as int)) {
                    None => Err(Error::not_enough_bytes()),
                    Some(event) => Ok(
                        (
                            EventMetadata {
                                partition_id: fields.partition_id,
                                position: fields.position,
                                key: fields.key,
                            },
                            event,
                        ),
                    ),
                },
            },
        }
    }
}

/// Reads an execute command response and hands out where the event stands
/// and the event itself.
///
/// Fails with `UnsupportedMessage` when the header is not exactly the one
/// of the template, and with `NotEnoughBytes` when the message is cut short.
pub fn decode_execute_command_response(data: &[u8]) -> (r: Result<(EventMetadata, &[u8]), Error>)
    ensures
        match r {
            Ok((metadata, event)) => parse_execute_command_response(data@) == Ok::<
                (EventMetadata, Seq<u8>),
                Error,
            >((metadata, event@)),
            Err(error) => parse_execute_command_response(data@) == Err::<
                (EventMetadata, Seq<u8>),
                Error,
            >(error),
        },
{
    let decoder = zb_protocol::start_decoding_execute_command_response(data);
    assert(decoder.scratch().rest() =~= data@);
    let (header, decoder) = match decoder.header() {
        Ok(read) => read,
        Err(error) => {
            return Err(Error::from(error));
        },
    };

    let expected_header = ExecuteCommandResponseMessageHeader::default().message_header;

    if header == expected_header {
        assert(decoder.scratch().rest() =~= data@.skip(8));
        assert(data@.len() >= 26 ==> data@.skip(8).take(18) =~= data@.subrange(8, 26));
        let (fields, decoder) = match decoder.execute_command_response_fields() {
            Ok(read) => read,
            Err(error) => {
                return Err(Error::from(error));
            },
        };
        assert(decoder.scratch().rest() =~= data@.skip(26));
        let (topic_name, decoder) = match decoder.topic_name() {
            Ok(read) => read,
            Err(error) => {
                return Err(Error::from(error));
            },
        };
        assert(decoder.scratch().rest() =~= data@.skip(28 + topic_name@.len() as int));
        match decoder.event() {
            Ok((event, _)) => Ok((EventMetadata::from(&fields), event)),
            Err(error) => Err(Error::from(error)),
        }
    } else {
        Err(Error::UnsupportedMessage(header))
    }
}

/// An execute command request on the wire: its header, its block, the
/// topic name and the command.
pub open spec fn execute_command_request_bytes(
    fields: ExecuteCommandRequestFields,
    topic_name: Seq<u8>,
    command: Seq<u8>,
) -> Seq<u8> {
    ExecuteCommandRequestMessageHeader::canonical().bytes() + fields.bytes() + var_data(topic_name)
        + var_data(command)
}

/// The block of a new command: the broker assigns position and key, so
/// both are left at their greatest value.
pub open spec fn new_command_fields(
    partition_id: u16,
    event_type: EventType,
) -> ExecuteCommandRequestFields {
    ExecuteCommandRequestFields { partition_id, position: u64::MAX, key: u64::MAX, event_type }
}

/// Writes the request to execute a new command on a partition. The topic
/// name is left empty: the partition id says where the command goes.
///
/// Fails with `SliceIsLongerThanAllowedBySchema` when `command` is longer
/// than 65534 bytes, and on no other input.
pub fn encode_execute_command_request(
    partition_id: u16,
    event_type: EventType,
    command: &[u8],
) -> (r: Result<Vec<u8>, Error>)
    ensures
        match r {
            Ok(buffer) => {
                &&& command@.len() <= MAX_VAR_DATA_LENGTH
                &&& buffer@ == execute_command_request_bytes(
                    new_command_fields(partition_id, event_type),
                    Seq::empty(),
                    command@,
                )
            },
            Err(error) => {
                &&& command@.len() > MAX_VAR_DATA_LENGTH
                &&& error == Error::slice_too_long()
            },
        },
{
    if command.len() > MAX_VAR_DATA_LENGTH {
        return Err(Error::SbeError(SbeError::SliceIsLongerThanAllowedBySchema));
    }
    // +2 for the topic name length field and +2 for the command length field (u16)
    let size: usize = 8 + 19 + 2 + command.len() + 2;
    let buffer = vec![0u8; size];
    let fields = ExecuteCommandRequestFields {
        partition_id,
        position: u64::MAX,
        key: u64::MAX,
        event_type,
    };
    let topic_name: Vec<u8> = Vec::new();
    proof {
        ExecuteCommandRequestMessageHeader::canonical().lemma_parse_bytes();
        fields.lemma_parse_bytes();
        lemma_le_bytes_len(0, 2);
        lemma_le_bytes_len(command@.len(), 2);
    }

    let encoder = zb_protocol::start_encoding_execute_command_request(buffer);
    let encoder = match encoder.header() {
        Ok((_, encoder)) => encoder,
        Err(error) => {
            return Err(Error::from(error));
        },
    };
    let encoder = match encoder.execute_command_request_fields_copy(&fields) {
        Ok(encoder) => encoder,
        Err(error) => {
            return Err(Error::from(error));
        },
    };
    let encoder = match encoder.topic_name(topic_name.as_slice()) {
        Ok(encoder) => encoder,
        Err(error) => {
            return Err(Error::from(error));
        },
    };
    let done = match encoder.command(command) {
        Ok(done) => done,
        Err(error) => {
            return Err(Error::from(error));
        },
    };
    let (size, mut buffer) = done.unwrap();
    buffer.truncate(size);
    assert(topic_name@ =~= Seq::<u8>::empty());
    assert(buffer@ =~= execute_command_request_bytes(
        new_command_fields(partition_id, event_type),
        Seq::empty(),
        command@,
    ));
    Ok(buffer)
}

/// Every control message request starts with the header of its template.
pub proof fn lemma_control_message_request_header(
    partition_id: u16,
    message_type: ControlMessageType,
    data: Seq<u8>,
)
    ensures
        MessageHeader::parse(control_message_request_bytes(partition_id, message_type, data))
            == ControlMessageRequestMessageHeader::canonical(),
{
    let header = ControlMessageRequestMessageHeader::canonical();
    let all = control_message_request_bytes(partition_id, message_type, data);
    header.lemma_parse_bytes();
    assert(all.take(8) =~= header.bytes());
    lemma_header_in_front(header, all);
}

/// Every execute command request starts with the header of its template.
pub proof fn lemma_execute_command_request_header(
    fields: ExecuteCommandRequestFields,
    topic_name: Seq<u8>,
    command: Seq<u8>,
)
    ensures
        MessageHeader::parse(execute_command_request_bytes(fields, topic_name, command))
            == ExecuteCommandRequestMessageHeader::canonical(),
{
    let header = ExecuteCommandRequestMessageHeader::canonical();
    let all = execute_command_request_bytes(fields, topic_name, command);
    header.lemma_parse_bytes();
    assert(all.take(8) =~= header.bytes());
    lemma_header_in_front(header, all);
}

/// Bytes that start with the bytes of a header read as that header.
pub proof fn lemma_header_in_front(header: MessageHeader, all: Seq<u8>)
    requires
        all.len() >= 8,
        all.take(8) == header.bytes(),
    ensures
        MessageHeader::parse(all) == header,
{
    header.lemma_parse_bytes();
    let head = all.take(8);
    assert(all.subrange(0, 2) =~= head.subrange(0, 2));
    assert(all.subrange(2, 4) =~= head.subrange(2, 4));
    assert(all.subrange(4, 6) =~= head.subrange(4, 6));
    assert(all.subrange(6, 8) =~= head.subrange(6, 8));
}

/// Reading a control message response that was written gives back its
/// data.
pub proof fn lemma_decode_control_message_response(data: Seq<u8>)
    requires
        data.len() <= MAX_VAR_DATA_LENGTH,
    ensures
        parse_control_message_response(control_message_response_bytes(data)) == Ok::<
            Seq<u8>,
            Error,
        >(data),
{
    let header = ControlMessageResponseMessageHeader::canonical();
    let all = control_message_response_bytes(data);
    header.lemma_parse_bytes();
    assert(all.take(8) =~= header.bytes());
    lemma_header_in_front(header, all);
    zb_protocol::lemma_parse_var_data(data, Seq::empty());
    assert(all.skip(8) =~= var_data(data) + Seq::<u8>::empty());
}

/// Reading an execute command response that was written gives back where
/// the event stands and the event.
pub proof fn lemma_decode_execute_command_response(
    fields: ExecuteCommandResponseFields,
    topic_name: Seq<u8>,
    event: Seq<u8>,
)
    requires
        topic_name.len() <= MAX_VAR_DATA_LENGTH,
        event.len() <= MAX_VAR_DATA_LENGTH,
    ensures
        parse_execute_command_response(execute_command_response_bytes(fields, topic_name, event))
            == Ok::<(EventMetadata, Seq<u8>), Error>(
            (
                EventMetadata {
                    partition_id: fields.partition_id,
                    position: fields.position,
                    key: fields.key,
                },
                event,
            ),
        ),
{
    let header = ExecuteCommandResponseMessageHeader::canonical();
    let all = execute_command_response_bytes(fields, topic_name, event);
    header.lemma_parse_bytes();
    fields.lemma_parse_bytes();
    assert(all.take(8) =~= header.bytes());
    lemma_header_in_front(header, all);
    assert(all.subrange(8, 26) =~= fields.bytes());
    zb_protocol::lemma_parse_var_data(topic_name, var_data(event));
    assert(all.skip(26) =~= var_data(topic_name) + var_data(event));
    zb_protocol::lemma_parse_var_data(event, Seq::empty());
    assert(all.skip(28 + topic_name.len() as int) =~= var_data(event) + Seq::<u8>::empty());
}

impl FromBytes for MessageHeader {
    type Model = MessageHeader;

    open spec fn model(&self) -> MessageHeader {
        *self
    }

    open spec fn parse(data: Seq<u8>) -> Result<(MessageHeader, nat), Error> {
        if data.len() < 8 {
            Err(Error::not_enough_bytes())
        } else {
            Ok((MessageHeader::parse(data), 8))
        }
    }

    fn from_bytes(reader: &mut &[u8]) -> (r: Result<MessageHeader, Error>) {
        let data: &[u8] = *reader;
        if data.len() < 8 {
            return Err(Error::SbeError(SbeError::NotEnoughBytes));
        }
        let header = MessageHeader::read(data, 0);
        proof {
            let head = data@.subrange(0, 8);
            assert(data@.subrange(0, 2) =~= head.subrange(0, 2));
            assert(data@.subrange(2, 4) =~= head.subrange(2, 4));
            assert(data@.subrange(4, 6) =~= head.subrange(4, 6));
            assert(data@.subrange(6, 8) =~= head.subrange(6, 8));
        }
        *reader = slice_subrange(data, 8, data.len());
        Ok(header)
    }
}

impl ToBytes for MessageHeader {
    open spec fn bytes(&self) -> Seq<u8> {
        MessageHeader::bytes(self)
    }

    open spec fn fits(&self) -> bool {
        true
    }

    fn to_bytes(&self, writer: &mut Vec<u8>) -> (r: Result<(), Error>) {
        let mut bytes = self.to_vec();
        writer.append(&mut bytes);
        Ok(())
    }
}

impl RoundTrip for MessageHeader {
    proof fn lemma_round_trip(&self, rest: Seq<u8>) {
        let all = MessageHeader::bytes(self) + rest;
        self.lemma_parse_bytes();
        assert(all.take(8) =~= MessageHeader::bytes(self));
        lemma_header_in_front(*self, all);
    }
}

impl HasBlockLength for MessageHeader {
    open spec fn spec_block_length() -> u16 {
        8
    }

    fn block_length() -> (n: u16) {
        8
    }
}

/// Messages that know the header of their template.
pub trait ToMessageHeader {
    spec fn spec_message_header() -> MessageHeader;

    fn message_header() -> (header: MessageHeader)
        ensures
            header == Self::spec_message_header(),
    ;
}

impl<T: Message + HasBlockLength> ToMessageHeader for T {
    open spec fn spec_message_header() -> MessageHeader {
        MessageHeader {
            block_length: T::spec_block_length(),
            template_id: T::spec_template_id(),
            schema_id: T::spec_schema_id(),
            version: T::spec_version(),
        }
    }

    fn message_header() -> (header: MessageHeader) {
        MessageHeader {
            block_length: T::block_length(),
            template_id: T::template_id(),
            schema_id: T::schema_id(),
            version: T::version(),
        }
    }
}

/// A message on the wire: the header of its template, then its body.
pub open spec fn message_bytes<T: ToBytes + ToMessageHeader>(message: &T) -> Seq<u8> {
    T::spec_message_header().bytes() + message.bytes()
}

/// What the start of `data` says if it is read as a message of the template
/// `T`, and how many bytes say it. The header must be the one of `T` in all
/// four fields.
pub open spec fn parse_message<T: FromBytes + ToMessageHeader>(data: Seq<u8>) -> Result<
    (T::Model, nat),
    Error,
> {
    if data.len() < 8 {
        Err(Error::not_enough_bytes())
    } else if MessageHeader::parse(data) != T::spec_message_header() {
        Err(Error::UnsupportedMessage(MessageHeader::parse(data)))
    } else {
        match T::parse(data.skip(8)) {
            Err(error) => Err(error),
            Ok((message, n)) => Ok((message, 8 + n)),
        }
    }
}

/// Appends a message with the header of its template in front.
///
/// Fails with `SliceIsLongerThanAllowedBySchema`, and leaves `writer` as it
/// was, exactly when the message does not fit.
pub fn encode_message<T: ToBytes + ToMessageHeader>(message: &T, writer: &mut Vec<u8>) -> (r:
    Result<(), Error>)
    ensures
        match r {
            Ok(()) => message.fits() && final(writer)@ == old(writer)@ + message_bytes(message),
            Err(error) => {
                &&& !message.fits()
                &&& error == Error::slice_too_long()
                &&& final(writer)@ == old(writer)@
            },
        },
{
    let start = writer.len();
    let mut header = T::message_header().to_vec();
    writer.append(&mut header);
    match message.to_bytes(writer) {
        Ok(()) => {
            proof {
                assert(writer@ =~= old(writer)@ + message_bytes(message));
            }
            Ok(())
        },
        Err(error) => {
            writer.truncate(start);
            proof {
                assert(writer@ =~= old(writer)@);
            }
            Err(error)
        },
    }
}

/// Reads a message of the template `T` from the front of `reader` and
/// advances `reader` behind it.
///
/// Fails with `UnsupportedMessage`, which holds the header that was read,
/// when that header is not the one of `T`. On failure `reader` stays where
/// it was.
pub fn decode_message<T: FromBytes + ToMessageHeader>(reader: &mut &[u8]) -> (r: Result<T, Error>)
    ensures
        match r {
            Ok(message) => {
                &&& parse_message::<T>(old(reader)@) is Ok
                &&& parse_message::<T>(old(reader)@)->Ok_0.0 == message.model()
                &&& parse_message::<T>(old(reader)@)->Ok_0.1 <= old(reader)@.len()
                &&& final(reader)@ == old(reader)@.skip(
                    parse_message::<T>(old(reader)@)->Ok_0.1 as int,
                )
            },
            Err(error) => {
                &&& parse_message::<T>(old(reader)@) == Err::<(T::Model, nat), Error>(error)
                &&& final(reader)@ == old(reader)@
            },
        },
{
    let mut ahead: &[u8] = *reader;
    let header = match MessageHeader::from_bytes(&mut ahead) {
        Ok(header) => header,
        Err(error) => {
            return Err(error);
        },
    };
    if header != T::message_header() {
        return Err(Error::UnsupportedMessage(header));
    }
    let message = match T::from_bytes(&mut ahead) {
        Ok(message) => message,
        Err(error) => {
            return Err(error);
        },
    };
    proof {
        let n = T::parse(old(reader)@.skip(8))->Ok_0.1;
        assert(old(reader)@.skip(8).skip(n as int) =~= old(reader)@.skip(8 + n as int));
    }
    *reader = ahead;
    Ok(message)
}

/// An encoded message starts with the header of its template: the
/// template's ids, its version and the length of its own block.
pub proof fn lemma_message_header_is_canonical<T: ToBytes + ToMessageHeader>(message: &T)
    ensures
        MessageHeader::parse(message_bytes(message)) == T::spec_message_header(),
{
    let header = T::spec_message_header();
    let all = message_bytes(message);
    header.lemma_parse_bytes();
    assert(all.take(8) =~= header.bytes());
    lemma_header_in_front(header, all);
}

/// Reading a message that was written gives the message back and stops
/// right behind it, whatever follows.
pub proof fn lemma_message_round_trip<T: RoundTrip + ToMessageHeader>(message: &T, rest: Seq<u8>)
    requires
        message.fits(),
    ensures
        parse_message::<T>(message_bytes(message) + rest) == Ok::<(T::Model, nat), Error>(
            (message.model(), 8 + message.bytes().len()),
        ),
{
    let header = T::spec_message_header();
    let all = message_bytes(message) + rest;
    header.lemma_parse_bytes();
    assert(all.take(8) =~= header.bytes());
    lemma_header_in_front(header, all);
    message.lemma_round_trip(rest);
    assert(all.skip(8) =~= message.bytes() + rest);
}

/// The headers of the catalog, as the message types give them, are the
/// headers that the staged coders write.
pub proof fn lemma_catalog_headers()
    ensures
        ErrorResponse::spec_message_header()
            == zb_protocol::ErrorResponseMessageHeader::canonical(),
        ControlMessageRequest::spec_message_header()
            == ControlMessageRequestMessageHeader::canonical(),
        ControlMessageResponse::spec_message_header()
            == ControlMessageResponseMessageHeader::canonical(),
        ExecuteCommandRequest::spec_message_header()
            == ExecuteCommandRequestMessageHeader::canonical(),
        ExecuteCommandResponse::spec_message_header()
            == ExecuteCommandResponseMessageHeader::canonical(),
        SubscribedEvent::spec_message_header()
            == zb_protocol::SubscribedEventMessageHeader::canonical(),
        AppendRequest::spec_message_header()
            == zb_protocol::AppendRequestMessageHeader::canonical(),
{
}

/// What `encode_control_message_request` writes is the message that the
/// request with those fields is on the wire, so that it reads back as that
/// request.
pub proof fn lemma_control_message_request_is_message(request: ControlMessageRequest)
    ensures
        control_message_request_bytes(request.partition_id, request.message_type, request.data@)
            == message_bytes(&request),
{
    assert(control_message_request_bytes(
        request.partition_id,
        request.message_type,
        request.data@,
    ) =~= message_bytes(&request));
}

/// What `encode_execute_command_request` writes is the message that the
/// request with those fields is on the wire, so that it reads back as that
/// request.
pub proof fn lemma_execute_command_request_is_message(request: ExecuteCommandRequest)
    ensures
        execute_command_request_bytes(
            request.fields(),
            encode_utf8(request.topic_name@),
            request.command@,
        ) == message_bytes(&request),
{
    assert(execute_command_request_bytes(
        request.fields(),
        encode_utf8(request.topic_name@),
        request.command@,
    ) =~= message_bytes(&request));
}

impl ControlMessageType {
    /// The control message request of this type that carries `data`. It is
    /// addressed to any partition.
    ///
    /// Fails with `EncodeError` exactly when `data` is not encodable.
    pub fn with<D: ToData>(self, data: &D) -> (r: Result<ControlMessageRequest, Error>)
        ensures
            match r {
                Ok(request) => {
                    &&& data.encodable()
                    &&& request.message_type == self
                    &&& request.partition_id == ANY_PARTITION
                    &&& request.data@ == data.payload_bytes()
                },
                Err(error) => !data.encodable() && error is EncodeError,
            },
    {
        match data.to_data() {
            Ok(data) => Ok(
                ControlMessageRequest { message_type: self, partition_id: ANY_PARTITION, data },
            ),
            Err(error) => Err(error),
        }
    }
}

/// What a task says once it is completed: its state is `COMPLETE`, and a
/// payload without bytes has become the nil payload.
pub open spec fn completed(event: TaskEventView) -> TaskEventView {
    TaskEventView {
        state: TaskState::Complete,
        payload: if event.payload.len() == 0 {
            seq![NIL]
        } else {
            event.payload
        },
        ..event
    }
}

impl ExecuteCommandRequest {
    /// The request to complete the task that a subscribed event has
    /// brought. Topic name, partition id, position, key and event type are
    /// those of the subscribed event.
    ///
    /// Fails with `EncodeError` exactly when the task has more custom
    /// headers than a `u32` counts.
    pub fn complete_task(message: &SubscribedEvent, event: TaskEvent) -> (r: Result<
        ExecuteCommandRequest,
        Error,
    >)
        ensures
            match r {
                Ok(request) => {
                    &&& event.encodable()
                    &&& request.topic_name@ == message.topic_name@
                    &&& request.partition_id == message.partition_id
                    &&& request.position == message.position
                    &&& request.key == message.key
                    &&& request.event_type == message.event_type
                    &&& request.command@ == TaskEvent::payload_of(completed(event@))
                },
                Err(error) => !event.encodable() && error is EncodeError,
            },
    {
        let mut event = event;
        event.state = TaskState::Complete;
        if event.payload.len() == 0 {
            event.payload.push(NIL);
            proof {
                assert(event.payload@ =~= seq![NIL]);
            }
        }
        let command = match event.to_data() {
            Ok(command) => command,
            Err(error) => {
                return Err(error);
            },
        };
        Ok(
            ExecuteCommandRequest {
                topic_name: message.topic_name.clone(),
                partition_id: message.partition_id,
                position: message.position,
                key: message.key,
                event_type: message.event_type,
                command,
            },
        )
    }
}

impl FromBytes for ErrorCode {
    type Model = ErrorCode;

    open spec fn model(&self) -> ErrorCode {
        *self
    }

    open spec fn parse(data: Seq<u8>) -> Result<(ErrorCode, nat), Error> {
        if data.len() < 1 {
            Err(Error::not_enough_bytes())
        } else {
            match ErrorCode::of_code(data[0]) {
                Some(value) => Ok((value, 1)),
                None => Err(Error::UnknownEnum(EnumKind::ErrorCode, data[0] as u64)),
            }
        }
    }

    fn from_bytes(reader: &mut &[u8]) -> (r: Result<ErrorCode, Error>) {
        if reader.len() < 1 {
            return Err(Error::SbeError(SbeError::NotEnoughBytes));
        }
        let code = reader[0];
        match ErrorCode::from_u8(code) {
            Some(value) => {
                *reader = slice_subrange(*reader, 1, reader.len());
                Ok(value)
            },
            None => Err(Error::UnknownEnum(EnumKind::ErrorCode, code as u64)),
        }
    }
}

impl ToBytes for ErrorCode {
    open spec fn bytes(&self) -> Seq<u8> {
        seq![self.code()]
    }

    open spec fn fits(&self) -> bool {
        true
    }

    fn to_bytes(&self, writer: &mut Vec<u8>) -> (r: Result<(), Error>) {
        writer.push(self.to_u8());
        proof {
            assert(writer@ =~= old(writer)@ + self.bytes());
        }
        Ok(())
    }
}

impl RoundTrip for ErrorCode {
    proof fn lemma_round_trip(&self, rest: Seq<u8>) {
        let all = self.bytes() + rest;
        assert(all[0] == self.code());
    }
}

impl HasBlockLength for ErrorCode {
    open spec fn spec_block_length() -> u16 {
        1
    }

    fn block_length() -> (n: u16) {
        1
    }
}

impl FixedLength for ErrorCode {
    proof fn lemma_fixed_length(&self) {
    }
}

impl HasMessageLength for ErrorCode {
    fn message_length(&self) -> (n: u32) {
        1
    }
}

impl FromBytes for ControlMessageType {
    type Model = ControlMessageType;

    open spec fn model(&self) -> ControlMessageType {
        *self
    }

    open spec fn parse(data: Seq<u8>) -> Result<(ControlMessageType, nat), Error> {
        if data.len() < 1 {
            Err(Error::not_enough_bytes())
        } else {
            match ControlMessageType::of_code(data[0]) {
                Some(value) => Ok((value, 1)),
                None => Err(Error::UnknownEnum(EnumKind::ControlMessageType, data[0] as u64)),
            }
        }
    }

    fn from_bytes(reader: &mut &[u8]) -> (r: Result<ControlMessageType, Error>) {
        if reader.len() < 1 {
            return Err(Error::SbeError(SbeError::NotEnoughBytes));
        }
        let code = reader[0];
        match ControlMessageType::from_u8(code) {
            Some(value) => {
                *reader = slice_subrange(*reader, 1, reader.len());
                Ok(value)
            },
            None => Err(Error::UnknownEnum(EnumKind::ControlMessageType, code as u64)),
        }
    }
}

impl ToBytes for ControlMessageType {
    open spec fn bytes(&self) -> Seq<u8> {
        seq![self.code()]
    }

    open spec fn fits(&self) -> bool {
        true
    }

    fn to_bytes(&self, writer: &mut Vec<u8>) -> (r: Result<(), Error>) {
        writer.push(self.to_u8());
        proof {
            assert(writer@ =~= old(writer)@ + self.bytes());
        }
        Ok(())
    }
}

impl RoundTrip for ControlMessageType {
    proof fn lemma_round_trip(&self, rest: Seq<u8>) {
        let all = self.bytes() + rest;
        assert(all[0] == self.code());
    }
}

impl HasBlockLength for ControlMessageType {
    open spec fn spec_block_length() -> u16 {
        1
    }

    fn block_length() -> (n: u16) {
        1
    }
}

impl FixedLength for ControlMessageType {
    proof fn lemma_fixed_length(&self) {
    }
}

impl HasMessageLength for ControlMessageType {
    fn message_length(&self) -> (n: u32) {
        1
    }
}

impl FromBytes for EventType {
    type Model = EventType;

    open spec fn model(&self) -> EventType {
        *self
    }

    open spec fn parse(data: Seq<u8>) -> Result<(EventType, nat), Error> {
        if data.len() < 1 {
            Err(Error::not_enough_bytes())
        } else {
            match EventType::of_code(data[0]) {
                Some(value) => Ok((value, 1)),
                None => Err(Error::UnknownEnum(EnumKind::EventType, data[0] as u64)),
            }
        }
    }

    fn from_bytes(reader: &mut &[u8]) -> (r: Result<EventType, Error>) {
        if reader.len() < 1 {
            return Err(Error::SbeError(SbeError::NotEnoughBytes));
        }
        let code = reader[0];
        match EventType::from_u8(code) {
            Some(value) => {
                *reader = slice_subrange(*reader, 1, reader.len());
                Ok(value)
            },
            None => Err(Error::UnknownEnum(EnumKind::EventType, code as u64)),
        }
    }
}

impl ToBytes for EventType {
    open spec fn bytes(&self) -> Seq<u8> {
        seq![self.code()]
    }

    open spec fn fits(&self) -> bool {
        true
    }

    fn to_bytes(&self, writer: &mut Vec<u8>) -> (r: Result<(), Error>) {
        writer.push(self.to_u8());
        proof {
            assert(writer@ =~= old(writer)@ + self.bytes());
        }
        Ok(())
    }
}

impl RoundTrip for EventType {
    proof fn lemma_round_trip(&self, rest: Seq<u8>) {
        let all = self.bytes() + rest;
        assert(all[0] == self.code());
    }
}

impl HasBlockLength for EventType {
    open spec fn spec_block_length() -> u16 {
        1
    }

    fn block_length() -> (n: u16) {
        1
    }
}

impl FixedLength for EventType {
    proof fn lemma_fixed_length(&self) {
    }
}

impl HasMessageLength for EventType {
    fn message_length(&self) -> (n: u32) {
        1
    }
}

impl FromBytes for SubscriptionType {
    type Model = SubscriptionType;

    open spec fn model(&self) -> SubscriptionType {
        *self
    }

    open spec fn parse(data: Seq<u8>) -> Result<(SubscriptionType, nat), Error> {
        if data.len() < 1 {
            Err(Error::not_enough_bytes())
        } else {
            match SubscriptionType::of_code(data[0]) {
                Some(value) => Ok((value, 1)),
                None => Err(Error::UnknownEnum(EnumKind::SubscriptionType, data[0] as u64)),
            }
        }
    }

    fn from_bytes(reader: &mut &[u8]) -> (r: Result<SubscriptionType, Error>) {
        if reader.len() < 1 {
            return Err(Error::SbeError(SbeError::NotEnoughBytes));
        }
        let code = reader[0];
        match SubscriptionType::from_u8(code) {
            Some(value) => {
                *reader = slice_subrange(*reader, 1, reader.len());
                Ok(value)
            },
            None => Err(Error::UnknownEnum(EnumKind::SubscriptionType, code as u64)),
        }
    }
}

impl ToBytes for SubscriptionType {
    open spec fn bytes(&self) -> Seq<u8> {
        seq![self.code()]
    }

    open spec fn fits(&self) -> bool {
        true
    }

    fn to_bytes(&self, writer: &mut Vec<u8>) -> (r: Result<(), Error>) {
        writer.push(self.to_u8());
        proof {
            assert(writer@ =~= old(writer)@ + self.bytes());
        }
        Ok(())
    }
}

impl RoundTrip for SubscriptionType {
    proof fn lemma_round_trip(&self, rest: Seq<u8>) {
        let all = self.bytes() + rest;
        assert(all[0] == self.code());
    }
}

impl HasBlockLength for SubscriptionType {
    open spec fn spec_block_length() -> u16 {
        1
    }

    fn block_length() -> (n: u16) {
        1
    }
}

impl FixedLength for SubscriptionType {
    proof fn lemma_fixed_length(&self) {
    }
}

impl HasMessageLength for SubscriptionType {
    fn message_length(&self) -> (n: u32) {
        1
    }
}

/// The broker could not do what a request asked for.
#[derive(Debug, PartialEq, Eq, Clone)]
pub struct ErrorResponse {
    pub error_code: ErrorCode,
    pub error_data: Data,
    pub failed_request: Data,
}

impl ErrorResponse {
    /// The fixed block of the message.
    pub open spec fn fields(&self) -> ErrorResponseFields {
        ErrorResponseFields {
            error_code: self.error_code,
        }
    }

    /// The fixed block of the message.
    pub fn block(&self) -> (fields: ErrorResponseFields)
        ensures
            fields == self.fields(),
    {
        ErrorResponseFields {
            error_code: self.error_code,
        }
    }
}

impl FromBytes for ErrorResponse {
    type Model = (ErrorResponseFields, Seq<u8>, Seq<u8>);

    open spec fn model(&self) -> (ErrorResponseFields, Seq<u8>, Seq<u8>) {
        (self.fields(), self.error_data@, self.failed_request@)
    }

    open spec fn parse(data: Seq<u8>) -> Result<((ErrorResponseFields, Seq<u8>, Seq<u8>), nat),
        Error> {
        if data.len() < 1 {
            Err(Error::not_enough_bytes())
        } else {
            match ErrorResponseFields::parse(data.take(1)) {
                Err(error) => Err(Error::of_codec_err(error)),
                Ok(fields) => match Data::parse(data.skip(1)) {
                    Err(error) => Err(error),
                    Ok((error_data, n0)) => match Data::parse(data.skip((1 + n0) as int)) {
                        Err(error) => Err(error),
                        Ok((failed_request, n1)) => Ok(((fields, error_data, failed_request), (1
                            + n0 + n1) as nat)),
                    },
                },
            }
        }
    }

    fn from_bytes(reader: &mut &[u8]) -> (r: Result<ErrorResponse, Error>) {
        let mut ahead: &[u8] = *reader;
        if ahead.len() < 1 {
            return Err(Error::SbeError(SbeError::NotEnoughBytes));
        }
        proof {
            assert(ahead@.subrange(0, 1) =~= ahead@.take(1));
        }
        let fields = match ErrorResponseFields::read(ahead, 0) {
            Ok(fields) => fields,
            Err(error) => {
                return Err(Error::from(error));
            },
        };
        ahead = slice_subrange(ahead, 1, ahead.len());
        let ghost at0: int = 1;
        proof {
            assert(ahead@ =~= old(reader)@.skip(at0));
        }
        let error_data = match Data::from_bytes(&mut ahead) {
            Ok(error_data) => error_data,
            Err(error) => {
                return Err(error);
            },
        };
        let ghost at1: int = at0 + Data::parse(old(reader)@.skip(at0))->Ok_0.1;
        proof {
            assert(ahead@ =~= old(reader)@.skip(at1));
        }
        let failed_request = match Data::from_bytes(&mut ahead) {
            Ok(failed_request) => failed_request,
            Err(error) => {
                return Err(error);
            },
        };
        let ghost at2: int = at1 + Data::parse(old(reader)@.skip(at1))->Ok_0.1;
        proof {
            assert(ahead@ =~= old(reader)@.skip(at2));
        }
        *reader = ahead;
        Ok(
            ErrorResponse {
                error_code: fields.error_code,
                error_data,
                failed_request,
            },
        )
    }
}

impl ToBytes for ErrorResponse {
    open spec fn bytes(&self) -> Seq<u8> {
        self.fields().bytes() + self.error_data.bytes() + self.failed_request.bytes()
    }

    open spec fn fits(&self) -> bool {
        self.error_data.fits() && self.failed_request.fits()
    }

    fn to_bytes(&self, writer: &mut Vec<u8>) -> (r: Result<(), Error>) {
        if self.error_data.len() > MAX_VAR_DATA_LENGTH
            || self.failed_request.len() > MAX_VAR_DATA_LENGTH {
            return Err(Error::SbeError(SbeError::SliceIsLongerThanAllowedBySchema));
        }
        let mut block = self.block().to_vec();
        writer.append(&mut block);
        match self.error_data.to_bytes(writer) {
            Ok(()) => {},
            Err(error) => {
                return Err(error);
            },
        }
        match self.failed_request.to_bytes(writer) {
            Ok(()) => {},
            Err(error) => {
                return Err(error);
            },
        }
        proof {
            assert(writer@ =~= old(writer)@ + self.bytes());
        }
        Ok(())
    }
}

impl RoundTrip for ErrorResponse {
    proof fn lemma_round_trip(&self, rest: Seq<u8>) {
        let all = self.bytes() + rest;
        self.fields().lemma_parse_bytes();
        assert(all.take(1) =~= self.fields().bytes());
        self.error_data.lemma_round_trip(self.failed_request.bytes() + rest);
        assert(all.skip((1) as int) =~= self.error_data.bytes()
            + (self.failed_request.bytes() + rest));
        self.failed_request.lemma_round_trip(rest);
        assert(all.skip((1 + self.error_data.bytes().len()) as int) =~= self.failed_request.bytes()
            + (rest));
    }
}

impl HasBlockLength for ErrorResponse {
    open spec fn spec_block_length() -> u16 {
        1
    }

    fn block_length() -> (n: u16) {
        1
    }
}

impl Message for ErrorResponse {
    open spec fn spec_template_id() -> u16 {
        0
    }

    open spec fn spec_schema_id() -> u16 {
        0
    }

    open spec fn spec_version() -> u16 {
        1
    }

    fn template_id() -> (id: u16) {
        0
    }

    fn schema_id() -> (id: u16) {
        0
    }

    fn version() -> (version: u16) {
        1
    }
}

impl HasData for ErrorResponse {
    open spec fn spec_data(&self) -> Data {
        self.error_data
    }

    fn data(&self) -> (data: &Data) {
        &self.error_data
    }
}

impl HasMessageLength for ErrorResponse {
    fn message_length(&self) -> (n: u32) {
        proof {
            self.fields().lemma_parse_bytes();
            lemma_le_bytes_len(self.error_data@.len(), 2);
            lemma_le_bytes_len(self.failed_request@.len(), 2);
        }
        let total: u64 = 1
            + self.error_data.message_length() as u64
            + self.failed_request.message_length() as u64;
        if total > u32::MAX as u64 {
            u32::MAX
        } else {
            total as u32
        }
    }
}

/// A command for a partition of a topic.
#[derive(Debug, PartialEq, Eq, Clone)]
pub struct ExecuteCommandRequest {
    pub partition_id: u16,
    pub position: u64,
    pub key: u64,
    pub event_type: EventType,
    pub topic_name: String,
    pub command: Data,
}

impl ExecuteCommandRequest {
    /// The fixed block of the message.
    pub open spec fn fields(&self) -> ExecuteCommandRequestFields {
        ExecuteCommandRequestFields {
            partition_id: self.partition_id,
            position: self.position,
            key: self.key,
            event_type: self.event_type,
        }
    }

    /// The fixed block of the message.
    pub fn block(&self) -> (fields: ExecuteCommandRequestFields)
        ensures
            fields == self.fields(),
    {
        ExecuteCommandRequestFields {
            partition_id: self.partition_id,
            position: self.position,
            key: self.key,
            event_type: self.event_type,
        }
    }
}

impl FromBytes for ExecuteCommandRequest {
    type Model = (ExecuteCommandRequestFields, Seq<char>, Seq<u8>);

    open spec fn model(&self) -> (ExecuteCommandRequestFields, Seq<char>, Seq<u8>) {
        (self.fields(), self.topic_name@, self.command@)
    }

    open spec fn parse(data: Seq<u8>) -> Result<((ExecuteCommandRequestFields, Seq<char>, Seq<u8>),
        nat), Error> {
        if data.len() < 19 {
            Err(Error::not_enough_bytes())
        } else {
            match ExecuteCommandRequestFields::parse(data.take(19)) {
                Err(error) => Err(Error::of_codec_err(error)),
                Ok(fields) => match String::parse(data.skip(19)) {
                    Err(error) => Err(error),
                    Ok((topic_name, n0)) => match Data::parse(data.skip((19 + n0) as int)) {
                        Err(error) => Err(error),
                        Ok((command, n1)) => Ok(((fields, topic_name, command), (19 + n0
                            + n1) as nat)),
                    },
                },
            }
        }
    }

    fn from_bytes(reader: &mut &[u8]) -> (r: Result<ExecuteCommandRequest, Error>) {
        let mut ahead: &[u8] = *reader;
        if ahead.len() < 19 {
            return Err(Error::SbeError(SbeError::NotEnoughBytes));
        }
        proof {
            assert(ahead@.subrange(0, 19) =~= ahead@.take(19));
        }
        let fields = match ExecuteCommandRequestFields::read(ahead, 0) {
            Ok(fields) => fields,
            Err(error) => {
                return Err(Error::from(error));
            },
        };
        ahead = slice_subrange(ahead, 19, ahead.len());
        let ghost at0: int = 19;
        proof {
            assert(ahead@ =~= old(reader)@.skip(at0));
        }
        let topic_name = match String::from_bytes(&mut ahead) {
            Ok(topic_name) => topic_name,
            Err(error) => {
                return Err(error);
            },
        };
        let ghost at1: int = at0 + String::parse(old(reader)@.skip(at0))->Ok_0.1;
        proof {
            assert(ahead@ =~= old(reader)@.skip(at1));
        }
        let command = match Data::from_bytes(&mut ahead) {
            Ok(command) => command,
            Err(error) => {
                return Err(error);
            },
        };
        let ghost at2: int = at1 + Data::parse(old(reader)@.skip(at1))->Ok_0.1;
        proof {
            assert(ahead@ =~= old(reader)@.skip(at2));
        }
        *reader = ahead;
        Ok(
            ExecuteCommandRequest {
                partition_id: fields.partition_id,
                position: fields.position,
                key: fields.key,
                event_type: fields.event_type,
                topic_name,
                command,
            },
        )
    }
}

impl ToBytes for ExecuteCommandRequest {
    open spec fn bytes(&self) -> Seq<u8> {
        self.fields().bytes() + self.topic_name.bytes() + self.command.bytes()
    }

    open spec fn fits(&self) -> bool {
        self.topic_name.fits() && self.command.fits()
    }

    fn to_bytes(&self, writer: &mut Vec<u8>) -> (r: Result<(), Error>) {
        if self.topic_name.as_str().as_bytes().len() > MAX_VAR_DATA_LENGTH
            || self.command.len() > MAX_VAR_DATA_LENGTH {
            return Err(Error::SbeError(SbeError::SliceIsLongerThanAllowedBySchema));
        }
        let mut block = self.block().to_vec();
        writer.append(&mut block);
        match self.topic_name.to_bytes(writer) {
            Ok(()) => {},
            Err(error) => {
                return Err(error);
            },
        }
        match self.command.to_bytes(writer) {
            Ok(()) => {},
            Err(error) => {
                return Err(error);
            },
        }
        proof {
            assert(writer@ =~= old(writer)@ + self.bytes());
        }
        Ok(())
    }
}

impl RoundTrip for ExecuteCommandRequest {
    proof fn lemma_round_trip(&self, rest: Seq<u8>) {
        let all = self.bytes() + rest;
        self.fields().lemma_parse_bytes();
        assert(all.take(19) =~= self.fields().bytes());
        self.topic_name.lemma_round_trip(self.command.bytes() + rest);
        assert(all.skip((19) as int) =~= self.topic_name.bytes() + (self.command.bytes() + rest));
        self.command.lemma_round_trip(rest);
        assert(all.skip((19 + self.topic_name.bytes().len()) as int) =~= self.command.bytes()
            + (rest));
    }
}

impl HasBlockLength for ExecuteCommandRequest {
    open spec fn spec_block_length() -> u16 {
        19
    }

    fn block_length() -> (n: u16) {
        19
    }
}

impl Message for ExecuteCommandRequest {
    open spec fn spec_template_id() -> u16 {
        20
    }

    open spec fn spec_schema_id() -> u16 {
        0
    }

    open spec fn spec_version() -> u16 {
        1
    }

    fn template_id() -> (id: u16) {
        20
    }

    fn schema_id() -> (id: u16) {
        0
    }

    fn version() -> (version: u16) {
        1
    }
}

impl HasData for ExecuteCommandRequest {
    open spec fn spec_data(&self) -> Data {
        self.command
    }

    fn data(&self) -> (data: &Data) {
        &self.command
    }
}

impl HasMessageLength for ExecuteCommandRequest {
    fn message_length(&self) -> (n: u32) {
        proof {
            self.fields().lemma_parse_bytes();
            lemma_le_bytes_len(encode_utf8(self.topic_name@).len(), 2);
            lemma_le_bytes_len(self.command@.len(), 2);
        }
        let total: u64 = 19
            + self.topic_name.message_length() as u64
            + self.command.message_length() as u64;
        if total > u32::MAX as u64 {
            u32::MAX
        } else {
            total as u32
        }
    }
}

/// The event that a command has led to.
#[derive(Debug, PartialEq, Eq, Clone)]
pub struct ExecuteCommandResponse {
    pub partition_id: u16,
    pub position: u64,
    pub key: u64,
    pub topic_name: String,
    pub event: Data,
}

impl ExecuteCommandResponse {
    /// The fixed block of the message.
    pub open spec fn fields(&self) -> ExecuteCommandResponseFields {
        ExecuteCommandResponseFields {
            partition_id: self.partition_id,
            position: self.position,
            key: self.key,
        }
    }

    /// The fixed block of the message.
    pub fn block(&self) -> (fields: ExecuteCommandResponseFields)
        ensures
            fields == self.fields(),
    {
        ExecuteCommandResponseFields {
            partition_id: self.partition_id,
            position: self.position,
            key: self.key,
        }
    }
}

impl FromBytes for ExecuteCommandResponse {
    type Model = (ExecuteCommandResponseFields, Seq<char>, Seq<u8>);

    open spec fn model(&self) -> (ExecuteCommandResponseFields, Seq<char>, Seq<u8>) {
        (self.fields(), self.topic_name@, self.event@)
    }

    open spec fn parse(data: Seq<u8>) -> Result<((ExecuteCommandResponseFields, Seq<char>, Seq<u8>),
        nat), Error> {
        if data.len() < 18 {
            Err(Error::not_enough_bytes())
        } else {
            match ExecuteCommandResponseFields::parse(data.take(18)) {
                Err(error) => Err(Error::of_codec_err(error)),
                Ok(fields) => match String::parse(data.skip(18)) {
                    Err(error) => Err(error),
                    Ok((topic_name, n0)) => match Data::parse(data.skip((18 + n0) as int)) {
                        Err(error) => Err(error),
                        Ok((event, n1)) => Ok(((fields, topic_name, event), (18 + n0 + n1) as nat)),
                    },
                },
            }
        }
    }

    fn from_bytes(reader: &mut &[u8]) -> (r: Result<ExecuteCommandResponse, Error>) {
        let mut ahead: &[u8] = *reader;
        if ahead.len() < 18 {
            return Err(Error::SbeError(SbeError::NotEnoughBytes));
        }
        proof {
            assert(ahead@.subrange(0, 18) =~= ahead@.take(18));
        }
        let fields = match ExecuteCommandResponseFields::read(ahead, 0) {
            Ok(fields) => fields,
            Err(error) => {
                return Err(Error::from(error));
            },
        };
        ahead = slice_subrange(ahead, 18, ahead.len());
        let ghost at0: int = 18;
        proof {
            assert(ahead@ =~= old(reader)@.skip(at0));
        }
        let topic_name = match String::from_bytes(&mut ahead) {
            Ok(topic_name) => topic_name,
            Err(error) => {
                return Err(error);
            },
        };
        let ghost at1: int = at0 + String::parse(old(reader)@.skip(at0))->Ok_0.1;
        proof {
            assert(ahead@ =~= old(reader)@.skip(at1));
        }
        let event = match Data::from_bytes(&mut ahead) {
            Ok(event) => event,
            Err(error) => {
                return Err(error);
            },
        };
        let ghost at2: int = at1 + Data::parse(old(reader)@.skip(at1))->Ok_0.1;
        proof {
            assert(ahead@ =~= old(reader)@.skip(at2));
        }
        *reader = ahead;
        Ok(
            ExecuteCommandResponse {
                partition_id: fields.partition_id,
                position: fields.position,
                key: fields.key,
                topic_name,
                event,
            },
        )
    }
}

impl ToBytes for ExecuteCommandResponse {
    open spec fn bytes(&self) -> Seq<u8> {
        self.fields().bytes() + self.topic_name.bytes() + self.event.bytes()
    }

    open spec fn fits(&self) -> bool {
        self.topic_name.fits() && self.event.fits()
    }

    fn to_bytes(&self, writer: &mut Vec<u8>) -> (r: Result<(), Error>) {
        if self.topic_name.as_str().as_bytes().len() > MAX_VAR_DATA_LENGTH
            || self.event.len() > MAX_VAR_DATA_LENGTH {
            return Err(Error::SbeError(SbeError::SliceIsLongerThanAllowedBySchema));
        }
        let mut block = self.block().to_vec();
        writer.append(&mut block);
        match self.topic_name.to_bytes(writer) {
            Ok(()) => {},
            Err(error) => {
                return Err(error);
            },
        }
        match self.event.to_bytes(writer) {
            Ok(()) => {},
            Err(error) => {
                return Err(error);
            },
        }
        proof {
            assert(writer@ =~= old(writer)@ + self.bytes());
        }
        Ok(())
    }
}

impl RoundTrip for ExecuteCommandResponse {
    proof fn lemma_round_trip(&self, rest: Seq<u8>) {
        let all = self.bytes() + rest;
        self.fields().lemma_parse_bytes();
        assert(all.take(18) =~= self.fields().bytes());
        self.topic_name.lemma_round_trip(self.event.bytes() + rest);
        assert(all.skip((18) as int) =~= self.topic_name.bytes() + (self.event.bytes() + rest));
        self.event.lemma_round_trip(rest);
        assert(all.skip((18 + self.topic_name.bytes().len()) as int) =~= self.event.bytes()
            + (rest));
    }
}

impl HasBlockLength for ExecuteCommandResponse {
    open spec fn spec_block_length() -> u16 {
        18
    }

    fn block_length() -> (n: u16) {
        18
    }
}

impl Message for ExecuteCommandResponse {
    open spec fn spec_template_id() -> u16 {
        21
    }

    open spec fn spec_schema_id() -> u16 {
        0
    }

    open spec fn spec_version() -> u16 {
        1
    }

    fn template_id() -> (id: u16) {
        21
    }

    fn schema_id() -> (id: u16) {
        0
    }

    fn version() -> (version: u16) {
        1
    }
}

impl HasData for ExecuteCommandResponse {
    open spec fn spec_data(&self) -> Data {
        self.event
    }

    fn data(&self) -> (data: &Data) {
        &self.event
    }
}

impl HasMessageLength for ExecuteCommandResponse {
    fn message_length(&self) -> (n: u32) {
        proof {
            self.fields().lemma_parse_bytes();
            lemma_le_bytes_len(encode_utf8(self.topic_name@).len(), 2);
            lemma_le_bytes_len(self.event@.len(), 2);
        }
        let total: u64 = 18
            + self.topic_name.message_length() as u64
            + self.event.message_length() as u64;
        if total > u32::MAX as u64 {
            u32::MAX
        } else {
            total as u32
        }
    }
}

/// A request that is no command: a subscription, or the topology.
#[derive(Debug, PartialEq, Eq, Clone)]
pub struct ControlMessageRequest {
    pub message_type: ControlMessageType,
    pub partition_id: u16,
    pub data: Data,
}

impl ControlMessageRequest {
    /// The fixed block of the message.
    pub open spec fn fields(&self) -> ControlMessageRequestFields {
        ControlMessageRequestFields {
            message_type: self.message_type,
            partition_id: self.partition_id,
        }
    }

    /// The fixed block of the message.
    pub fn block(&self) -> (fields: ControlMessageRequestFields)
        ensures
            fields == self.fields(),
    {
        ControlMessageRequestFields {
            message_type: self.message_type,
            partition_id: self.partition_id,
        }
    }
}

impl FromBytes for ControlMessageRequest {
    type Model = (ControlMessageRequestFields, Seq<u8>);

    open spec fn model(&self) -> (ControlMessageRequestFields, Seq<u8>) {
        (self.fields(), self.data@)
    }

    open spec fn parse(data: Seq<u8>) -> Result<((ControlMessageRequestFields, Seq<u8>), nat),
        Error> {
        if data.len() < 3 {
            Err(Error::not_enough_bytes())
        } else {
            match ControlMessageRequestFields::parse(data.take(3)) {
                Err(error) => Err(Error::of_codec_err(error)),
                Ok(fields) => match Data::parse(data.skip(3)) {
                    Err(error) => Err(error),
                    Ok((data, n0)) => Ok(((fields, data), (3 + n0) as nat)),
                },
            }
        }
    }

    fn from_bytes(reader: &mut &[u8]) -> (r: Result<ControlMessageRequest, Error>) {
        let mut ahead: &[u8] = *reader;
        if ahead.len() < 3 {
            return Err(Error::SbeError(SbeError::NotEnoughBytes));
        }
        proof {
            assert(ahead@.subrange(0, 3) =~= ahead@.take(3));
        }
        let fields = match ControlMessageRequestFields::read(ahead, 0) {
            Ok(fields) => fields,
            Err(error) => {
                return Err(Error::from(error));
            },
        };
        ahead = slice_subrange(ahead, 3, ahead.len());
        let ghost at0: int = 3;
        proof {
            assert(ahead@ =~= old(reader)@.skip(at0));
        }
        let data = match Data::from_bytes(&mut ahead) {
            Ok(data) => data,
            Err(error) => {
                return Err(error);
            },
        };
        let ghost at1: int = at0 + Data::parse(old(reader)@.skip(at0))->Ok_0.1;
        proof {
            assert(ahead@ =~= old(reader)@.skip(at1));
        }
        *reader = ahead;
        Ok(
            ControlMessageRequest {
                message_type: fields.message_type,
                partition_id: fields.partition_id,
                data,
            },
        )
    }
}

impl ToBytes for ControlMessageRequest {
    open spec fn bytes(&self) -> Seq<u8> {
        self.fields().bytes() + self.data.bytes()
    }

    open spec fn fits(&self) -> bool {
        self.data.fits()
    }

    fn to_bytes(&self, writer: &mut Vec<u8>) -> (r: Result<(), Error>) {
        if self.data.len() > MAX_VAR_DATA_LENGTH {
            return Err(Error::SbeError(SbeError::SliceIsLongerThanAllowedBySchema));
        }
        let mut block = self.block().to_vec();
        writer.append(&mut block);
        match self.data.to_bytes(writer) {
            Ok(()) => {},
            Err(error) => {
                return Err(error);
            },
        }
        proof {
            assert(writer@ =~= old(writer)@ + self.bytes());
        }
        Ok(())
    }
}

impl RoundTrip for ControlMessageRequest {
    proof fn lemma_round_trip(&self, rest: Seq<u8>) {
        let all = self.bytes() + rest;
        self.fields().lemma_parse_bytes();
        assert(all.take(3) =~= self.fields().bytes());
        self.data.lemma_round_trip(rest);
        assert(all.skip((3) as int) =~= self.data.bytes() + (rest));
    }
}

impl HasBlockLength for ControlMessageRequest {
    open spec fn spec_block_length() -> u16 {
        3
    }

    fn block_length() -> (n: u16) {
        3
    }
}

impl Message for ControlMessageRequest {
    open spec fn spec_template_id() -> u16 {
        10
    }

    open spec fn spec_schema_id() -> u16 {
        0
    }

    open spec fn spec_version() -> u16 {
        1
    }

    fn template_id() -> (id: u16) {
        10
    }

    fn schema_id() -> (id: u16) {
        0
    }

    fn version() -> (version: u16) {
        1
    }
}

impl HasData for ControlMessageRequest {
    open spec fn spec_data(&self) -> Data {
        self.data
    }

    fn data(&self) -> (data: &Data) {
        &self.data
    }
}

impl HasMessageLength for ControlMessageRequest {
    fn message_length(&self) -> (n: u32) {
        proof {
            self.fields().lemma_parse_bytes();
            lemma_le_bytes_len(self.data@.len(), 2);
        }
        let total: u64 = 3
            + self.data.message_length() as u64;
        if total > u32::MAX as u64 {
            u32::MAX
        } else {
            total as u32
        }
    }
}

/// The answer to a control message request.
#[derive(Debug, PartialEq, Eq, Clone)]
pub struct ControlMessageResponse {
    pub data: Data,
}

impl FromBytes for ControlMessageResponse {
    type Model = Seq<u8>;

    open spec fn model(&self) -> Seq<u8> {
        self.data@
    }

    open spec fn parse(data: Seq<u8>) -> Result<(Seq<u8>, nat), Error> {
        match Data::parse(data) {
            Err(error) => Err(error),
            Ok((data, n0)) => Ok((data, (n0) as nat)),
        }
    }

    fn from_bytes(reader: &mut &[u8]) -> (r: Result<ControlMessageResponse, Error>) {
        let mut ahead: &[u8] = *reader;
        let ghost at0: int = 0;
        proof {
            assert(ahead@ =~= old(reader)@.skip(at0));
        }
        let data = match Data::from_bytes(&mut ahead) {
            Ok(data) => data,
            Err(error) => {
                return Err(error);
            },
        };
        let ghost at1: int = at0 + Data::parse(old(reader)@.skip(at0))->Ok_0.1;
        proof {
            assert(ahead@ =~= old(reader)@.skip(at1));
        }
        *reader = ahead;
        Ok(
            ControlMessageResponse {
                data,
            },
        )
    }
}

impl ToBytes for ControlMessageResponse {
    open spec fn bytes(&self) -> Seq<u8> {
        self.data.bytes()
    }

    open spec fn fits(&self) -> bool {
        self.data.fits()
    }

    fn to_bytes(&self, writer: &mut Vec<u8>) -> (r: Result<(), Error>) {
        if self.data.len() > MAX_VAR_DATA_LENGTH {
            return Err(Error::SbeError(SbeError::SliceIsLongerThanAllowedBySchema));
        }
        match self.data.to_bytes(writer) {
            Ok(()) => {},
            Err(error) => {
                return Err(error);
            },
        }
        proof {
            assert(writer@ =~= old(writer)@ + self.bytes());
        }
        Ok(())
    }
}

impl RoundTrip for ControlMessageResponse {
    proof fn lemma_round_trip(&self, rest: Seq<u8>) {
        let all = self.bytes() + rest;
        self.data.lemma_round_trip(rest);
        assert(all =~= self.data.bytes() + (rest));
    }
}

impl HasBlockLength for ControlMessageResponse {
    open spec fn spec_block_length() -> u16 {
        0
    }

    fn block_length() -> (n: u16) {
        0
    }
}

impl Message for ControlMessageResponse {
    open spec fn spec_template_id() -> u16 {
        11
    }

    open spec fn spec_schema_id() -> u16 {
        0
    }

    open spec fn spec_version() -> u16 {
        1
    }

    fn template_id() -> (id: u16) {
        11
    }

    fn schema_id() -> (id: u16) {
        0
    }

    fn version() -> (version: u16) {
        1
    }
}

impl HasData for ControlMessageResponse {
    open spec fn spec_data(&self) -> Data {
        self.data
    }

    fn data(&self) -> (data: &Data) {
        &self.data
    }
}

impl HasMessageLength for ControlMessageResponse {
    fn message_length(&self) -> (n: u32) {
        proof {
            lemma_le_bytes_len(self.data@.len(), 2);
        }
        let total: u64 = self.data.message_length() as u64;
        if total > u32::MAX as u64 {
            u32::MAX
        } else {
            total as u32
        }
    }
}

/// An event that the broker pushes to a subscriber.
#[derive(Debug, PartialEq, Eq, Clone)]
pub struct SubscribedEvent {
    pub partition_id: u16,
    pub position: u64,
    pub key: u64,
    pub subscriber_key: u64,
    pub subscription_type: SubscriptionType,
    pub event_type: EventType,
    pub topic_name: String,
    pub event: Data,
}

impl SubscribedEvent {
    /// The fixed block of the message.
    pub open spec fn fields(&self) -> SubscribedEventFields {
        SubscribedEventFields {
            partition_id: self.partition_id,
            position: self.position,
            key: self.key,
            subscriber_key: self.subscriber_key,
            subscription_type: self.subscription_type,
            event_type: self.event_type,
        }
    }

    /// The fixed block of the message.
    pub fn block(&self) -> (fields: SubscribedEventFields)
        ensures
            fields == self.fields(),
    {
        SubscribedEventFields {
            partition_id: self.partition_id,
            position: self.position,
            key: self.key,
            subscriber_key: self.subscriber_key,
            subscription_type: self.subscription_type,
            event_type: self.event_type,
        }
    }
}

impl FromBytes for SubscribedEvent {
    type Model = (SubscribedEventFields, Seq<char>, Seq<u8>);

    open spec fn model(&self) -> (SubscribedEventFields, Seq<char>, Seq<u8>) {
        (self.fields(), self.topic_name@, self.event@)
    }

    open spec fn parse(data: Seq<u8>) -> Result<((SubscribedEventFields, Seq<char>, Seq<u8>), nat),
        Error> {
        if data.len() < 28 {
            Err(Error::not_enough_bytes())
        } else {
            match SubscribedEventFields::parse(data.take(28)) {
                Err(error) => Err(Error::of_codec_err(error)),
                Ok(fields) => match String::parse(data.skip(28)) {
                    Err(error) => Err(error),
                    Ok((topic_name, n0)) => match Data::parse(data.skip((28 + n0) as int)) {
                        Err(error) => Err(error),
                        Ok((event, n1)) => Ok(((fields, topic_name, event), (28 + n0 + n1) as nat)),
                    },
                },
            }
        }
    }

    fn from_bytes(reader: &mut &[u8]) -> (r: Result<SubscribedEvent, Error>) {
        let mut ahead: &[u8] = *reader;
        if ahead.len() < 28 {
            return Err(Error::SbeError(SbeError::NotEnoughBytes));
        }
        proof {
            assert(ahead@.subrange(0, 28) =~= ahead@.take(28));
        }
        let fields = match SubscribedEventFields::read(ahead, 0) {
            Ok(fields) => fields,
            Err(error) => {
                return Err(Error::from(error));
            },
        };
        ahead = slice_subrange(ahead, 28, ahead.len());
        let ghost at0: int = 28;
        proof {
            assert(ahead@ =~= old(reader)@.skip(at0));
        }
        let topic_name = match String::from_bytes(&mut ahead) {
            Ok(topic_name) => topic_name,
            Err(error) => {
                return Err(error);
            },
        };
        let ghost at1: int = at0 + String::parse(old(reader)@.skip(at0))->Ok_0.1;
        proof {
            assert(ahead@ =~= old(reader)@.skip(at1));
        }
        let event = match Data::from_bytes(&mut ahead) {
            Ok(event) => event,
            Err(error) => {
                return Err(error);
            },
        };
        let ghost at2: int = at1 + Data::parse(old(reader)@.skip(at1))->Ok_0.1;
        proof {
            assert(ahead@ =~= old(reader)@.skip(at2));
        }
        *reader = ahead;
        Ok(
            SubscribedEvent {
                partition_id: fields.partition_id,
                position: fields.position,
                key: fields.key,
                subscriber_key: fields.subscriber_key,
                subscription_type: fields.subscription_type,
                event_type: fields.event_type,
                topic_name,
                event,
            },
        )
    }
}

impl ToBytes for SubscribedEvent {
    open spec fn bytes(&self) -> Seq<u8> {
        self.fields().bytes() + self.topic_name.bytes() + self.event.bytes()
    }

    open spec fn fits(&self) -> bool {
        self.topic_name.fits() && self.event.fits()
    }

    fn to_bytes(&self, writer: &mut Vec<u8>) -> (r: Result<(), Error>) {
        if self.topic_name.as_str().as_bytes().len() > MAX_VAR_DATA_LENGTH
            || self.event.len() > MAX_VAR_DATA_LENGTH {
            return Err(Error::SbeError(SbeError::SliceIsLongerThanAllowedBySchema));
        }
        let mut block = self.block().to_vec();
        writer.append(&mut block);
        match self.topic_name.to_bytes(writer) {
            Ok(()) => {},
            Err(error) => {
                return Err(error);
            },
        }
        match self.event.to_bytes(writer) {
            Ok(()) => {},
            Err(error) => {
                return Err(error);
            },
        }
        proof {
            assert(writer@ =~= old(writer)@ + self.bytes());
        }
        Ok(())
    }
}

impl RoundTrip for SubscribedEvent {
    proof fn lemma_round_trip(&self, rest: Seq<u8>) {
        let all = self.bytes() + rest;
        self.fields().lemma_parse_bytes();
        assert(all.take(28) =~= self.fields().bytes());
        self.topic_name.lemma_round_trip(self.event.bytes() + rest);
        assert(all.skip((28) as int) =~= self.topic_name.bytes() + (self.event.bytes() + rest));
        self.event.lemma_round_trip(rest);
        assert(all.skip((28 + self.topic_name.bytes().len()) as int) =~= self.event.bytes()
            + (rest));
    }
}

impl HasBlockLength for SubscribedEvent {
    open spec fn spec_block_length() -> u16 {
        28
    }

    fn block_length() -> (n: u16) {
        28
    }
}

impl Message for SubscribedEvent {
    open spec fn spec_template_id() -> u16 {
        30
    }

    open spec fn spec_schema_id() -> u16 {
        0
    }

    open spec fn spec_version() -> u16 {
        1
    }

    fn template_id() -> (id: u16) {
        30
    }

    fn schema_id() -> (id: u16) {
        0
    }

    fn version() -> (version: u16) {
        1
    }
}

impl HasData for SubscribedEvent {
    open spec fn spec_data(&self) -> Data {
        self.event
    }

    fn data(&self) -> (data: &Data) {
        &self.event
    }
}

impl HasMessageLength for SubscribedEvent {
    fn message_length(&self) -> (n: u32) {
        proof {
            self.fields().lemma_parse_bytes();
            lemma_le_bytes_len(encode_utf8(self.topic_name@).len(), 2);
            lemma_le_bytes_len(self.event@.len(), 2);
        }
        let total: u64 = 28
            + self.topic_name.message_length() as u64
            + self.event.message_length() as u64;
        if total > u32::MAX as u64 {
            u32::MAX
        } else {
            total as u32
        }
    }
}

/// Log entries that one broker hands to another.
#[derive(Debug, PartialEq, Eq, Clone)]
pub struct AppendRequest {
    pub partition_id: u16,
    pub term: u16,
    pub previous_event_position: u64,
    pub previous_event_term: i32,
    pub commit_position: u64,
    pub port: u16,
    pub topic_name: String,
    pub host: String,
    pub data: Data,
}

impl AppendRequest {
    /// The fixed block of the message.
    pub open spec fn fields(&self) -> AppendRequestFields {
        AppendRequestFields {
            partition_id: self.partition_id,
            term: self.term,
            previous_event_position: self.previous_event_position,
            previous_event_term: self.previous_event_term,
            commit_position: self.commit_position,
            port: self.port,
        }
    }

    /// The fixed block of the message.
    pub fn block(&self) -> (fields: AppendRequestFields)
        ensures
            fields == self.fields(),
    {
        AppendRequestFields {
            partition_id: self.partition_id,
            term: self.term,
            previous_event_position: self.previous_event_position,
            previous_event_term: self.previous_event_term,
            commit_position: self.commit_position,
            port: self.port,
        }
    }
}

impl FromBytes for AppendRequest {
    type Model = (AppendRequestFields, Seq<char>, Seq<char>, Seq<u8>);

    open spec fn model(&self) -> (AppendRequestFields, Seq<char>, Seq<char>, Seq<u8>) {
        (self.fields(), self.topic_name@, self.host@, self.data@)
    }

    open spec fn parse(data: Seq<u8>) -> Result<((AppendRequestFields, Seq<char>, Seq<char>,
        Seq<u8>), nat), Error> {
        if data.len() < 26 {
            Err(Error::not_enough_bytes())
        } else {
            match AppendRequestFields::parse(data.take(26)) {
                Err(error) => Err(Error::of_codec_err(error)),
                Ok(fields) => match String::parse(data.skip(26)) {
                    Err(error) => Err(error),
                    Ok((topic_name, n0)) => match String::parse(data.skip((26 + n0) as int)) {
                        Err(error) => Err(error),
                        Ok((host, n1)) => match Data::parse(data.skip((26 + n0 + n1) as int)) {
                            Err(error) => Err(error),
                            Ok((data, n2)) => Ok(((fields, topic_name, host, data), (26 + n0 + n1
                                + n2) as nat)),
                        },
                    },
                },
            }
        }
    }

    fn from_bytes(reader: &mut &[u8]) -> (r: Result<AppendRequest, Error>) {
        let mut ahead: &[u8] = *reader;
        if ahead.len() < 26 {
            return Err(Error::SbeError(SbeError::NotEnoughBytes));
        }
        proof {
            assert(ahead@.subrange(0, 26) =~= ahead@.take(26));
        }
        let fields = match AppendRequestFields::read(ahead, 0) {
            Ok(fields) => fields,
            Err(error) => {
                return Err(Error::from(error));
            },
        };
        ahead = slice_subrange(ahead, 26, ahead.len());
        let ghost at0: int = 26;
        proof {
            assert(ahead@ =~= old(reader)@.skip(at0));
        }
        let topic_name = match String::from_bytes(&mut ahead) {
            Ok(topic_name) => topic_name,
            Err(error) => {
                return Err(error);
            },
        };
        let ghost at1: int = at0 + String::parse(old(reader)@.skip(at0))->Ok_0.1;
        proof {
            assert(ahead@ =~= old(reader)@.skip(at1));
        }
        let host = match String::from_bytes(&mut ahead) {
            Ok(host) => host,
            Err(error) => {
                return Err(error);
            },
        };
        let ghost at2: int = at1 + String::parse(old(reader)@.skip(at1))->Ok_0.1;
        proof {
            assert(ahead@ =~= old(reader)@.skip(at2));
        }
        let data = match Data::from_bytes(&mut ahead) {
            Ok(data) => data,
            Err(error) => {
                return Err(error);
            },
        };
        let ghost at3: int = at2 + Data::parse(old(reader)@.skip(at2))->Ok_0.1;
        proof {
            assert(ahead@ =~= old(reader)@.skip(at3));
        }
        *reader = ahead;
        Ok(
            AppendRequest {
                partition_id: fields.partition_id,
                term: fields.term,
                previous_event_position: fields.previous_event_position,
                previous_event_term: fields.previous_event_term,
                commit_position: fields.commit_position,
                port: fields.port,
                topic_name,
                host,
                data,
            },
        )
    }
}

impl ToBytes for AppendRequest {
    open spec fn bytes(&self) -> Seq<u8> {
        self.fields().bytes() + self.topic_name.bytes() + self.host.bytes() + self.data.bytes()
    }

    open spec fn fits(&self) -> bool {
        self.topic_name.fits() && self.host.fits() && self.data.fits()
    }

    fn to_bytes(&self, writer: &mut Vec<u8>) -> (r: Result<(), Error>) {
        if self.topic_name.as_str().as_bytes().len() > MAX_VAR_DATA_LENGTH
            || self.host.as_str().as_bytes().len() > MAX_VAR_DATA_LENGTH
            || self.data.len() > MAX_VAR_DATA_LENGTH {
            return Err(Error::SbeError(SbeError::SliceIsLongerThanAllowedBySchema));
        }
        let mut block = self.block().to_vec();
        writer.append(&mut block);
        match self.topic_name.to_bytes(writer) {
            Ok(()) => {},
            Err(error) => {
                return Err(error);
            },
        }
        match self.host.to_bytes(writer) {
            Ok(()) => {},
            Err(error) => {
                return Err(error);
            },
        }
        match self.data.to_bytes(writer) {
            Ok(()) => {},
            Err(error) => {
                return Err(error);
            },
        }
        proof {
            assert(writer@ =~= old(writer)@ + self.bytes());
        }
        Ok(())
    }
}

impl RoundTrip for AppendRequest {
    proof fn lemma_round_trip(&self, rest: Seq<u8>) {
        let all = self.bytes() + rest;
        self.fields().lemma_parse_bytes();
        assert(all.take(26) =~= self.fields().bytes());
        self.topic_name.lemma_round_trip(self.host.bytes() + self.data.bytes() + rest);
        assert(all.skip((26) as int) =~= self.topic_name.bytes()
            + (self.host.bytes() + self.data.bytes() + rest));
        self.host.lemma_round_trip(self.data.bytes() + rest);
        assert(all.skip((26 + self.topic_name.bytes().len()) as int) =~= self.host.bytes()
            + (self.data.bytes() + rest));
        self.data.lemma_round_trip(rest);
        assert(all.skip((26 + self.topic_name.bytes().len() + self.host.bytes().len()) as int)
            =~= self.data.bytes() + (rest));
    }
}

impl HasBlockLength for AppendRequest {
    open spec fn spec_block_length() -> u16 {
        26
    }

    fn block_length() -> (n: u16) {
        26
    }
}

impl Message for AppendRequest {
    open spec fn spec_template_id() -> u16 {
        10
    }

    open spec fn spec_schema_id() -> u16 {
        4
    }

    open spec fn spec_version() -> u16 {
        1
    }

    fn template_id() -> (id: u16) {
        10
    }

    fn schema_id() -> (id: u16) {
        4
    }

    fn version() -> (version: u16) {
        1
    }
}

impl HasData for AppendRequest {
    open spec fn spec_data(&self) -> Data {
        self.data
    }

    fn data(&self) -> (data: &Data) {
        &self.data
    }
}

impl HasMessageLength for AppendRequest {
    fn message_length(&self) -> (n: u32) {
        proof {
            self.fields().lemma_parse_bytes();
            lemma_le_bytes_len(encode_utf8(self.topic_name@).len(), 2);
            lemma_le_bytes_len(encode_utf8(self.host@).len(), 2);
            lemma_le_bytes_len(self.data@.len(), 2);
        }
        let total: u64 = 26
            + self.topic_name.message_length() as u64
            + self.host.message_length() as u64
            + self.data.message_length() as u64;
        if total > u32::MAX as u64 {
            u32::MAX
        } else {
            total as u32
        }
    }
}

} // verus!
