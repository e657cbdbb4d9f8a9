//! The transport dispatcher: whole frames as typed messages.
//!
//! The transport header of a frame says which catalog its message is from.
//! A request or a response carries one of five templates, a single message
//! one of two, and a control message is its own body. The header of the
//! message then says which template it is.

use crate::error::Error;
use crate::error::SbeError;
use crate::frame::control_message;
use crate::frame::control_message_payload;
use crate::frame::frame_bytes;
use crate::frame::full_duplex_single_message;
use crate::frame::full_duplex_single_message_payload;
use crate::frame::lemma_decode_control_message;
use crate::frame::lemma_decode_full_duplex_single_message;
use crate::frame::lemma_decode_request_response;
use crate::frame::lemma_frame_header_measures_frame;
use crate::frame::lemma_frame_is_aligned_and_zero_padded;
use crate::frame::parse_frame;
use crate::frame::request_response;
use crate::frame::request_response_payload;
use crate::frame::ControlMessageType;
use crate::frame::DataFrameType;
use crate::frame::Frame;
use crate::frame::FrameView;
use crate::frame::MAX_FRAME_LENGTH;
use crate::io::FromBytes;
use crate::io::RoundTrip;
use crate::io::ToBytes;
use crate::sbe::decode_message;
use crate::sbe::encode_message;
use crate::sbe::lemma_header_in_front;
use crate::sbe::lemma_message_round_trip;
use crate::sbe::message_bytes;
use crate::sbe::parse_message;
use crate::sbe::zb_protocol::MessageHeader;
use crate::sbe::AppendRequest;
use crate::sbe::ControlMessageRequest;
use crate::sbe::ControlMessageResponse;
use crate::sbe::ErrorResponse;
use crate::sbe::ExecuteCommandRequest;
use crate::sbe::ExecuteCommandResponse;
use crate::sbe::SubscribedEvent;
use crate::sbe::ToMessageHeader;
use crate::wire::lemma_le_bytes_len;
use vstd::prelude::*;
use vstd::slice::slice_subrange;

verus! {

/// An encoded message, whatever follows it, starts with the header of its
/// template and reads back as itself.
proof fn lemma_dispatch<T: RoundTrip + ToMessageHeader>(message: &T, rest: Seq<u8>)
    requires
        message.fits(),
    ensures
        (message_bytes(message) + rest).len() >= 8,
        message_bytes(message).len() == 8 + message.bytes().len(),
        MessageHeader::parse(message_bytes(message) + rest) == T::spec_message_header(),
        parse_message::<T>(message_bytes(message) + rest) == Ok::<(T::Model, nat), Error>(
            (message.model(), 8 + message.bytes().len()),
        ),
{
    let header = T::spec_message_header();
    let all = message_bytes(message) + rest;
    header.lemma_parse_bytes();
    assert(all.take(8) =~= header.bytes());
    lemma_header_in_front(header, all);
    lemma_message_round_trip(message, rest);
}

/// The messages that travel as requests and responses.
#[derive(Debug, PartialEq, Eq, Clone)]
pub enum RequestResponseMessage {
    ControlMessageRequest(ControlMessageRequest),
    ControlMessageResponse(ControlMessageResponse),
    ExecuteCommandRequest(ExecuteCommandRequest),
    ExecuteCommandResponse(ExecuteCommandResponse),
    ErrorResponse(ErrorResponse),
}

/// What a request or a response says.
pub enum RequestResponseModel {
    ControlMessageRequest(<ControlMessageRequest as FromBytes>::Model),
    ControlMessageResponse(<ControlMessageResponse as FromBytes>::Model),
    ExecuteCommandRequest(<ExecuteCommandRequest as FromBytes>::Model),
    ExecuteCommandResponse(<ExecuteCommandResponse as FromBytes>::Model),
    ErrorResponse(<ErrorResponse as FromBytes>::Model),
}

impl FromBytes for RequestResponseMessage {
    type Model = RequestResponseModel;

    open spec fn model(&self) -> RequestResponseModel {
        match *self {
            RequestResponseMessage::ControlMessageRequest(message) => {
                RequestResponseModel::ControlMessageRequest(message.model())
            },
            RequestResponseMessage::ControlMessageResponse(message) => {
                RequestResponseModel::ControlMessageResponse(message.model())
            },
            RequestResponseMessage::ExecuteCommandRequest(message) => {
                RequestResponseModel::ExecuteCommandRequest(message.model())
            },
            RequestResponseMessage::ExecuteCommandResponse(message) => {
                RequestResponseModel::ExecuteCommandResponse(message.model())
            },
            RequestResponseMessage::ErrorResponse(message) => RequestResponseModel::ErrorResponse(
                message.model(),
            ),
        }
    }

    open spec fn parse(data: Seq<u8>) -> Result<(RequestResponseModel, nat), Error> {
        if data.len() < 8 {
            Err(Error::not_enough_bytes())
        } else if MessageHeader::parse(data) == ControlMessageRequest::spec_message_header() {
            match parse_message::<ControlMessageRequest>(data) {
                Ok((message, n)) => Ok((RequestResponseModel::ControlMessageRequest(message), n)),
                Err(error) => Err(error),
            }
        } else if MessageHeader::parse(data) == ControlMessageResponse::spec_message_header() {
            match parse_message::<ControlMessageResponse>(data) {
                Ok((message, n)) => Ok((RequestResponseModel::ControlMessageResponse(message), n)),
                Err(error) => Err(error),
            }
        } else if MessageHeader::parse(data) == ExecuteCommandRequest::spec_message_header() {
            match parse_message::<ExecuteCommandRequest>(data) {
                Ok((message, n)) => Ok((RequestResponseModel::ExecuteCommandRequest(message), n)),
                Err(error) => Err(error),
            }
        } else if MessageHeader::parse(data) == ExecuteCommandResponse::spec_message_header() {
            match parse_message::<ExecuteCommandResponse>(data) {
                Ok((message, n)) => Ok((RequestResponseModel::ExecuteCommandResponse(message), n)),
                Err(error) => Err(error),
            }
        } else if MessageHeader::parse(data) == ErrorResponse::spec_message_header() {
            match parse_message::<ErrorResponse>(data) {
                Ok((message, n)) => Ok((RequestResponseModel::ErrorResponse(message), n)),
                Err(error) => Err(error),
            }
        } else {
            Err(Error::UnsupportedMessage(MessageHeader::parse(data)))
        }
    }

    fn from_bytes(reader: &mut &[u8]) -> (r: Result<RequestResponseMessage, Error>) {
        let mut ahead: &[u8] = *reader;
        let header = match MessageHeader::from_bytes(&mut ahead) {
            Ok(header) => header,
            Err(error) => {
                return Err(error);
            },
        };
        if header == ControlMessageRequest::message_header() {
            match decode_message::<ControlMessageRequest>(reader) {
                Ok(message) => Ok(RequestResponseMessage::ControlMessageRequest(message)),
                Err(error) => Err(error),
            }
        } else if header == ControlMessageResponse::message_header() {
            match decode_message::<ControlMessageResponse>(reader) {
                Ok(message) => Ok(RequestResponseMessage::ControlMessageResponse(message)),
                Err(error) => Err(error),
            }
        } else if header == ExecuteCommandRequest::message_header() {
            match decode_message::<ExecuteCommandRequest>(reader) {
                Ok(message) => Ok(RequestResponseMessage::ExecuteCommandRequest(message)),
                Err(error) => Err(error),
            }
        } else if header == ExecuteCommandResponse::message_header() {
            match decode_message::<ExecuteCommandResponse>(reader) {
                Ok(message) => Ok(RequestResponseMessage::ExecuteCommandResponse(message)),
                Err(error) => Err(error),
            }
        } else if header == ErrorResponse::message_header() {
            match decode_message::<ErrorResponse>(reader) {
                Ok(message) => Ok(RequestResponseMessage::ErrorResponse(message)),
                Err(error) => Err(error),
            }
        } else {
            Err(Error::UnsupportedMessage(header))
        }
    }
}

impl ToBytes for RequestResponseMessage {
    open spec fn bytes(&self) -> Seq<u8> {
        match self {
            RequestResponseMessage::ControlMessageRequest(message) => message_bytes(message),
            RequestResponseMessage::ControlMessageResponse(message) => message_bytes(message),
            RequestResponseMessage::ExecuteCommandRequest(message) => message_bytes(message),
            RequestResponseMessage::ExecuteCommandResponse(message) => message_bytes(message),
            RequestResponseMessage::ErrorResponse(message) => message_bytes(message),
        }
    }

    open spec fn fits(&self) -> bool {
        match self {
            RequestResponseMessage::ControlMessageRequest(message) => message.fits(),
            RequestResponseMessage::ControlMessageResponse(message) => message.fits(),
            RequestResponseMessage::ExecuteCommandRequest(message) => message.fits(),
            RequestResponseMessage::ExecuteCommandResponse(message) => message.fits(),
            RequestResponseMessage::ErrorResponse(message) => message.fits(),
        }
    }

    fn to_bytes(&self, writer: &mut Vec<u8>) -> (r: Result<(), Error>) {
        match self {
            RequestResponseMessage::ControlMessageRequest(message) => encode_message(
                message,
                writer,
            ),
            RequestResponseMessage::ControlMessageResponse(message) => encode_message(
                message,
                writer,
            ),
            RequestResponseMessage::ExecuteCommandRequest(message) => encode_message(
                message,
                writer,
            ),
            RequestResponseMessage::ExecuteCommandResponse(message) => encode_message(
                message,
                writer,
            ),
            RequestResponseMessage::ErrorResponse(message) => encode_message(message, writer),
        }
    }
}

impl RoundTrip for RequestResponseMessage {
    proof fn lemma_round_trip(&self, rest: Seq<u8>) {
        match self {
            RequestResponseMessage::ControlMessageRequest(message) => {
                lemma_dispatch(message, rest);
            },
            RequestResponseMessage::ControlMessageResponse(message) => {
                lemma_dispatch(message, rest);
            },
            RequestResponseMessage::ExecuteCommandRequest(message) => {
                lemma_dispatch(message, rest);
            },
            RequestResponseMessage::ExecuteCommandResponse(message) => {
                lemma_dispatch(message, rest);
            },
            RequestResponseMessage::ErrorResponse(message) => {
                lemma_dispatch(message, rest);
            },
        }
    }
}

/// The messages that travel alone.
#[derive(Debug, PartialEq, Eq, Clone)]
pub enum SingleRequestMessage {
    SubscribedEvent(SubscribedEvent),
    AppendRequest(AppendRequest),
}

/// What a message that travels alone says.
pub enum SingleRequestModel {
    SubscribedEvent(<SubscribedEvent as FromBytes>::Model),
    AppendRequest(<AppendRequest as FromBytes>::Model),
}

impl FromBytes for SingleRequestMessage {
    type Model = SingleRequestModel;

    open spec fn model(&self) -> SingleRequestModel {
        match *self {
            SingleRequestMessage::SubscribedEvent(message) => SingleRequestModel::SubscribedEvent(
                message.model(),
            ),
            SingleRequestMessage::AppendRequest(message) => SingleRequestModel::AppendRequest(
                message.model(),
            ),
        }
    }

    open spec fn parse(data: Seq<u8>) -> Result<(SingleRequestModel, nat), Error> {
        if data.len() < 8 {
            Err(Error::not_enough_bytes())
        } else if MessageHeader::parse(data) == SubscribedEvent::spec_message_header() {
            match parse_message::<SubscribedEvent>(data) {
                Ok((message, n)) => Ok((SingleRequestModel::SubscribedEvent(message), n)),
                Err(error) => Err(error),
            }
        } else if MessageHeader::parse(data) == AppendRequest::spec_message_header() {
            match parse_message::<AppendRequest>(data) {
                Ok((message, n)) => Ok((SingleRequestModel::AppendRequest(message), n)),
                Err(error) => Err(error),
            }
        } else {
            Err(Error::UnsupportedMessage(MessageHeader::parse(data)))
        }
    }

    fn from_bytes(reader: &mut &[u8]) -> (r: Result<SingleRequestMessage, Error>) {
        let mut ahead: &[u8] = *reader;
        let header = match MessageHeader::from_bytes(&mut ahead) {
            Ok(header) => header,
            Err(error) => {
                return Err(error);
            },
        };
        if header == SubscribedEvent::message_header() {
            match decode_message::<SubscribedEvent>(reader) {
                Ok(message) => Ok(SingleRequestMessage::SubscribedEvent(message)),
                Err(error) => Err(error),
            }
        } else if header == AppendRequest::message_header() {
            match decode_message::<AppendRequest>(reader) {
                Ok(message) => Ok(SingleRequestMessage::AppendRequest(message)),
                Err(error) => Err(error),
            }
        } else {
            Err(Error::UnsupportedMessage(header))
        }
    }
}

impl ToBytes for SingleRequestMessage {
    open spec fn bytes(&self) -> Seq<u8> {
        match self {
            SingleRequestMessage::SubscribedEvent(message) => message_bytes(message),
            SingleRequestMessage::AppendRequest(message) => message_bytes(message),
        }
    }

    open spec fn fits(&self) -> bool {
        match self {
            SingleRequestMessage::SubscribedEvent(message) => message.fits(),
            SingleRequestMessage::AppendRequest(message) => message.fits(),
        }
    }

    fn to_bytes(&self, writer: &mut Vec<u8>) -> (r: Result<(), Error>) {
        match self {
            SingleRequestMessage::SubscribedEvent(message) => encode_message(message, writer),
            SingleRequestMessage::AppendRequest(message) => encode_message(message, writer),
        }
    }
}

impl RoundTrip for SingleRequestMessage {
    proof fn lemma_round_trip(&self, rest: Seq<u8>) {
        match self {
            SingleRequestMessage::SubscribedEvent(message) => {
                lemma_dispatch(message, rest);
            },
            SingleRequestMessage::AppendRequest(message) => {
                lemma_dispatch(message, rest);
            },
        }
    }
}

/// What a message frame carries.
#[derive(Debug, PartialEq, Eq, Clone)]
pub enum TransportBody {
    RequestResponse { request_id: u64, message: RequestResponseMessage },
    SingleRequest(SingleRequestMessage),
    ControlMessage(ControlMessageType),
}

/// What the body of a message frame says.
pub enum TransportBodyModel {
    RequestResponse { request_id: u64, message: RequestResponseModel },
    SingleRequest(SingleRequestModel),
    ControlMessage(ControlMessageType),
}

/// A message frame: the fields of its header that the sender chooses, and
/// what it carries.
#[derive(Debug, PartialEq, Eq, Clone)]
pub struct TransportMessage {
    pub version: u8,
    pub flags: u8,
    pub stream_id: u32,
    pub body: TransportBody,
}

/// What a message frame says.
pub struct TransportModel {
    pub version: u8,
    pub flags: u8,
    pub stream_id: u32,
    pub body: TransportBodyModel,
}

impl TransportBody {
    pub open spec fn model(&self) -> TransportBodyModel {
        match *self {
            TransportBody::RequestResponse { request_id, message } => {
                TransportBodyModel::RequestResponse { request_id, message: message.model() }
            },
            TransportBody::SingleRequest(message) => TransportBodyModel::SingleRequest(
                message.model(),
            ),
            TransportBody::ControlMessage(message_type) => TransportBodyModel::ControlMessage(
                message_type,
            ),
        }
    }

    /// The payload of the frame that carries this body.
    pub open spec fn payload(&self) -> Seq<u8> {
        match *self {
            TransportBody::RequestResponse { request_id, message } => request_response_payload(
                request_id,
                message.bytes(),
            ),
            TransportBody::SingleRequest(message) => full_duplex_single_message_payload(
                message.bytes(),
            ),
            TransportBody::ControlMessage(message_type) => control_message_payload(message_type),
        }
    }

    /// Whether the message in the body fits its length prefixes.
    pub open spec fn message_fits(&self) -> bool {
        match *self {
            TransportBody::RequestResponse { message, .. } => message.fits(),
            TransportBody::SingleRequest(message) => message.fits(),
            TransportBody::ControlMessage(_) => true,
        }
    }
}

/// What the frame at the start of `data` says, and how many bytes the frame
/// takes, padding included; nothing for a padding frame. The whole frame
/// must be there.
pub open spec fn parse_transport(data: Seq<u8>) -> Result<(Option<TransportModel>, nat), Error> {
    match parse_frame(data) {
        Err(error) => Err(error),
        Ok(frame) => if data.len() < frame.data_frame_header().spec_aligned_length() {
            Err(Error::not_enough_bytes())
        } else {
            let header = frame.data_frame_header();
            match frame {
                FrameView::Padding { .. } => Ok((None, header.spec_aligned_length())),
                FrameView::RequestResponse { request_response_header, message, .. } => {
                    match RequestResponseMessage::parse(message) {
                        Err(error) => Err(error),
                        Ok((message, _)) => Ok(
                            (
                                Some(
                                    TransportModel {
                                        version: header.version,
                                        flags: header.flags,
                                        stream_id: header.stream_id,
                                        body: TransportBodyModel::RequestResponse {
                                            request_id: request_response_header.request_id,
                                            message,
                                        },
                                    },
                                ),
                                header.spec_aligned_length(),
                            ),
                        ),
                    }
                },
                FrameView::FullDuplexSingleMessage { message, .. } => {
                    match SingleRequestMessage::parse(message) {
                        Err(error) => Err(error),
                        Ok((message, _)) => Ok(
                            (
                                Some(
                                    TransportModel {
                                        version: header.version,
                                        flags: header.flags,
                                        stream_id: header.stream_id,
                                        body: TransportBodyModel::SingleRequest(message),
                                    },
                                ),
                                header.spec_aligned_length(),
                            ),
                        ),
                    }
                },
                FrameView::ControlMessage { message_type, .. } => Ok(
                    (
                        Some(
                            TransportModel {
                                version: header.version,
                                flags: header.flags,
                                stream_id: header.stream_id,
                                body: TransportBodyModel::ControlMessage(message_type),
                            },
                        ),
                        header.spec_aligned_length(),
                    ),
                ),
            }
        },
    }
}

impl TransportMessage {
    pub open spec fn model(&self) -> TransportModel {
        TransportModel {
            version: self.version,
            flags: self.flags,
            stream_id: self.stream_id,
            body: self.body.model(),
        }
    }

    /// A request or a response with version, flags and stream id zero.
    pub fn request(request_id: u64, message: RequestResponseMessage) -> (request: TransportMessage)
        ensures
            request == (TransportMessage {
                version: 0,
                flags: 0,
                stream_id: 0,
                body: TransportBody::RequestResponse { request_id, message },
            }),
    {
        TransportMessage {
            version: 0,
            flags: 0,
            stream_id: 0,
            body: TransportBody::RequestResponse { request_id, message },
        }
    }

    /// A message that travels alone, with version, flags and stream id zero.
    pub fn single_request(message: SingleRequestMessage) -> (request: TransportMessage)
        ensures
            request == (TransportMessage {
                version: 0,
                flags: 0,
                stream_id: 0,
                body: TransportBody::SingleRequest(message),
            }),
    {
        TransportMessage {
            version: 0,
            flags: 0,
            stream_id: 0,
            body: TransportBody::SingleRequest(message),
        }
    }

    /// The keep-alive message, with version, flags and stream id zero.
    pub fn keep_alive() -> (message: TransportMessage)
        ensures
            message == (TransportMessage {
                version: 0,
                flags: 0,
                stream_id: 0,
                body: TransportBody::ControlMessage(ControlMessageType::KeepAlive),
            }),
    {
        TransportMessage {
            version: 0,
            flags: 0,
            stream_id: 0,
            body: TransportBody::ControlMessage(ControlMessageType::KeepAlive),
        }
    }

    /// Reads the frame at the front of `reader` and advances `reader` to the
    /// next frame. A padding frame gives no message.
    ///
    /// Fails with `UnsupportedMessage` when the message is of no template of
    /// its catalog. On failure `reader` stays where it was.
    pub fn decode(reader: &mut &[u8]) -> (r: Result<Option<TransportMessage>, Error>)
        ensures
            match r {
                Ok(message) => {
                    &&& parse_transport(old(reader)@) is Ok
                    &&& parse_transport(old(reader)@)->Ok_0.0 == match message {
                        Some(message) => Some(message.model()),
                        None => None,
                    }
                    &&& parse_transport(old(reader)@)->Ok_0.1 <= old(reader)@.len()
                    &&& final(reader)@ == old(reader)@.skip(
                        parse_transport(old(reader)@)->Ok_0.1 as int,
                    )
                },
                Err(error) => {
                    &&& parse_transport(old(reader)@)
                        == Err::<(Option<TransportModel>, nat), Error>(
                        error,
                    )
                    &&& final(reader)@ == old(reader)@
                },
            },
    {
        let data: &[u8] = *reader;
        let frame = match Frame::decode(data) {
            Ok(frame) => frame,
            Err(error) => {
                return Err(error);
            },
        };
        let header = frame.data_frame_header();
        let aligned = header.aligned_length();
        if (data.len() as u64) < aligned {
            return Err(Error::SbeError(SbeError::NotEnoughBytes));
        }
        let body = match frame {
            Frame::Padding(_) => None,
            Frame::RequestResponse(frame) => {
                let mut message = frame.message;
                match RequestResponseMessage::from_bytes(&mut message) {
                    Ok(message) => Some(
                        TransportBody::RequestResponse {
                            request_id: frame.request_response_header.request_id,
                            message,
                        },
                    ),
                    Err(error) => {
                        return Err(error);
                    },
                }
            },
            Frame::FullDuplexSingleMessage(frame) => {
                let mut message = frame.message;
                match SingleRequestMessage::from_bytes(&mut message) {
                    Ok(message) => Some(TransportBody::SingleRequest(message)),
                    Err(error) => {
                        return Err(error);
                    },
                }
            },
            Frame::ControlMessage(frame) => Some(TransportBody::ControlMessage(frame.message_type)),
        };
        *reader = slice_subrange(data, aligned as usize, data.len());
        match body {
            Some(body) => Ok(
                Some(
                    TransportMessage {
                        version: header.version,
                        flags: header.flags,
                        stream_id: header.stream_id,
                        body,
                    },
                ),
            ),
            None => Ok(None),
        }
    }

    /// An encoded frame, whatever follows it, reads back as the message
    /// that was written, and reading stops at the end of the frame.
    pub proof fn lemma_frame_round_trip(&self, rest: Seq<u8>)
        requires
            self.fits(),
        ensures
            self.bytes().len() % 8 == 0,
            parse_transport(self.bytes() + rest) == Ok::<(Option<TransportModel>, nat), Error>(
                (Some(self.model()), self.bytes().len()),
            ),
    {
        let payload = self.body.payload();
        lemma_frame_is_aligned_and_zero_padded(
            self.version,
            self.flags,
            DataFrameType::Message,
            self.stream_id,
            payload,
        );
        lemma_frame_header_measures_frame(
            self.version,
            self.flags,
            DataFrameType::Message,
            self.stream_id,
            payload,
            rest,
        );
        lemma_le_bytes_len(0, 2);
        lemma_le_bytes_len(1, 2);
        lemma_le_bytes_len(2, 2);
        match self.body {
            TransportBody::RequestResponse { request_id, message } => {
                lemma_le_bytes_len(request_id as nat, 8);
                lemma_decode_request_response(
                    self.version,
                    self.flags,
                    self.stream_id,
                    request_id,
                    message.bytes(),
                    rest,
                );
                message.lemma_round_trip(Seq::empty());
                assert(message.bytes() + Seq::<u8>::empty() =~= message.bytes());
            },
            TransportBody::SingleRequest(message) => {
                lemma_decode_full_duplex_single_message(
                    self.version,
                    self.flags,
                    self.stream_id,
                    message.bytes(),
                    rest,
                );
                message.lemma_round_trip(Seq::empty());
                assert(message.bytes() + Seq::<u8>::empty() =~= message.bytes());
            },
            TransportBody::ControlMessage(message_type) => {
                lemma_le_bytes_len(0, 4);
                lemma_decode_control_message(
                    self.version,
                    self.flags,
                    self.stream_id,
                    message_type,
                    rest,
                );
            },
        }
    }
}

impl ToBytes for TransportMessage {
    open spec fn bytes(&self) -> Seq<u8> {
        frame_bytes(
            self.version,
            self.flags,
            DataFrameType::Message,
            self.stream_id,
            self.body.payload(),
        )
    }

    open spec fn fits(&self) -> bool {
        self.body.message_fits() && self.body.payload().len() <= MAX_FRAME_LENGTH
    }

    fn to_bytes(&self, writer: &mut Vec<u8>) -> (r: Result<(), Error>) {
        let mut message: Vec<u8> = Vec::new();
        proof {
            lemma_le_bytes_len(0, 2);
            lemma_le_bytes_len(1, 2);
            lemma_le_bytes_len(2, 2);
            lemma_le_bytes_len(0, 4);
        }
        let encoded = match &self.body {
            TransportBody::RequestResponse { request_id, message: body } => {
                proof {
                    lemma_le_bytes_len(*request_id as nat, 8);
                }
                match body.to_bytes(&mut message) {
                    Ok(()) => {},
                    Err(error) => {
                        return Err(error);
                    },
                }
                proof {
                    assert(message@ =~= body.bytes());
                }
                request_response(
                    self.version,
                    self.flags,
                    self.stream_id,
                    *request_id,
                    message.as_slice(),
                )
            },
            TransportBody::SingleRequest(body) => {
                match body.to_bytes(&mut message) {
                    Ok(()) => {},
                    Err(error) => {
                        return Err(error);
                    },
                }
                proof {
                    assert(message@ =~= body.bytes());
                }
                full_duplex_single_message(
                    self.version,
                    self.flags,
                    self.stream_id,
                    message.as_slice(),
                )
            },
            TransportBody::ControlMessage(message_type) => control_message(
                self.version,
                self.flags,
                self.stream_id,
                message_type,
            ),
        };
        match encoded {
            Ok(mut frame) => {
                writer.append(&mut frame);
                Ok(())
            },
            Err(error) => Err(error),
        }
    }
}

} // verus!
