//! The data-frame layer and the transport headers inside it.
//!
//! A frame is a 12-byte header, `length` bytes of payload and zero bytes up
//! to the next multiple of eight. A message frame's payload starts with a
//! transport header that says what follows: a request or response with its
//! request id, a single message, or a control message.

use crate::error::EnumKind;
use crate::error::Error;
use crate::error::Failure;
use crate::error::SbeError;
use crate::wire::copy_into;
use crate::wire::get_u16;
use crate::wire::get_u32;
use crate::wire::get_u64;
use crate::wire::le_bytes;
use crate::wire::le_nat;
use crate::wire::lemma_le_bytes_len;
use crate::wire::lemma_le_nat_of_le_bytes;
use crate::wire::lemma_pow256_values;
use crate::wire::u16_bytes;
use crate::wire::u32_bytes;
use crate::wire::u64_bytes;
use crate::wire::zeros;
use vstd::prelude::*;
use vstd::slice::slice_subrange;
use vstd::string::StringExecFns;

verus! {

/// Every frame starts at a multiple of this many bytes.
pub const DATA_FRAME_ALIGNMENT: u64 = 8;

/// The size of the data-frame header.
pub const DATA_FRAME_HEADER_LENGTH: usize = 12;

/// The size of the transport header.
pub const TRANSPORT_HEADER_LENGTH: usize = 2;

/// The size of the request-response header.
pub const REQUEST_RESPONSE_HEADER_LENGTH: usize = 8;

/// The size of a control message's body.
pub const CONTROL_MESSAGE_LENGTH: usize = 4;

/// The longest payload whose frame, header and padding included, can still
/// be measured by a `u32`.
pub const MAX_FRAME_LENGTH: u32 = 0xffff_ffec;

/// Flag: the frame begins a batch.
pub const FLAG_BATCH_BEGIN: u8 = 0x80;

/// Flag: the frame ends a batch.
pub const FLAG_BATCH_END: u8 = 0x40;

/// Flag: the sender failed to produce the frame's message.
pub const FLAG_FAILED: u8 = 0x20;

/// The least multiple of `alignment` that is not below `n`.
pub open spec fn align_up(n: nat, alignment: nat) -> nat {
    if alignment == 0 || n % alignment == 0 {
        n
    } else {
        (n + alignment - n % alignment) as nat
    }
}

/// Rounds `value` up to the next multiple of `alignment`.
pub fn align(value: u64, alignment: u64) -> (aligned: u64)
    requires
        alignment > 0,
        value + alignment - 1 <= u64::MAX,
    ensures
        aligned == align_up(value as nat, alignment as nat),
        aligned % alignment == 0,
        value <= aligned < value + alignment,
{
    let rest: u64 = value % alignment;
    if rest == 0 {
        value
    } else {
        let aligned: u64 = value + (alignment - rest);
        proof {
            lemma_aligned(value as int, alignment as int);
        }
        aligned
    }
}

proof fn lemma_aligned(value: int, alignment: int)
    by (nonlinear_arith)
    requires
        alignment > 0,
        value >= 0,
    ensures
        (value + (alignment - value % alignment)) % alignment == 0,
{
    let q = value / alignment;
    assert(value == q * alignment + value % alignment);
    assert(value + (alignment - value % alignment) == (q + 1) * alignment);
}

/// Whether a frame carries a message or only fills space.
#[derive(Debug, PartialEq, Eq, Clone, Copy, Structural)]
pub enum DataFrameType {
    Message,
    Padding,
}

impl DataFrameType {
    pub open spec fn code(&self) -> nat {
        match *self {
            DataFrameType::Message => 0,
            DataFrameType::Padding => 1,
        }
    }

    pub open spec fn of_code(code: nat) -> Option<DataFrameType> {
        if code == 0 {
            Some(DataFrameType::Message)
        } else if code == 1 {
            Some(DataFrameType::Padding)
        } else {
            None
        }
    }
}

/// The header of a data frame.
#[derive(Debug, PartialEq, Eq, Clone, Copy, Structural)]
pub struct DataFrameHeader {
    /// The number of payload bytes after the header, padding not counted.
    pub length: u32,
    pub version: u8,
    pub flags: u8,
    pub frame_type: DataFrameType,
    pub stream_id: u32,
}

impl DataFrameHeader {
    /// The size of the whole frame: header, payload and padding.
    pub open spec fn spec_aligned_length(&self) -> nat {
        align_up(self.length as nat + 12, 8)
    }

    /// The number of zero bytes after the payload.
    pub open spec fn spec_padding(&self) -> nat {
        (self.spec_aligned_length() - self.length - 12) as nat
    }

    /// The twelve bytes of the header on the wire.
    pub open spec fn bytes(&self) -> Seq<u8> {
        le_bytes(self.length as nat, 4) + seq![self.version, self.flags] + le_bytes(
            self.frame_type.code(),
            2,
        ) + le_bytes(self.stream_id as nat, 4)
    }

    /// The header that the first twelve bytes of `s` spell.
    pub open spec fn parse(s: Seq<u8>) -> Result<DataFrameHeader, Error> {
        if s.len() < 12 {
            Err(Error::not_enough_bytes())
        } else {
            match DataFrameType::of_code(le_nat(s.subrange(6, 8))) {
                Some(frame_type) => Ok(
                    DataFrameHeader {
                        length: le_nat(s.subrange(0, 4)) as u32,
                        version: s[4],
                        flags: s[5],
                        frame_type,
                        stream_id: le_nat(s.subrange(8, 12)) as u32,
                    },
                ),
                None => Err(
                    Error::UnknownEnum(EnumKind::DataFrameType, le_nat(s.subrange(6, 8)) as u64),
                ),
            }
        }
    }

    pub fn length(&self) -> (n: usize)
        ensures
            n == self.length,
    {
        self.length as usize
    }

    pub fn aligned_length(&self) -> (n: u64)
        ensures
            n == self.spec_aligned_length(),
            n % 8 == 0,
            self.length + 12 <= n < self.length + 20,
    {
        align(self.length as u64 + 12, DATA_FRAME_ALIGNMENT)
    }

    pub fn padding(&self) -> (n: u64)
        ensures
            n == self.spec_padding(),
            n < 8,
    {
        self.aligned_length() - self.length as u64 - 12
    }
}

/// What follows the transport header.
#[derive(Debug, PartialEq, Eq, Clone, Copy, Structural)]
pub enum TransportProtocol {
    RequestResponse,
    FullDuplexSingleMessage,
    ControlMessage,
}

impl TransportProtocol {
    pub open spec fn code(&self) -> nat {
        match *self {
            TransportProtocol::RequestResponse => 0,
            TransportProtocol::FullDuplexSingleMessage => 1,
            TransportProtocol::ControlMessage => 2,
        }
    }

    pub open spec fn of_code(code: nat) -> Option<TransportProtocol> {
        if code == 0 {
            Some(TransportProtocol::RequestResponse)
        } else if code == 1 {
            Some(TransportProtocol::FullDuplexSingleMessage)
        } else if code == 2 {
            Some(TransportProtocol::ControlMessage)
        } else {
            None
        }
    }
}

/// The first two bytes of a message frame's payload.
#[derive(Debug, PartialEq, Eq, Clone, Copy, Structural)]
pub struct TransportHeader {
    pub protocol: TransportProtocol,
}

impl TransportHeader {
    pub open spec fn bytes(&self) -> Seq<u8> {
        le_bytes(self.protocol.code(), 2)
    }

    pub open spec fn parse(s: Seq<u8>) -> Result<TransportHeader, Error> {
        if s.len() < 2 {
            Err(Error::not_enough_bytes())
        } else {
            match TransportProtocol::of_code(le_nat(s.subrange(0, 2))) {
                Some(protocol) => Ok(TransportHeader { protocol }),
                None => Err(
                    Error::UnknownEnum(
                        EnumKind::TransportProtocol,
                        le_nat(s.subrange(0, 2)) as u64,
                    ),
                ),
            }
        }
    }
}

/// The body of a control message.
#[derive(Debug, PartialEq, Eq, Clone, Copy, Structural)]
pub enum ControlMessageType {
    KeepAlive,
}

impl ControlMessageType {
    pub open spec fn code(&self) -> nat {
        0
    }

    pub open spec fn bytes(&self) -> Seq<u8> {
        le_bytes(self.code(), 4)
    }

    pub open spec fn parse(s: Seq<u8>) -> Result<ControlMessageType, Error> {
        if s.len() < 4 {
            Err(Error::not_enough_bytes())
        } else if le_nat(s.subrange(0, 4)) == 0 {
            Ok(ControlMessageType::KeepAlive)
        } else {
            Err(Error::UnknownEnum(EnumKind::ControlFrameBody, le_nat(s.subrange(0, 4)) as u64))
        }
    }
}

/// The header that ties a response to its request.
#[derive(Debug, PartialEq, Eq, Clone, Copy, Structural)]
pub struct RequestResponseHeader {
    pub request_id: u64,
}

impl RequestResponseHeader {
    pub open spec fn bytes(&self) -> Seq<u8> {
        le_bytes(self.request_id as nat, 8)
    }

    pub open spec fn parse(s: Seq<u8>) -> Result<RequestResponseHeader, Error> {
        if s.len() < 8 {
            Err(Error::not_enough_bytes())
        } else {
            Ok(RequestResponseHeader { request_id: le_nat(s.subrange(0, 8)) as u64 })
        }
    }
}

/// A request or a response: the message and the headers in front of it.
#[derive(Debug)]
pub struct RequestResponseFrame<'f> {
    pub data_frame_header: DataFrameHeader,
    pub transport_header: TransportHeader,
    pub request_response_header: RequestResponseHeader,
    pub message: &'f [u8],
}

/// A message that stands alone: an event pushed by the broker, for one.
#[derive(Debug)]
pub struct FullDuplexSingleMessageFrame<'f> {
    pub data_frame_header: DataFrameHeader,
    pub transport_header: TransportHeader,
    pub message: &'f [u8],
}

/// A control message.
#[derive(Debug)]
pub struct ControlMessageFrame {
    pub data_frame_header: DataFrameHeader,
    pub transport_header: TransportHeader,
    pub message_type: ControlMessageType,
}

/// A frame that only fills space.
#[derive(Debug)]
pub struct PaddingFrame {
    pub data_frame_header: DataFrameHeader,
}

/// A decoded frame.
#[derive(Debug)]
pub enum Frame<'f> {
    RequestResponse(RequestResponseFrame<'f>),
    FullDuplexSingleMessage(FullDuplexSingleMessageFrame<'f>),
    ControlMessage(ControlMessageFrame),
    Padding(PaddingFrame),
}

/// What a frame says, with the message as a sequence of bytes.
pub enum FrameView {
    RequestResponse {
        data_frame_header: DataFrameHeader,
        transport_header: TransportHeader,
        request_response_header: RequestResponseHeader,
        message: Seq<u8>,
    },
    FullDuplexSingleMessage {
        data_frame_header: DataFrameHeader,
        transport_header: TransportHeader,
        message: Seq<u8>,
    },
    ControlMessage {
        data_frame_header: DataFrameHeader,
        transport_header: TransportHeader,
        message_type: ControlMessageType,
    },
    Padding { data_frame_header: DataFrameHeader },
}

impl FrameView {
    pub open spec fn data_frame_header(&self) -> DataFrameHeader {
        match *self {
            FrameView::RequestResponse { data_frame_header, .. } => data_frame_header,
            FrameView::FullDuplexSingleMessage { data_frame_header, .. } => data_frame_header,
            FrameView::ControlMessage { data_frame_header, .. } => data_frame_header,
            FrameView::Padding { data_frame_header } => data_frame_header,
        }
    }
}

impl<'f> View for Frame<'f> {
    type V = FrameView;

    open spec fn view(&self) -> FrameView {
        match *self {
            Frame::RequestResponse(frame) => FrameView::RequestResponse {
                data_frame_header: frame.data_frame_header,
                transport_header: frame.transport_header,
                request_response_header: frame.request_response_header,
                message: frame.message@,
            },
            Frame::FullDuplexSingleMessage(frame) => FrameView::FullDuplexSingleMessage {
                data_frame_header: frame.data_frame_header,
                transport_header: frame.transport_header,
                message: frame.message@,
            },
            Frame::ControlMessage(frame) => FrameView::ControlMessage {
                data_frame_header: frame.data_frame_header,
                transport_header: frame.transport_header,
                message_type: frame.message_type,
            },
            Frame::Padding(frame) => FrameView::Padding {
                data_frame_header: frame.data_frame_header,
            },
        }
    }
}

/// What the payload of a message frame says, given the frame's header.
pub open spec fn parse_payload(header: DataFrameHeader, payload: Seq<u8>) -> Result<
    FrameView,
    Error,
> {
    match TransportHeader::parse(payload) {
        Err(error) => Err(error),
        Ok(transport_header) => match transport_header.protocol {
            TransportProtocol::RequestResponse => match RequestResponseHeader::parse(
                payload.skip(2),
            ) {
                Err(error) => Err(error),
                Ok(request_response_header) => Ok(
                    FrameView::RequestResponse {
                        data_frame_header: header,
                        transport_header,
                        request_response_header,
                        message: payload.skip(10),
                    },
                ),
            },
            TransportProtocol::FullDuplexSingleMessage => Ok(
                FrameView::FullDuplexSingleMessage {
                    data_frame_header: header,
                    transport_header,
                    message: payload.skip(2),
                },
            ),
            TransportProtocol::ControlMessage => match ControlMessageType::parse(payload.skip(2)) {
                Err(error) => Err(error),
                Ok(message_type) => Ok(
                    FrameView::ControlMessage {
                        data_frame_header: header,
                        transport_header,
                        message_type,
                    },
                ),
            },
        },
    }
}

/// What the frame at the start of `data` says.
///
/// A padding frame is its header alone. Of a message frame the whole
/// payload must be there; the padding after it is not looked at.
pub open spec fn parse_frame(data: Seq<u8>) -> Result<FrameView, Error> {
    match DataFrameHeader::parse(data) {
        Err(error) => Err(error),
        Ok(header) => match header.frame_type {
            DataFrameType::Padding => Ok(FrameView::Padding { data_frame_header: header }),
            DataFrameType::Message => if data.len() < 12 + header.length {
                Err(Error::not_enough_bytes())
            } else {
                parse_payload(header, data.subrange(12, 12 + header.length))
            },
        },
    }
}

impl<'f> Frame<'f> {
    /// Decodes the frame at the start of `data`.
    pub fn decode(data: &'f [u8]) -> (r: Result<Frame<'f>, Error>)
        ensures
            match r {
                Ok(frame) => parse_frame(data@) == Ok::<FrameView, Error>(frame@),
                Err(error) => parse_frame(data@) == Err::<FrameView, Error>(error),
            },
    {
        let mut decoder = Decoder::new(data);
        assert(decoder.rest() =~= data@);
        let data_frame_header = match decoder.read_data_frame_header() {
            Ok(header) => header,
            Err(error) => {
                return Err(error);
            },
        };
        match data_frame_header.frame_type {
            DataFrameType::Padding => Ok(Frame::Padding(PaddingFrame { data_frame_header })),
            DataFrameType::Message => {
                let length = data_frame_header.length();
                if length > data.len() - DATA_FRAME_HEADER_LENGTH {
                    return Err(Error::SbeError(SbeError::NotEnoughBytes));
                }
                // truncate to message length
                match decoder.truncate(DATA_FRAME_HEADER_LENGTH + length) {
                    Ok(()) => {},
                    Err(error) => {
                        return Err(error);
                    },
                }
                let ghost payload = data@.subrange(12, 12 + length);
                assert(decoder.bytes().skip(12) =~= payload);
                let transport_header = match decoder.read_transport_header() {
                    Ok(header) => header,
                    Err(error) => {
                        return Err(error);
                    },
                };
                assert(decoder.bytes().skip(14) =~= payload.skip(2));
                match transport_header.protocol {
                    TransportProtocol::RequestResponse => {
                        let request_response_header =
                            match decoder.read_request_response_header() {
                            Ok(header) => header,
                            Err(error) => {
                                return Err(error);
                            },
                        };
                        assert(decoder.bytes().skip(22) =~= payload.skip(10));
                        let message = decoder.remaining();
                        Ok(
                            Frame::RequestResponse(
                                RequestResponseFrame {
                                    data_frame_header,
                                    transport_header,
                                    request_response_header,
                                    message,
                                },
                            ),
                        )
                    },
                    TransportProtocol::FullDuplexSingleMessage => {
                        let message = decoder.remaining();
                        Ok(
                            Frame::FullDuplexSingleMessage(
                                FullDuplexSingleMessageFrame {
                                    data_frame_header,
                                    transport_header,
                                    message,
                                },
                            ),
                        )
                    },
                    TransportProtocol::ControlMessage => {
                        let message_type = match decoder.read_control_message_type() {
                            Ok(message_type) => message_type,
                            Err(error) => {
                                return Err(error);
                            },
                        };
                        Ok(
                            Frame::ControlMessage(
                                ControlMessageFrame {
                                    data_frame_header,
                                    transport_header,
                                    message_type,
                                },
                            ),
                        )
                    },
                }
            },
        }
    }

    /// The header of the frame, whatever its kind.
    pub fn data_frame_header(&self) -> (header: DataFrameHeader)
        ensures
            header == self@.data_frame_header(),
    {
        match self {
            Frame::RequestResponse(frame) => frame.data_frame_header,
            Frame::FullDuplexSingleMessage(frame) => frame.data_frame_header,
            Frame::ControlMessage(frame) => frame.data_frame_header,
            Frame::Padding(frame) => frame.data_frame_header,
        }
    }

    /// The number of bytes that the frame takes on the wire: the next frame
    /// starts that many bytes after the start of this one.
    pub fn aligned_length(&self) -> (n: u64)
        ensures
            n == self@.data_frame_header().spec_aligned_length(),
    {
        self.data_frame_header().aligned_length()
    }
}

/// What `data` says if it is read as a request or a response: the request
/// id and the message.
pub open spec fn parse_request_response(data: Seq<u8>) -> Result<(u64, Seq<u8>), Failure> {
    match parse_frame(data) {
        Err(error) => Err(Failure::Exact(error)),
        Ok(frame) => match frame {
            FrameView::RequestResponse { request_response_header, message, .. } => Ok(
                (request_response_header.request_id, message),
            ),
            _ => Err(Failure::Malformed),
        },
    }
}

/// Decodes the frame at the start of `data`, which must be a request or a
/// response.
///
/// Fails with `DecodeError` when the frame is of another kind, and as
/// `Frame::decode` does otherwise.
pub fn decode_request_response<'f>(data: &'f [u8]) -> (r: Result<RequestResponseFrame<'f>, Error>)
    ensures
        match r {
            Ok(frame) => {
                &&& parse_frame(data@) == Ok::<FrameView, Error>(Frame::RequestResponse(frame)@)
                &&& parse_request_response(data@) == Ok::<(u64, Seq<u8>), Failure>(
                    (frame.request_response_header.request_id, frame.message@),
                )
            },
            Err(error) => parse_request_response(data@) matches Err(failure)
                && failure.reported_by(error),
        },
{
    match Frame::decode(data) {
        Ok(Frame::RequestResponse(frame)) => Ok(frame),
        Ok(_) => Err(Error::DecodeError(String::from_str("expected a request response frame"))),
        Err(error) => Err(error),
    }
}

/// The bytes of a frame with the given header fields and payload.
pub open spec fn frame_bytes(
    version: u8,
    flags: u8,
    frame_type: DataFrameType,
    stream_id: u32,
    payload: Seq<u8>,
) -> Seq<u8> {
    let header = DataFrameHeader {
        length: payload.len() as u32,
        version,
        flags,
        frame_type,
        stream_id,
    };
    header.bytes() + payload + zeros(header.spec_padding())
}

/// The payload of a request-response frame.
pub open spec fn request_response_payload(request_id: u64, message: Seq<u8>) -> Seq<u8> {
    TransportHeader { protocol: TransportProtocol::RequestResponse }.bytes()
        + RequestResponseHeader { request_id }.bytes() + message
}

/// The payload of a single-message frame.
pub open spec fn full_duplex_single_message_payload(message: Seq<u8>) -> Seq<u8> {
    TransportHeader { protocol: TransportProtocol::FullDuplexSingleMessage }.bytes() + message
}

/// The payload of a control-message frame.
pub open spec fn control_message_payload(message_type: ControlMessageType) -> Seq<u8> {
    TransportHeader { protocol: TransportProtocol::ControlMessage }.bytes() + message_type.bytes()
}

/// Allocates the zeroed buffer of a frame and writes its header. This
/// cannot fail.
fn start_frame(
    version: u8,
    flags: u8,
    frame_type: DataFrameType,
    stream_id: u32,
    length: u32,
) -> (r: Result<Encoder, Error>)
    requires
        length <= MAX_FRAME_LENGTH,
    ensures
        r is Ok,
        r->Ok_0.position() == 12,
        r->Ok_0.bytes().len() == 12 + length + (DataFrameHeader {
            length,
            version,
            flags,
            frame_type,
            stream_id,
        }).spec_padding(),
        r->Ok_0.bytes() == (DataFrameHeader {
            length,
            version,
            flags,
            frame_type,
            stream_id,
        }).bytes() + zeros(
            ((DataFrameHeader { length, version, flags, frame_type, stream_id }).spec_padding()
                + length) as nat,
        ),
{
    let data_frame_header = DataFrameHeader { length, version, flags, frame_type, stream_id };
    let size = data_frame_header.aligned_length() as usize;
    let buffer = vec![0u8; size];
    let mut encoder = Encoder::new(buffer);
    proof {
        lemma_header_bytes_len(data_frame_header);
    }
    match encoder.write_data_frame_header(&data_frame_header) {
        Ok(()) => {},
        Err(error) => {
            return Err(error);
        },
    }
    assert(encoder.bytes() =~= data_frame_header.bytes() + zeros(
        (data_frame_header.spec_padding() + length) as nat,
    ));
    Ok(encoder)
}

/// Encodes a request or a response.
///
/// Fails with `SliceIsLongerThanAllowedBySchema` when the payload would be
/// longer than `MAX_FRAME_LENGTH`, and on no other input.
pub fn request_response(
    version: u8,
    flags: u8,
    stream_id: u32,
    request_id: u64,
    message: &[u8],
) -> (r: Result<Vec<u8>, Error>)
    ensures
        match r {
            Ok(buffer) => {
                &&& message@.len() + 10 <= MAX_FRAME_LENGTH
                &&& buffer@ == frame_bytes(
                    version,
                    flags,
                    DataFrameType::Message,
                    stream_id,
                    request_response_payload(request_id, message@),
                )
            },
            Err(error) => {
                &&& message@.len() + 10 > MAX_FRAME_LENGTH
                &&& error == Error::slice_too_long()
            },
        },
{
    if message.len() > (MAX_FRAME_LENGTH as usize) - TRANSPORT_HEADER_LENGTH
        - REQUEST_RESPONSE_HEADER_LENGTH {
        return Err(Error::SbeError(SbeError::SliceIsLongerThanAllowedBySchema));
    }
    let length = (TRANSPORT_HEADER_LENGTH + REQUEST_RESPONSE_HEADER_LENGTH + message.len()) as u32;
    let transport_header = TransportHeader { protocol: TransportProtocol::RequestResponse };
    let request_response_header = RequestResponseHeader { request_id };

    let mut encoder = match start_frame(
        version,
        flags,
        DataFrameType::Message,
        stream_id,
        length,
    ) {
        Ok(encoder) => encoder,
        Err(error) => {
            return Err(error);
        },
    };
    proof {
        lemma_le_bytes_len(transport_header.protocol.code(), 2);
        lemma_le_bytes_len(request_id as nat, 8);
    }
    match encoder.write_transport_header(&transport_header) {
        Ok(()) => {},
        Err(error) => {
            return Err(error);
        },
    }
    match encoder.write_request_response_header(&request_response_header) {
        Ok(()) => {},
        Err(error) => {
            return Err(error);
        },
    }
    match encoder.write(message) {
        Ok(()) => {},
        Err(error) => {
            return Err(error);
        },
    }
    let buffer = encoder.finish();
    assert(buffer@ =~= frame_bytes(
        version,
        flags,
        DataFrameType::Message,
        stream_id,
        request_response_payload(request_id, message@),
    ));
    Ok(buffer)
}

/// Encodes a message that stands alone.
///
/// Fails with `SliceIsLongerThanAllowedBySchema` when the payload would be
/// longer than `MAX_FRAME_LENGTH`, and on no other input.
pub fn full_duplex_single_message(version: u8, flags: u8, stream_id: u32, message: &[u8]) -> (r:
    Result<Vec<u8>, Error>)
    ensures
        match r {
            Ok(buffer) => {
                &&& message@.len() + 2 <= MAX_FRAME_LENGTH
                &&& buffer@ == frame_bytes(
                    version,
                    flags,
                    DataFrameType::Message,
                    stream_id,
                    full_duplex_single_message_payload(message@),
                )
            },
            Err(error) => {
                &&& message@.len() + 2 > MAX_FRAME_LENGTH
                &&& error == Error::slice_too_long()
            },
        },
{
    if message.len() > (MAX_FRAME_LENGTH as usize) - TRANSPORT_HEADER_LENGTH {
        return Err(Error::SbeError(SbeError::SliceIsLongerThanAllowedBySchema));
    }
    let length = (TRANSPORT_HEADER_LENGTH + message.len()) as u32;
    let transport_header = TransportHeader {
        protocol: TransportProtocol::FullDuplexSingleMessage,
    };

    let mut encoder = match start_frame(
        version,
        flags,
        DataFrameType::Message,
        stream_id,
        length,
    ) {
        Ok(encoder) => encoder,
        Err(error) => {
            return Err(error);
        },
    };
    proof {
        lemma_le_bytes_len(transport_header.protocol.code(), 2);
    }
    match encoder.write_transport_header(&transport_header) {
        Ok(()) => {},
        Err(error) => {
            return Err(error);
        },
    }
    match encoder.write(message) {
        Ok(()) => {},
        Err(error) => {
            return Err(error);
        },
    }
    let buffer = encoder.finish();
    assert(buffer@ =~= frame_bytes(
        version,
        flags,
        DataFrameType::Message,
        stream_id,
        full_duplex_single_message_payload(message@),
    ));
    Ok(buffer)
}

/// Encodes a control message. This cannot fail.
pub fn control_message(
    version: u8,
    flags: u8,
    stream_id: u32,
    message_type: &ControlMessageType,
) -> (r: Result<Vec<u8>, Error>)
    ensures
        r is Ok,
        r->Ok_0@ == frame_bytes(
            version,
            flags,
            DataFrameType::Message,
            stream_id,
            control_message_payload(*message_type),
        ),
{
    let length = (TRANSPORT_HEADER_LENGTH + CONTROL_MESSAGE_LENGTH) as u32;
    let transport_header = TransportHeader { protocol: TransportProtocol::ControlMessage };

    let mut encoder = match start_frame(
        version,
        flags,
        DataFrameType::Message,
        stream_id,
        length,
    ) {
        Ok(encoder) => encoder,
        Err(error) => {
            return Err(error);
        },
    };
    proof {
        lemma_le_bytes_len(transport_header.protocol.code(), 2);
        lemma_le_bytes_len(message_type.code(), 4);
    }
    match encoder.write_transport_header(&transport_header) {
        Ok(()) => {},
        Err(error) => {
            return Err(error);
        },
    }
    match encoder.write_control_message_type(message_type) {
        Ok(()) => {},
        Err(error) => {
            return Err(error);
        },
    }
    let buffer = encoder.finish();
    assert(buffer@ =~= frame_bytes(
        version,
        flags,
        DataFrameType::Message,
        stream_id,
        control_message_payload(*message_type),
    ));
    Ok(buffer)
}

/// Encodes a padding frame with a body of `length` zero bytes.
///
/// Fails with `SliceIsLongerThanAllowedBySchema` when `length` is more than
/// `MAX_FRAME_LENGTH`, and on no other input.
pub fn padding(version: u8, flags: u8, stream_id: u32, length: u32) -> (r: Result<Vec<u8>, Error>)
    ensures
        match r {
            Ok(buffer) => {
                &&& length <= MAX_FRAME_LENGTH
                &&& buffer@ == frame_bytes(
                    version,
                    flags,
                    DataFrameType::Padding,
                    stream_id,
                    zeros(length as nat),
                )
            },
            Err(error) => {
                &&& length > MAX_FRAME_LENGTH
                &&& error == Error::slice_too_long()
            },
        },
{
    if length > MAX_FRAME_LENGTH {
        return Err(Error::SbeError(SbeError::SliceIsLongerThanAllowedBySchema));
    }
    let encoder = match start_frame(version, flags, DataFrameType::Padding, stream_id, length) {
        Ok(encoder) => encoder,
        Err(error) => {
            return Err(error);
        },
    };
    let buffer = encoder.finish();
    assert(buffer@ =~= frame_bytes(
        version,
        flags,
        DataFrameType::Padding,
        stream_id,
        zeros(length as nat),
    ));
    Ok(buffer)
}

proof fn lemma_header_bytes_len(header: DataFrameHeader)
    ensures
        header.bytes().len() == 12,
{
    lemma_le_bytes_len(header.length as nat, 4);
    lemma_le_bytes_len(header.frame_type.code(), 2);
    lemma_le_bytes_len(header.stream_id as nat, 4);
}

/// A cursor over received bytes.
#[derive(Debug)]
pub struct Decoder<'d> {
    data: &'d [u8],
    position: usize,
}

impl<'d> Decoder<'d> {
    #[verifier::type_invariant]
    spec fn well_formed(&self) -> bool {
        self.position <= self.data@.len()
    }

    /// The bytes that the decoder can see.
    pub closed spec fn bytes(&self) -> Seq<u8> {
        self.data@
    }

    /// The number of bytes read so far.
    pub closed spec fn position(&self) -> nat {
        self.position as nat
    }

    /// The bytes not read yet.
    pub open spec fn rest(&self) -> Seq<u8> {
        self.bytes().skip(self.position() as int)
    }

    pub fn new(data: &'d [u8]) -> (decoder: Self)
        ensures
            decoder.bytes() == data@,
            decoder.position() == 0,
    {
        Decoder { data, position: 0 }
    }

    /// Reads a data-frame header, or leaves the decoder as it is.
    pub fn read_data_frame_header(&mut self) -> (r: Result<DataFrameHeader, Error>)
        ensures
            final(self).bytes() == old(self).bytes(),
            match r {
                Ok(header) => {
                    &&& DataFrameHeader::parse(old(self).rest()) == Ok::<DataFrameHeader, Error>(
                        header,
                    )
                    &&& final(self).position() == old(self).position() + 12
                },
                Err(error) => {
                    &&& DataFrameHeader::parse(old(self).rest()) == Err::<DataFrameHeader, Error>(
                        error,
                    )
                    &&& final(self).position() == old(self).position()
                },
            },
    {
        proof {
            use_type_invariant(&*self);
        }
        let position = self.position;
        if self.data.len() - position < DATA_FRAME_HEADER_LENGTH {
            return Err(Error::SbeError(SbeError::NotEnoughBytes));
        }
        let ghost rest = self.rest();
        let length = get_u32(self.data, position);
        let version = self.data[position + 4];
        let flags = self.data[position + 5];
        let code = get_u16(self.data, position + 6);
        let stream_id = get_u32(self.data, position + 8);
        proof {
            assert(rest.subrange(0, 4) =~= self.data@.subrange(position as int, position + 4));
            assert(rest.subrange(6, 8) =~= self.data@.subrange(position + 6, position + 8));
            assert(rest.subrange(8, 12) =~= self.data@.subrange(position + 8, position + 12));
        }
        let frame_type = if code == 0 {
            DataFrameType::Message
        } else if code == 1 {
            DataFrameType::Padding
        } else {
            return Err(Error::UnknownEnum(EnumKind::DataFrameType, code as u64));
        };
        self.position = position + DATA_FRAME_HEADER_LENGTH;
        Ok(DataFrameHeader { length, version, flags, frame_type, stream_id })
    }

    /// Reads a transport header, or leaves the decoder as it is.
    pub fn read_transport_header(&mut self) -> (r: Result<TransportHeader, Error>)
        ensures
            final(self).bytes() == old(self).bytes(),
            match r {
                Ok(header) => {
                    &&& TransportHeader::parse(old(self).rest()) == Ok::<TransportHeader, Error>(
                        header,
                    )
                    &&& final(self).position() == old(self).position() + 2
                },
                Err(error) => {
                    &&& TransportHeader::parse(old(self).rest()) == Err::<TransportHeader, Error>(
                        error,
                    )
                    &&& final(self).position() == old(self).position()
                },
            },
    {
        proof {
            use_type_invariant(&*self);
        }
        let position = self.position;
        if self.data.len() - position < TRANSPORT_HEADER_LENGTH {
            return Err(Error::SbeError(SbeError::NotEnoughBytes));
        }
        let ghost rest = self.rest();
        let code = get_u16(self.data, position);
        proof {
            assert(rest.subrange(0, 2) =~= self.data@.subrange(position as int, position + 2));
        }
        let protocol = if code == 0 {
            TransportProtocol::RequestResponse
        } else if code == 1 {
            TransportProtocol::FullDuplexSingleMessage
        } else if code == 2 {
            TransportProtocol::ControlMessage
        } else {
            return Err(Error::UnknownEnum(EnumKind::TransportProtocol, code as u64));
        };
        self.position = position + TRANSPORT_HEADER_LENGTH;
        Ok(TransportHeader { protocol })
    }

    /// Reads a request-response header, or leaves the decoder as it is.
    pub fn read_request_response_header(&mut self) -> (r: Result<RequestResponseHeader, Error>)
        ensures
            final(self).bytes() == old(self).bytes(),
            match r {
                Ok(header) => {
                    &&& RequestResponseHeader::parse(old(self).rest()) == Ok::<
                        RequestResponseHeader,
                        Error,
                    >(header)
                    &&& final(self).position() == old(self).position() + 8
                },
                Err(error) => {
                    &&& RequestResponseHeader::parse(old(self).rest()) == Err::<
                        RequestResponseHeader,
                        Error,
                    >(error)
                    &&& final(self).position() == old(self).position()
                },
            },
    {
        proof {
            use_type_invariant(&*self);
        }
        let position = self.position;
        if self.data.len() - position < REQUEST_RESPONSE_HEADER_LENGTH {
            return Err(Error::SbeError(SbeError::NotEnoughBytes));
        }
        let ghost rest = self.rest();
        let request_id = get_u64(self.data, position);
        proof {
            assert(rest.subrange(0, 8) =~= self.data@.subrange(position as int, position + 8));
        }
        self.position = position + REQUEST_RESPONSE_HEADER_LENGTH;
        Ok(RequestResponseHeader { request_id })
    }

    /// Reads the body of a control message, or leaves the decoder as it is.
    pub fn read_control_message_type(&mut self) -> (r: Result<ControlMessageType, Error>)
        ensures
            final(self).bytes() == old(self).bytes(),
            match r {
                Ok(message_type) => {
                    &&& ControlMessageType::parse(old(self).rest()) == Ok::<
                        ControlMessageType,
                        Error,
                    >(message_type)
                    &&& final(self).position() == old(self).position() + 4
                },
                Err(error) => {
                    &&& ControlMessageType::parse(old(self).rest()) == Err::<
                        ControlMessageType,
                        Error,
                    >(error)
                    &&& final(self).position() == old(self).position()
                },
            },
    {
        proof {
            use_type_invariant(&*self);
        }
        let position = self.position;
        if self.data.len() - position < CONTROL_MESSAGE_LENGTH {
            return Err(Error::SbeError(SbeError::NotEnoughBytes));
        }
        let ghost rest = self.rest();
        let code = get_u32(self.data, position);
        proof {
            assert(rest.subrange(0, 4) =~= self.data@.subrange(position as int, position + 4));
        }
        if code != 0 {
            return Err(Error::UnknownEnum(EnumKind::ControlFrameBody, code as u64));
        }
        self.position = position + CONTROL_MESSAGE_LENGTH;
        Ok(ControlMessageType::KeepAlive)
    }

    /// Hides what lies at and after `length` from the decoder.
    ///
    /// Fails with `NotEnoughBytes`, and changes nothing, when `length` is
    /// before the position or after the end.
    pub fn truncate(&mut self, length: usize) -> (r: Result<(), Error>)
        ensures
            final(self).position() == old(self).position(),
            match r {
                Ok(()) => {
                    &&& old(self).position() <= length <= old(self).bytes().len()
                    &&& final(self).bytes() == old(self).bytes().take(length as int)
                },
                Err(error) => {
                    &&& !(old(self).position() <= length <= old(self).bytes().len())
                    &&& error == Error::not_enough_bytes()
                    &&& final(self).bytes() == old(self).bytes()
                },
            },
    {
        if length < self.position {
            Err(Error::SbeError(SbeError::NotEnoughBytes))
        } else if length <= self.data.len() {
            self.data = slice_subrange(self.data, 0, length);
            Ok(())
        } else {
            Err(Error::SbeError(SbeError::NotEnoughBytes))
        }
    }

    /// The bytes not read yet.
    pub fn remaining(self) -> (rest: &'d [u8])
        ensures
            rest@ == self.rest(),
    {
        proof {
            use_type_invariant(&self);
        }
        slice_subrange(self.data, self.position, self.data.len())
    }
}

/// A cursor over a buffer of fixed size that is being filled.
#[derive(Debug)]
pub struct Encoder {
    data: Vec<u8>,
    position: usize,
}

impl Encoder {
    /// The buffer as it stands.
    pub closed spec fn bytes(&self) -> Seq<u8> {
        self.data@
    }

    /// The number of bytes written so far.
    pub closed spec fn position(&self) -> nat {
        self.position as nat
    }

    /// The buffer after `src` has been written at the position.
    pub open spec fn bytes_after(&self, src: Seq<u8>) -> Seq<u8> {
        self.bytes().take(self.position() as int) + src + self.bytes().skip(
            (self.position() + src.len()) as int,
        )
    }

    pub fn new(data: Vec<u8>) -> (encoder: Self)
        ensures
            encoder.bytes() == data@,
            encoder.position() == 0,
    {
        Encoder { data, position: 0 }
    }

    /// Writes `data` at the position and moves the position behind it.
    ///
    /// Fails with `NotEnoughBytes`, and changes nothing, when the buffer has
    /// less room than `data` needs.
    pub fn write(&mut self, data: &[u8]) -> (r: Result<(), Error>)
        ensures
            match r {
                Ok(()) => {
                    &&& old(self).position() + data@.len() <= old(self).bytes().len()
                    &&& final(self).bytes() == old(self).bytes_after(data@)
                    &&& final(self).position() == old(self).position() + data@.len()
                },
                Err(error) => {
                    &&& old(self).position() + data@.len() > old(self).bytes().len()
                    &&& error == Error::not_enough_bytes()
                    &&& final(self).bytes() == old(self).bytes()
                    &&& final(self).position() == old(self).position()
                },
            },
    {
        if self.position <= self.data.len() && data.len() <= self.data.len() - self.position {
            copy_into(&mut self.data, self.position, data);
            self.position = self.position + data.len();
            Ok(())
        } else {
            Err(Error::SbeError(SbeError::NotEnoughBytes))
        }
    }

    /// Writes a data-frame header.
    pub fn write_data_frame_header(&mut self, header: &DataFrameHeader) -> (r: Result<(), Error>)
        ensures
            match r {
                Ok(()) => {
                    &&& old(self).position() + 12 <= old(self).bytes().len()
                    &&& final(self).bytes() == old(self).bytes_after(header.bytes())
                    &&& final(self).position() == old(self).position() + 12
                },
                Err(error) => {
                    &&& old(self).position() + 12 > old(self).bytes().len()
                    &&& error == Error::not_enough_bytes()
                    &&& final(self).bytes() == old(self).bytes()
                    &&& final(self).position() == old(self).position()
                },
            },
    {
        let mut bytes = u32_bytes(header.length);
        bytes.push(header.version);
        bytes.push(header.flags);
        let code: u16 = match header.frame_type {
            DataFrameType::Message => 0,
            DataFrameType::Padding => 1,
        };
        let mut code_bytes = u16_bytes(code);
        bytes.append(&mut code_bytes);
        let mut stream_bytes = u32_bytes(header.stream_id);
        bytes.append(&mut stream_bytes);
        proof {
            lemma_header_bytes_len(*header);
            assert(bytes@ =~= header.bytes());
        }
        self.write(bytes.as_slice())
    }

    /// Writes a transport header.
    pub fn write_transport_header(&mut self, header: &TransportHeader) -> (r: Result<(), Error>)
        ensures
            match r {
                Ok(()) => {
                    &&& old(self).position() + 2 <= old(self).bytes().len()
                    &&& final(self).bytes() == old(self).bytes_after(header.bytes())
                    &&& final(self).position() == old(self).position() + 2
                },
                Err(error) => {
                    &&& old(self).position() + 2 > old(self).bytes().len()
                    &&& error == Error::not_enough_bytes()
                    &&& final(self).bytes() == old(self).bytes()
                    &&& final(self).position() == old(self).position()
                },
            },
    {
        let code: u16 = match header.protocol {
            TransportProtocol::RequestResponse => 0,
            TransportProtocol::FullDuplexSingleMessage => 1,
            TransportProtocol::ControlMessage => 2,
        };
        let bytes = u16_bytes(code);
        proof {
            lemma_le_bytes_len(code as nat, 2);
        }
        self.write(bytes.as_slice())
    }

    /// Writes a request-response header.
    pub fn write_request_response_header(&mut self, header: &RequestResponseHeader) -> (r: Result<
        (),
        Error,
    >)
        ensures
            match r {
                Ok(()) => {
                    &&& old(self).position() + 8 <= old(self).bytes().len()
                    &&& final(self).bytes() == old(self).bytes_after(header.bytes())
                    &&& final(self).position() == old(self).position() + 8
                },
                Err(error) => {
                    &&& old(self).position() + 8 > old(self).bytes().len()
                    &&& error == Error::not_enough_bytes()
                    &&& final(self).bytes() == old(self).bytes()
                    &&& final(self).position() == old(self).position()
                },
            },
    {
        let bytes = u64_bytes(header.request_id);
        proof {
            lemma_le_bytes_len(header.request_id as nat, 8);
        }
        self.write(bytes.as_slice())
    }

    /// Writes the body of a control message.
    pub fn write_control_message_type(&mut self, message_type: &ControlMessageType) -> (r: Result<
        (),
        Error,
    >)
        ensures
            match r {
                Ok(()) => {
                    &&& old(self).position() + 4 <= old(self).bytes().len()
                    &&& final(self).bytes() == old(self).bytes_after(message_type.bytes())
                    &&& final(self).position() == old(self).position() + 4
                },
                Err(error) => {
                    &&& old(self).position() + 4 > old(self).bytes().len()
                    &&& error == Error::not_enough_bytes()
                    &&& final(self).bytes() == old(self).bytes()
                    &&& final(self).position() == old(self).position()
                },
            },
    {
        let code: u32 = match message_type {
            ControlMessageType::KeepAlive => 0,
        };
        let bytes = u32_bytes(code);
        proof {
            lemma_le_bytes_len(code as nat, 4);
        }
        self.write(bytes.as_slice())
    }

    /// Hands the buffer back.
    pub fn finish(self) -> (data: Vec<u8>)
        ensures
            data@ == self.bytes(),
    {
        self.data
    }
}

/// A header followed by anything reads back as that header.
pub proof fn lemma_parse_data_frame_header(header: DataFrameHeader, rest: Seq<u8>)
    ensures
        DataFrameHeader::parse(header.bytes() + rest) == Ok::<DataFrameHeader, Error>(header),
{
    let s = header.bytes() + rest;
    lemma_le_bytes_len(header.length as nat, 4);
    lemma_le_bytes_len(header.frame_type.code(), 2);
    lemma_le_bytes_len(header.stream_id as nat, 4);
    lemma_pow256_values();
    assert(s.subrange(0, 4) =~= le_bytes(header.length as nat, 4));
    assert(s.subrange(6, 8) =~= le_bytes(header.frame_type.code(), 2));
    assert(s.subrange(8, 12) =~= le_bytes(header.stream_id as nat, 4));
    lemma_le_nat_of_le_bytes(header.length as nat, 4);
    lemma_le_nat_of_le_bytes(header.frame_type.code(), 2);
    lemma_le_nat_of_le_bytes(header.stream_id as nat, 4);
    assert(s[4] == header.version);
    assert(s[5] == header.flags);
}

/// A transport header followed by anything reads back as that header.
pub proof fn lemma_parse_transport_header(header: TransportHeader, rest: Seq<u8>)
    ensures
        TransportHeader::parse(header.bytes() + rest) == Ok::<TransportHeader, Error>(header),
{
    let s = header.bytes() + rest;
    lemma_le_bytes_len(header.protocol.code(), 2);
    lemma_pow256_values();
    assert(s.subrange(0, 2) =~= le_bytes(header.protocol.code(), 2));
    lemma_le_nat_of_le_bytes(header.protocol.code(), 2);
}

/// A request-response header followed by anything reads back as that header.
pub proof fn lemma_parse_request_response_header(header: RequestResponseHeader, rest: Seq<u8>)
    ensures
        RequestResponseHeader::parse(header.bytes() + rest) == Ok::<RequestResponseHeader, Error>(
            header,
        ),
{
    let s = header.bytes() + rest;
    lemma_le_bytes_len(header.request_id as nat, 8);
    lemma_pow256_values();
    assert(s.subrange(0, 8) =~= le_bytes(header.request_id as nat, 8));
    lemma_le_nat_of_le_bytes(header.request_id as nat, 8);
}

/// The body of a control message followed by anything reads back as itself.
pub proof fn lemma_parse_control_message_type(message_type: ControlMessageType, rest: Seq<u8>)
    ensures
        ControlMessageType::parse(message_type.bytes() + rest) == Ok::<ControlMessageType, Error>(
            message_type,
        ),
{
    let s = message_type.bytes() + rest;
    lemma_le_bytes_len(message_type.code(), 4);
    lemma_pow256_values();
    assert(s.subrange(0, 4) =~= le_bytes(message_type.code(), 4));
    lemma_le_nat_of_le_bytes(message_type.code(), 4);
}

/// The header that an encoded frame starts with.
pub open spec fn header_of(
    version: u8,
    flags: u8,
    frame_type: DataFrameType,
    stream_id: u32,
    payload: Seq<u8>,
) -> DataFrameHeader {
    DataFrameHeader { length: payload.len() as u32, version, flags, frame_type, stream_id }
}

/// Every encoded frame is a whole number of 8-byte units, and what follows
/// its payload is zero.
pub proof fn lemma_frame_is_aligned_and_zero_padded(
    version: u8,
    flags: u8,
    frame_type: DataFrameType,
    stream_id: u32,
    payload: Seq<u8>,
)
    requires
        payload.len() <= MAX_FRAME_LENGTH,
    ensures
        ({
            let frame = frame_bytes(version, flags, frame_type, stream_id, payload);
            let header = header_of(version, flags, frame_type, stream_id, payload);
            &&& frame.len() % 8 == 0
            &&& frame.len() == 12 + payload.len() + header.spec_padding()
            &&& header.spec_padding() < 8
            &&& forall|i: int|
                frame.len() - header.spec_padding() <= i < frame.len() ==> frame[i] == 0
        }),
{
    let header = header_of(version, flags, frame_type, stream_id, payload);
    lemma_header_bytes_len(header);
}

/// The header read from an encoded frame, whatever follows the frame, is
/// the header that was written, and its aligned length is the length of the
/// whole frame.
pub proof fn lemma_frame_header_measures_frame(
    version: u8,
    flags: u8,
    frame_type: DataFrameType,
    stream_id: u32,
    payload: Seq<u8>,
    rest: Seq<u8>,
)
    requires
        payload.len() <= MAX_FRAME_LENGTH,
    ensures
        ({
            let frame = frame_bytes(version, flags, frame_type, stream_id, payload);
            let header = header_of(version, flags, frame_type, stream_id, payload);
            &&& DataFrameHeader::parse(frame + rest) == Ok::<DataFrameHeader, Error>(header)
            &&& header.spec_aligned_length() == frame.len()
        }),
{
    let header = header_of(version, flags, frame_type, stream_id, payload);
    lemma_header_bytes_len(header);
    lemma_parse_data_frame_header(header, payload + zeros(header.spec_padding()) + rest);
    assert(frame_bytes(version, flags, frame_type, stream_id, payload) + rest =~= header.bytes() + (
    payload + zeros(header.spec_padding()) + rest));
}

/// Decoding an encoded request or response, whatever follows it, gives
/// back the header fields, the request id and the message.
pub proof fn lemma_decode_request_response(
    version: u8,
    flags: u8,
    stream_id: u32,
    request_id: u64,
    message: Seq<u8>,
    rest: Seq<u8>,
)
    requires
        message.len() + 10 <= MAX_FRAME_LENGTH,
    ensures
        ({
            let payload = request_response_payload(request_id, message);
            parse_frame(
                frame_bytes(version, flags, DataFrameType::Message, stream_id, payload) + rest,
            ) == Ok::<FrameView, Error>(
                FrameView::RequestResponse {
                    data_frame_header: header_of(
                        version,
                        flags,
                        DataFrameType::Message,
                        stream_id,
                        payload,
                    ),
                    transport_header: TransportHeader {
                        protocol: TransportProtocol::RequestResponse,
                    },
                    request_response_header: RequestResponseHeader { request_id },
                    message,
                },
            )
        }),
{
    let transport_header = TransportHeader { protocol: TransportProtocol::RequestResponse };
    let request_response_header = RequestResponseHeader { request_id };
    let payload = request_response_payload(request_id, message);
    let frame = frame_bytes(version, flags, DataFrameType::Message, stream_id, payload) + rest;
    let header = header_of(version, flags, DataFrameType::Message, stream_id, payload);
    lemma_le_bytes_len(transport_header.protocol.code(), 2);
    lemma_le_bytes_len(request_id as nat, 8);
    lemma_header_bytes_len(header);
    lemma_frame_header_measures_frame(
        version,
        flags,
        DataFrameType::Message,
        stream_id,
        payload,
        rest,
    );
    assert(frame.subrange(12, 12 + header.length) =~= payload);
    lemma_parse_transport_header(transport_header, request_response_header.bytes() + message);
    assert(payload =~= transport_header.bytes() + (request_response_header.bytes() + message));
    assert(payload.skip(2) =~= request_response_header.bytes() + message);
    lemma_parse_request_response_header(request_response_header, message);
    assert(payload.skip(10) =~= message);
}

/// Decoding an encoded single message, whatever follows it, gives back the
/// header fields and the message.
pub proof fn lemma_decode_full_duplex_single_message(
    version: u8,
    flags: u8,
    stream_id: u32,
    message: Seq<u8>,
    rest: Seq<u8>,
)
    requires
        message.len() + 2 <= MAX_FRAME_LENGTH,
    ensures
        ({
            let payload = full_duplex_single_message_payload(message);
            parse_frame(
                frame_bytes(version, flags, DataFrameType::Message, stream_id, payload) + rest,
            ) == Ok::<FrameView, Error>(
                FrameView::FullDuplexSingleMessage {
                    data_frame_header: header_of(
                        version,
                        flags,
                        DataFrameType::Message,
                        stream_id,
                        payload,
                    ),
                    transport_header: TransportHeader {
                        protocol: TransportProtocol::FullDuplexSingleMessage,
                    },
                    message,
                },
            )
        }),
{
    let transport_header = TransportHeader {
        protocol: TransportProtocol::FullDuplexSingleMessage,
    };
    let payload = full_duplex_single_message_payload(message);
    let frame = frame_bytes(version, flags, DataFrameType::Message, stream_id, payload) + rest;
    let header = header_of(version, flags, DataFrameType::Message, stream_id, payload);
    lemma_le_bytes_len(transport_header.protocol.code(), 2);
    lemma_header_bytes_len(header);
    lemma_frame_header_measures_frame(
        version,
        flags,
        DataFrameType::Message,
        stream_id,
        payload,
        rest,
    );
    assert(frame.subrange(12, 12 + header.length) =~= payload);
    lemma_parse_transport_header(transport_header, message);
    assert(payload.skip(2) =~= message);
}

/// Decoding an encoded control message, whatever follows it, gives back
/// the header fields and the kind of control message.
pub proof fn lemma_decode_control_message(
    version: u8,
    flags: u8,
    stream_id: u32,
    message_type: ControlMessageType,
    rest: Seq<u8>,
)
    ensures
        ({
            let payload = control_message_payload(message_type);
            parse_frame(
                frame_bytes(version, flags, DataFrameType::Message, stream_id, payload) + rest,
            ) == Ok::<FrameView, Error>(
                FrameView::ControlMessage {
                    data_frame_header: header_of(
                        version,
                        flags,
                        DataFrameType::Message,
                        stream_id,
                        payload,
                    ),
                    transport_header: TransportHeader {
                        protocol: TransportProtocol::ControlMessage,
                    },
                    message_type,
                },
            )
        }),
{
    let transport_header = TransportHeader { protocol: TransportProtocol::ControlMessage };
    let payload = control_message_payload(message_type);
    let frame = frame_bytes(version, flags, DataFrameType::Message, stream_id, payload) + rest;
    let header = header_of(version, flags, DataFrameType::Message, stream_id, payload);
    lemma_le_bytes_len(transport_header.protocol.code(), 2);
    lemma_le_bytes_len(message_type.code(), 4);
    lemma_header_bytes_len(header);
    lemma_frame_header_measures_frame(
        version,
        flags,
        DataFrameType::Message,
        stream_id,
        payload,
        rest,
    );
    assert(frame.subrange(12, 12 + header.length) =~= payload);
    lemma_parse_transport_header(transport_header, message_type.bytes());
    assert(payload.skip(2) =~= message_type.bytes() + Seq::<u8>::empty());
    lemma_parse_control_message_type(message_type, Seq::<u8>::empty());
}

/// Decoding a padding frame gives its header and no message, whatever the
/// body holds, and the frame takes exactly its aligned length on the wire.
pub proof fn lemma_decode_padding(
    version: u8,
    flags: u8,
    stream_id: u32,
    body: Seq<u8>,
    rest: Seq<u8>,
)
    requires
        body.len() <= MAX_FRAME_LENGTH,
    ensures
        ({
            let frame = frame_bytes(version, flags, DataFrameType::Padding, stream_id, body);
            let header = header_of(version, flags, DataFrameType::Padding, stream_id, body);
            &&& parse_frame(frame + rest) == Ok::<FrameView, Error>(
                FrameView::Padding { data_frame_header: header },
            )
            &&& header.spec_aligned_length() == frame.len()
        }),
{
    let frame = frame_bytes(version, flags, DataFrameType::Padding, stream_id, body);
    let header = header_of(version, flags, DataFrameType::Padding, stream_id, body);
    lemma_header_bytes_len(header);
    lemma_parse_data_frame_header(header, body + zeros(header.spec_padding()) + rest);
    assert(frame + rest =~= header.bytes() + (body + zeros(header.spec_padding()) + rest));
}

} // verus!
