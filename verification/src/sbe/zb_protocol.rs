//! The message catalog: one header, one fixed block and an ordered list of
//! variable-length fields for each template, with a staged encoder and a
//! staged decoder for each.
//!
//! A staged coder is a chain of types, one per part of the message. Each
//! stage offers the one step that is due and hands on the next stage, so a
//! message cannot be read or written out of order.

use crate::error::EnumKind;
use crate::wire::copy_into;
use crate::wire::get_i32;
use crate::wire::get_u16;
use crate::wire::get_u64;
use crate::wire::i32_bytes;
use crate::wire::le_bytes;
use crate::wire::le_bytes_signed;
use crate::wire::le_int;
use crate::wire::le_nat;
use crate::wire::lemma_le_bytes_len;
use crate::wire::lemma_le_bytes_signed_len;
use crate::wire::lemma_le_int_of_le_bytes_signed;
use crate::wire::lemma_le_nat_of_le_bytes;
use crate::wire::lemma_pow256_values;
use crate::wire::u16_bytes;
use crate::wire::u64_bytes;
use vstd::prelude::*;
use vstd::slice::slice_subrange;

verus! {

/// Errors that may occur during the course of encoding or decoding.
#[derive(Debug, PartialEq, Eq, Clone, Copy, Structural)]
pub enum CodecErr {
    /// Too few bytes in the byte-slice to read or write the data structure
    /// relevant to the current state of the codec.
    NotEnoughBytes,
    /// Variable-length data is limited by the `u16` that carries its length
    /// and by the value that the schema reserves.
    SliceIsLongerThanAllowedBySchema,
    /// A byte of the fixed block names no variant of its enumeration.
    UnknownEnum(EnumKind, u64),
}

pub type CodecResult<T> = Result<T, CodecErr>;

/// The longest variable-length field; the length 65535 is reserved.
pub const MAX_VAR_DATA_LENGTH: usize = 65534;

/// The size of a message header.
pub const MESSAGE_HEADER_LENGTH: usize = 8;

/// One of two.
#[derive(Copy, Clone, PartialEq, Eq, Hash, Debug)]
pub enum Either<L, R> {
    Left(L),
    Right(R),
}

/// What a subscription is to.
#[derive(Clone, Copy, Debug, PartialEq, Eq, Hash, Structural)]
pub enum SubscriptionType {
    TaskSubscription,
    TopicSubscription,
}

impl SubscriptionType {
    pub open spec fn code(&self) -> u8 {
        match *self {
            SubscriptionType::TaskSubscription => 0,
            SubscriptionType::TopicSubscription => 1,
        }
    }

    pub open spec fn of_code(code: u8) -> Option<SubscriptionType> {
        if code == 0 {
            Some(SubscriptionType::TaskSubscription)
        } else if code == 1 {
            Some(SubscriptionType::TopicSubscription)
        } else {
            None
        }
    }

    pub fn to_u8(&self) -> (code: u8)
        ensures
            code == self.code(),
            Self::of_code(code) == Some(*self),
    {
        match *self {
            SubscriptionType::TaskSubscription => 0,
            SubscriptionType::TopicSubscription => 1,
        }
    }

    pub fn from_u8(code: u8) -> (r: Option<SubscriptionType>)
        ensures
            r == Self::of_code(code),
    {
        if code == 0 {
            Some(SubscriptionType::TaskSubscription)
        } else if code == 1 {
            Some(SubscriptionType::TopicSubscription)
        } else {
            None
        }
    }
}

/// The kinds of events in the log of a partition.
#[derive(Clone, Copy, Debug, PartialEq, Eq, Hash, Structural)]
pub enum EventType {
    TaskEvent,
    RaftEvent,
    SubscriptionEvent,
    SubscriberEvent,
    DeploymentEvent,
    WorkflowInstanceEvent,
    IncidentEvent,
    WorkflowEvent,
    NoopEvent,
    TopicEvent,
    PartitionEvent,
}

impl EventType {
    pub open spec fn code(&self) -> u8 {
        match *self {
            EventType::TaskEvent => 0,
            EventType::RaftEvent => 1,
            EventType::SubscriptionEvent => 2,
            EventType::SubscriberEvent => 3,
            EventType::DeploymentEvent => 4,
            EventType::WorkflowInstanceEvent => 5,
            EventType::IncidentEvent => 6,
            EventType::WorkflowEvent => 7,
            EventType::NoopEvent => 8,
            EventType::TopicEvent => 9,
            EventType::PartitionEvent => 10,
        }
    }

    pub open spec fn of_code(code: u8) -> Option<EventType> {
        if code == 0 {
            Some(EventType::TaskEvent)
        } else if code == 1 {
            Some(EventType::RaftEvent)
        } else if code == 2 {
            Some(EventType::SubscriptionEvent)
        } else if code == 3 {
            Some(EventType::SubscriberEvent)
        } else if code == 4 {
            Some(EventType::DeploymentEvent)
        } else if code == 5 {
            Some(EventType::WorkflowInstanceEvent)
        } else if code == 6 {
            Some(EventType::IncidentEvent)
        } else if code == 7 {
            Some(EventType::WorkflowEvent)
        } else if code == 8 {
            Some(EventType::NoopEvent)
        } else if code == 9 {
            Some(EventType::TopicEvent)
        } else if code == 10 {
            Some(EventType::PartitionEvent)
        } else {
            None
        }
    }

    pub fn to_u8(&self) -> (code: u8)
        ensures
            code == self.code(),
            Self::of_code(code) == Some(*self),
    {
        match *self {
            EventType::TaskEvent => 0,
            EventType::RaftEvent => 1,
            EventType::SubscriptionEvent => 2,
            EventType::SubscriberEvent => 3,
            EventType::DeploymentEvent => 4,
            EventType::WorkflowInstanceEvent => 5,
            EventType::IncidentEvent => 6,
            EventType::WorkflowEvent => 7,
            EventType::NoopEvent => 8,
            EventType::TopicEvent => 9,
            EventType::PartitionEvent => 10,
        }
    }

    pub fn from_u8(code: u8) -> (r: Option<EventType>)
        ensures
            r == Self::of_code(code),
    {
        if code == 0 {
            Some(EventType::TaskEvent)
        } else if code == 1 {
            Some(EventType::RaftEvent)
        } else if code == 2 {
            Some(EventType::SubscriptionEvent)
        } else if code == 3 {
            Some(EventType::SubscriberEvent)
        } else if code == 4 {
            Some(EventType::DeploymentEvent)
        } else if code == 5 {
            Some(EventType::WorkflowInstanceEvent)
        } else if code == 6 {
            Some(EventType::IncidentEvent)
        } else if code == 7 {
            Some(EventType::WorkflowEvent)
        } else if code == 8 {
            Some(EventType::NoopEvent)
        } else if code == 9 {
            Some(EventType::TopicEvent)
        } else if code == 10 {
            Some(EventType::PartitionEvent)
        } else {
            None
        }
    }
}

/// The kinds of control message requests.
#[derive(Clone, Copy, Debug, PartialEq, Eq, Hash, Structural)]
pub enum ControlMessageType {
    AddTaskSubscription,
    RemoveTaskSubscription,
    IncreaseTaskSubscriptionCredits,
    RemoveTopicSubscription,
    RequestTopology,
}

impl ControlMessageType {
    pub open spec fn code(&self) -> u8 {
        match *self {
            ControlMessageType::AddTaskSubscription => 0,
            ControlMessageType::RemoveTaskSubscription => 1,
            ControlMessageType::IncreaseTaskSubscriptionCredits => 2,
            ControlMessageType::RemoveTopicSubscription => 3,
            ControlMessageType::RequestTopology => 4,
        }
    }

    pub open spec fn of_code(code: u8) -> Option<ControlMessageType> {
        if code == 0 {
            Some(ControlMessageType::AddTaskSubscription)
        } else if code == 1 {
            Some(ControlMessageType::RemoveTaskSubscription)
        } else if code == 2 {
            Some(ControlMessageType::IncreaseTaskSubscriptionCredits)
        } else if code == 3 {
            Some(ControlMessageType::RemoveTopicSubscription)
        } else if code == 4 {
            Some(ControlMessageType::RequestTopology)
        } else {
            None
        }
    }

    pub fn to_u8(&self) -> (code: u8)
        ensures
            code == self.code(),
            Self::of_code(code) == Some(*self),
    {
        match *self {
            ControlMessageType::AddTaskSubscription => 0,
            ControlMessageType::RemoveTaskSubscription => 1,
            ControlMessageType::IncreaseTaskSubscriptionCredits => 2,
            ControlMessageType::RemoveTopicSubscription => 3,
            ControlMessageType::RequestTopology => 4,
        }
    }

    pub fn from_u8(code: u8) -> (r: Option<ControlMessageType>)
        ensures
            r == Self::of_code(code),
    {
        if code == 0 {
            Some(ControlMessageType::AddTaskSubscription)
        } else if code == 1 {
            Some(ControlMessageType::RemoveTaskSubscription)
        } else if code == 2 {
            Some(ControlMessageType::IncreaseTaskSubscriptionCredits)
        } else if code == 3 {
            Some(ControlMessageType::RemoveTopicSubscription)
        } else if code == 4 {
            Some(ControlMessageType::RequestTopology)
        } else {
            None
        }
    }
}

/// Why the broker has refused a request.
#[derive(Clone, Copy, Debug, PartialEq, Eq, Hash, Structural)]
pub enum ErrorCode {
    MessageNotSupported,
    TopicNotFound,
    RequestWriteFailure,
    InvalidClientVersion,
    RequestTimeout,
    RequestProcessingFailure,
    InvalidMessage,
}

impl ErrorCode {
    pub open spec fn code(&self) -> u8 {
        match *self {
            ErrorCode::MessageNotSupported => 0,
            ErrorCode::TopicNotFound => 1,
            ErrorCode::RequestWriteFailure => 2,
            ErrorCode::InvalidClientVersion => 3,
            ErrorCode::RequestTimeout => 4,
            ErrorCode::RequestProcessingFailure => 5,
            ErrorCode::InvalidMessage => 6,
        }
    }

    pub open spec fn of_code(code: u8) -> Option<ErrorCode> {
        if code == 0 {
            Some(ErrorCode::MessageNotSupported)
        } else if code == 1 {
            Some(ErrorCode::TopicNotFound)
        } else if code == 2 {
            Some(ErrorCode::RequestWriteFailure)
        } else if code == 3 {
            Some(ErrorCode::InvalidClientVersion)
        } else if code == 4 {
            Some(ErrorCode::RequestTimeout)
        } else if code == 5 {
            Some(ErrorCode::RequestProcessingFailure)
        } else if code == 6 {
            Some(ErrorCode::InvalidMessage)
        } else {
            None
        }
    }

    pub fn to_u8(&self) -> (code: u8)
        ensures
            code == self.code(),
            Self::of_code(code) == Some(*self),
    {
        match *self {
            ErrorCode::MessageNotSupported => 0,
            ErrorCode::TopicNotFound => 1,
            ErrorCode::RequestWriteFailure => 2,
            ErrorCode::InvalidClientVersion => 3,
            ErrorCode::RequestTimeout => 4,
            ErrorCode::RequestProcessingFailure => 5,
            ErrorCode::InvalidMessage => 6,
        }
    }

    pub fn from_u8(code: u8) -> (r: Option<ErrorCode>)
        ensures
            r == Self::of_code(code),
    {
        if code == 0 {
            Some(ErrorCode::MessageNotSupported)
        } else if code == 1 {
            Some(ErrorCode::TopicNotFound)
        } else if code == 2 {
            Some(ErrorCode::RequestWriteFailure)
        } else if code == 3 {
            Some(ErrorCode::InvalidClientVersion)
        } else if code == 4 {
            Some(ErrorCode::RequestTimeout)
        } else if code == 5 {
            Some(ErrorCode::RequestProcessingFailure)
        } else if code == 6 {
            Some(ErrorCode::InvalidMessage)
        } else {
            None
        }
    }
}

/// The header in front of every SBE message.
#[derive(Debug, PartialEq, Eq, Clone, Copy, Structural)]
pub struct MessageHeader {
    pub block_length: u16,
    pub template_id: u16,
    pub schema_id: u16,
    pub version: u16,
}

impl MessageHeader {
    /// The eight bytes of the header on the wire.
    pub open spec fn bytes(&self) -> Seq<u8> {
        le_bytes(self.block_length as nat, 2) + le_bytes(self.template_id as nat, 2) + le_bytes(
            self.schema_id as nat,
            2,
        ) + le_bytes(self.version as nat, 2)
    }

    /// The header that the first eight bytes of `s` spell.
    pub open spec fn parse(s: Seq<u8>) -> MessageHeader
        recommends
            s.len() >= 8,
    {
        MessageHeader {
            block_length: le_nat(s.subrange(0, 2)) as u16,
            template_id: le_nat(s.subrange(2, 4)) as u16,
            schema_id: le_nat(s.subrange(4, 6)) as u16,
            version: le_nat(s.subrange(6, 8)) as u16,
        }
    }

    /// The header as bytes.
    pub fn to_vec(&self) -> (out: Vec<u8>)
        ensures
            out@ == self.bytes(),
            out@.len() == 8,
    {
        let mut out = u16_bytes(self.block_length);
        let mut part = u16_bytes(self.template_id);
        out.append(&mut part);
        let mut part = u16_bytes(self.schema_id);
        out.append(&mut part);
        let mut part = u16_bytes(self.version);
        out.append(&mut part);
        proof {
            lemma_le_bytes_len(self.block_length as nat, 2);
            lemma_le_bytes_len(self.template_id as nat, 2);
            lemma_le_bytes_len(self.schema_id as nat, 2);
            lemma_le_bytes_len(self.version as nat, 2);
            assert(out@ =~= self.bytes());
        }
        out
    }

    /// The header at `data[pos..pos + 8]`.
    pub fn read(data: &[u8], pos: usize) -> (header: MessageHeader)
        requires
            pos + 8 <= data.len(),
        ensures
            header == MessageHeader::parse(data@.subrange(pos as int, pos + 8)),
    {
        let ghost s = data@.subrange(pos as int, pos + 8);
        proof {
            assert(s.subrange(0, 2) =~= data@.subrange(pos as int, pos + 2));
            assert(s.subrange(2, 4) =~= data@.subrange(pos + 2, pos + 4));
            assert(s.subrange(4, 6) =~= data@.subrange(pos + 4, pos + 6));
            assert(s.subrange(6, 8) =~= data@.subrange(pos + 6, pos + 8));
        }
        MessageHeader {
            block_length: get_u16(data, pos),
            template_id: get_u16(data, pos + 2),
            schema_id: get_u16(data, pos + 4),
            version: get_u16(data, pos + 6),
        }
    }

    /// A header reads back as itself.
    pub proof fn lemma_parse_bytes(self)
        ensures
            self.bytes().len() == 8,
            MessageHeader::parse(self.bytes()) == self,
    {
        let s = self.bytes();
        lemma_pow256_values();
        lemma_le_bytes_len(self.block_length as nat, 2);
        lemma_le_bytes_len(self.template_id as nat, 2);
        lemma_le_bytes_len(self.schema_id as nat, 2);
        lemma_le_bytes_len(self.version as nat, 2);
        assert(s.subrange(0, 2) =~= le_bytes(self.block_length as nat, 2));
        assert(s.subrange(2, 4) =~= le_bytes(self.template_id as nat, 2));
        assert(s.subrange(4, 6) =~= le_bytes(self.schema_id as nat, 2));
        assert(s.subrange(6, 8) =~= le_bytes(self.version as nat, 2));
        lemma_le_nat_of_le_bytes(self.block_length as nat, 2);
        lemma_le_nat_of_le_bytes(self.template_id as nat, 2);
        lemma_le_nat_of_le_bytes(self.schema_id as nat, 2);
        lemma_le_nat_of_le_bytes(self.version as nat, 2);
    }
}

/// The start of a variable-length field: its length and its first byte.
#[derive(Debug, PartialEq, Eq, Clone, Copy)]
pub struct VarDataEncoding {
    pub length: u16,
    pub var_data: u8,
}

/// A variable-length field on the wire: its length, then its bytes.
pub open spec fn var_data(s: Seq<u8>) -> Seq<u8> {
    le_bytes(s.len(), 2) + s
}

/// The variable-length field at the start of `s`, if all of it is there.
pub open spec fn parse_var_data(s: Seq<u8>) -> Option<Seq<u8>> {
    if s.len() < 2 {
        None
    } else if s.len() < 2 + le_nat(s.subrange(0, 2)) {
        None
    } else {
        Some(s.subrange(2, 2 + le_nat(s.subrange(0, 2)) as int))
    }
}

/// A variable-length field followed by anything reads back as itself.
pub proof fn lemma_parse_var_data(s: Seq<u8>, rest: Seq<u8>)
    requires
        s.len() <= MAX_VAR_DATA_LENGTH,
    ensures
        var_data(s).len() == 2 + s.len(),
        parse_var_data(var_data(s) + rest) == Some(s),
{
    let all = var_data(s) + rest;
    lemma_pow256_values();
    lemma_le_bytes_len(s.len(), 2);
    lemma_le_nat_of_le_bytes(s.len(), 2);
    assert(all.subrange(0, 2) =~= le_bytes(s.len(), 2));
    assert(all.subrange(2, 2 + s.len() as int) =~= s);
}

/// The state of a staged decoder: the bytes and the position in them.
#[derive(Debug)]
pub struct ScratchDecoderData<'d> {
    data: &'d [u8],
    pos: usize,
}

impl<'d> ScratchDecoderData<'d> {
    #[verifier::type_invariant]
    spec fn well_formed(&self) -> bool {
        self.pos <= self.data@.len()
    }

    /// The bytes under the decoder.
    pub closed spec fn bytes(&self) -> Seq<u8> {
        self.data@
    }

    /// The number of bytes decoded so far.
    pub closed spec fn position(&self) -> nat {
        self.pos as nat
    }

    /// The bytes not decoded yet.
    pub open spec fn rest(&self) -> Seq<u8> {
        self.bytes().skip(self.position() as int)
    }

    /// `next` is this decoder `n` bytes further on.
    pub open spec fn moved(&self, next: &Self, n: nat) -> bool {
        &&& next.bytes() == self.bytes()
        &&& next.position() == self.position() + n
        &&& n <= self.rest().len()
    }

    fn new(data: &'d [u8]) -> (scratch: Self)
        ensures
            scratch.bytes() == data@,
            scratch.position() == 0,
    {
        ScratchDecoderData { data, pos: 0 }
    }

    fn position_value(&self) -> (pos: usize)
        ensures
            pos == self.position(),
            pos <= self.bytes().len(),
    {
        proof {
            use_type_invariant(self);
        }
        self.pos
    }

    /// The number of bytes not decoded yet.
    fn remaining(&self) -> (n: usize)
        ensures
            n == self.rest().len(),
    {
        proof {
            use_type_invariant(self);
        }
        self.data.len() - self.pos
    }

    /// The bytes under the decoder, for reading at the position.
    fn data(&self) -> (data: &'d [u8])
        ensures
            data@ == self.bytes(),
    {
        self.data
    }

    /// Advances the `pos` index by a set number of bytes.
    fn skip_bytes(&mut self, num_bytes: usize) -> (r: CodecResult<()>)
        ensures
            match r {
                Ok(()) => old(self).moved(final(self), num_bytes as nat),
                Err(error) => {
                    &&& error == CodecErr::NotEnoughBytes
                    &&& num_bytes > old(self).rest().len()
                    &&& old(self).moved(final(self), 0)
                },
            },
    {
        proof {
            use_type_invariant(&*self);
        }
        if num_bytes <= self.data.len() - self.pos {
            self.pos = self.pos + num_bytes;
            Ok(())
        } else {
            Err(CodecErr::NotEnoughBytes)
        }
    }

    /// Reads the header of a message.
    fn read_message_header(&mut self) -> (r: CodecResult<MessageHeader>)
        ensures
            match r {
                Ok(header) => {
                    &&& old(self).moved(final(self), 8)
                    &&& header == MessageHeader::parse(old(self).rest())
                },
                Err(error) => {
                    &&& error == CodecErr::NotEnoughBytes
                    &&& old(self).rest().len() < 8
                    &&& old(self).moved(final(self), 0)
                },
            },
    {
        proof {
            use_type_invariant(&*self);
        }
        if self.data.len() - self.pos < MESSAGE_HEADER_LENGTH {
            return Err(CodecErr::NotEnoughBytes);
        }
        let header = MessageHeader::read(self.data, self.pos);
        proof {
            let s = self.data@.subrange(self.pos as int, self.pos + 8);
            let rest = self.rest();
            assert(rest.subrange(0, 2) =~= s.subrange(0, 2));
            assert(rest.subrange(2, 4) =~= s.subrange(2, 4));
            assert(rest.subrange(4, 6) =~= s.subrange(4, 6));
            assert(rest.subrange(6, 8) =~= s.subrange(6, 8));
        }
        self.pos = self.pos + MESSAGE_HEADER_LENGTH;
        Ok(header)
    }

    /// Reads a variable-length field: a `u16` length and that many bytes.
    fn read_var_data(&mut self) -> (r: CodecResult<&'d [u8]>)
        ensures
            match r {
                Ok(field) => {
                    &&& parse_var_data(old(self).rest()) == Some(field@)
                    &&& old(self).moved(final(self), 2 + field@.len())
                },
                Err(error) => {
                    &&& error == CodecErr::NotEnoughBytes
                    &&& parse_var_data(old(self).rest()) is None
                    &&& old(self).moved(final(self), 0)
                },
            },
    {
        proof {
            use_type_invariant(&*self);
        }
        let pos = self.pos;
        if self.data.len() - pos < 2 {
            return Err(CodecErr::NotEnoughBytes);
        }
        let count = get_u16(self.data, pos) as usize;
        proof {
            assert(self.rest().subrange(0, 2) =~= self.data@.subrange(pos as int, pos + 2));
        }
        if self.data.len() - pos - 2 < count {
            return Err(CodecErr::NotEnoughBytes);
        }
        let field = slice_subrange(self.data, pos + 2, pos + 2 + count);
        proof {
            assert(self.rest().subrange(2, 2 + count) =~= field@);
        }
        self.pos = pos + 2 + count;
        Ok(field)
    }
}

/// The state of a staged encoder: the buffer and the position in it.
#[derive(Debug)]
pub struct ScratchEncoderData {
    data: Vec<u8>,
    pos: usize,
}

impl ScratchEncoderData {
    /// The buffer as it stands.
    pub closed spec fn bytes(&self) -> Seq<u8> {
        self.data@
    }

    /// The number of bytes encoded so far.
    pub closed spec fn position(&self) -> nat {
        self.pos as nat
    }

    /// The room that is left in the buffer.
    pub open spec fn room(&self) -> int {
        self.bytes().len() - self.position()
    }

    /// `next` is this encoder after `src` has been written at the position.
    pub open spec fn wrote(&self, next: &Self, src: Seq<u8>) -> bool {
        &&& src.len() <= self.room()
        &&& next.position() == self.position() + src.len()
        &&& next.bytes() == self.bytes().take(self.position() as int) + src + self.bytes().skip(
            (self.position() + src.len()) as int,
        )
    }

    /// The bytes encoded so far.
    pub open spec fn written(&self) -> Seq<u8> {
        self.bytes().take(self.position() as int)
    }

    fn new(data: Vec<u8>) -> (scratch: Self)
        ensures
            scratch.bytes() == data@,
            scratch.position() == 0,
    {
        ScratchEncoderData { data, pos: 0 }
    }

    /// Copies `src` into the data buffer and advances the `pos` index to
    /// after the newly-written bytes.
    fn write_slice_without_count(&mut self, src: &[u8]) -> (r: CodecResult<()>)
        ensures
            match r {
                Ok(()) => old(self).wrote(final(self), src@),
                Err(error) => {
                    &&& error == CodecErr::NotEnoughBytes
                    &&& src@.len() > old(self).room()
                    &&& *final(self) == *old(self)
                },
            },
    {
        if self.pos <= self.data.len() && src.len() <= self.data.len() - self.pos {
            copy_into(&mut self.data, self.pos, src);
            self.pos = self.pos + src.len();
            Ok(())
        } else {
            Err(CodecErr::NotEnoughBytes)
        }
    }

    /// Writes a variable-length field: a `u16` length and the bytes.
    fn write_var_data(&mut self, src: &[u8]) -> (r: CodecResult<()>)
        ensures
            match r {
                Ok(()) => {
                    &&& src@.len() <= MAX_VAR_DATA_LENGTH
                    &&& old(self).wrote(final(self), var_data(src@))
                },
                Err(error) => {
                    &&& *final(self) == *old(self)
                    &&& if src@.len() > MAX_VAR_DATA_LENGTH {
                        error == CodecErr::SliceIsLongerThanAllowedBySchema
                    } else {
                        error == CodecErr::NotEnoughBytes && 2 + src@.len() > old(self).room()
                    }
                },
            },
    {
        let l = src.len();
        if l > MAX_VAR_DATA_LENGTH {
            return Err(CodecErr::SliceIsLongerThanAllowedBySchema);
        }
        if self.pos > self.data.len() || l + 2 > self.data.len() - self.pos {
            return Err(CodecErr::NotEnoughBytes);
        }
        // Write data length
        let mut field = u16_bytes(l as u16);
        proof {
            lemma_le_bytes_len(l as nat, 2);
        }
        let ghost prefix = field@;
        let mut i: usize = 0;
        while i < l
            invariant
                i <= l,
                l == src@.len(),
                field@ == prefix + src@.take(i as int),
            decreases l - i,
        {
            field.push(src[i]);
            i = i + 1;
            proof {
                assert(src@.take(i as int) =~= src@.take(i - 1).push(src@[i - 1]));
            }
        }
        proof {
            assert(src@.take(l as int) =~= src@);
        }
        self.write_slice_without_count(field.as_slice())
    }

    fn position_value(&self) -> (pos: usize)
        ensures
            pos == self.position(),
    {
        self.pos
    }

    fn into_data(self) -> (data: Vec<u8>)
        ensures
            data@ == self.bytes(),
    {
        self.data
    }
}

/// The fixed block of an `ErrorResponse`.
#[derive(Debug, PartialEq, Eq, Clone, Copy, Structural)]
pub struct ErrorResponseFields {
    pub error_code: ErrorCode,
}

impl ErrorResponseFields {
    /// The 1 byte of the block on the wire.
    pub open spec fn bytes(&self) -> Seq<u8> {
        seq![self.error_code.code()]
    }

    /// The block that the first 1 byte of `s` spells.
    pub open spec fn parse(s: Seq<u8>) -> CodecResult<ErrorResponseFields>
        recommends
            s.len() >= 1,
    {
        match ErrorCode::of_code(s[0]) {
            None => Err(CodecErr::UnknownEnum(EnumKind::ErrorCode, s[0] as u64)),
            Some(error_code) => Ok(
                ErrorResponseFields {
                    error_code,
                },
            ),
        }
    }

    /// The block as bytes.
    pub fn to_vec(&self) -> (out: Vec<u8>)
        ensures
            out@ == self.bytes(),
            out@.len() == 1,
    {
        let mut out: Vec<u8> = Vec::new();
        out.push(self.error_code.to_u8());
        proof {
            assert(out@ =~= self.bytes());
        }
        out
    }

    /// The block at `data[pos..pos + 1]`.
    pub fn read(data: &[u8], pos: usize) -> (r: CodecResult<ErrorResponseFields>)
        requires
            pos + 1 <= data.len(),
        ensures
            r == ErrorResponseFields::parse(data@.subrange(pos as int, pos + 1)),
    {
        let error_code = match ErrorCode::from_u8(data[pos]) {
            Some(error_code) => error_code,
            None => {
                return Err(CodecErr::UnknownEnum(EnumKind::ErrorCode, data[pos] as u64));
            },
        };
        Ok(
            ErrorResponseFields {
                error_code,
            },
        )
    }

    /// A block reads back as itself.
    pub proof fn lemma_parse_bytes(self)
        ensures
            self.bytes().len() == 1,
            ErrorResponseFields::parse(self.bytes()) == Ok::<ErrorResponseFields, CodecErr>(self),
    {
        let s = self.bytes();
        assert(s[0] == self.error_code.code());
    }
}

/// The message header of an `ErrorResponse`.
#[derive(Debug, PartialEq, Eq, Clone, Copy, Structural)]
pub struct ErrorResponseMessageHeader {
    pub message_header: MessageHeader,
}

impl ErrorResponseMessageHeader {
    /// The header that every ErrorResponse message carries.
    pub open spec fn canonical() -> MessageHeader {
        MessageHeader { block_length: 1, template_id: 0, schema_id: 0, version: 1 }
    }
}

impl Default for ErrorResponseMessageHeader {
    fn default() -> (header: ErrorResponseMessageHeader)
        ensures
            header.message_header == ErrorResponseMessageHeader::canonical(),
    {
        ErrorResponseMessageHeader {
            message_header: MessageHeader {
                block_length: 1u16,
                template_id: 0u16,
                schema_id: 0u16,
                version: 1u16,
            },
        }
    }
}

/// The decoder of an `ErrorResponse` after its last part.
#[derive(Debug)]
pub struct ErrorResponseDecoderDone<'d> {
    scratch: ScratchDecoderData<'d>,
}

impl<'d> ErrorResponseDecoderDone<'d> {
    /// The state of the coder at this stage.
    pub closed spec fn scratch(&self) -> ScratchDecoderData<'d> {
        self.scratch
    }

    fn wrap(scratch: ScratchDecoderData<'d>) -> (stage: ErrorResponseDecoderDone<'d>)
        ensures
            stage.scratch() == scratch,
    {
        ErrorResponseDecoderDone { scratch }
    }

    /// The number of bytes decoded.
    pub fn unwrap(self) -> (n: usize)
        ensures
            n == self.scratch().position(),
            n <= self.scratch().bytes().len(),
    {
        self.scratch.position_value()
    }
}

/// The decoder of an `ErrorResponse` in front of the field `failedRequest`.
#[derive(Debug)]
pub struct ErrorResponseFailedRequestDecoder<'d> {
    scratch: ScratchDecoderData<'d>,
}

impl<'d> ErrorResponseFailedRequestDecoder<'d> {
    /// The state of the coder at this stage.
    pub closed spec fn scratch(&self) -> ScratchDecoderData<'d> {
        self.scratch
    }

    fn wrap(scratch: ScratchDecoderData<'d>) -> (stage: ErrorResponseFailedRequestDecoder<'d>)
        ensures
            stage.scratch() == scratch,
    {
        ErrorResponseFailedRequestDecoder { scratch }
    }

    /// Reads the field `failedRequest`: a `u16` length and that many bytes.
    ///
    /// Fails with `NotEnoughBytes` when the length or the bytes it announces
    /// are not all there.
    pub fn failed_request(self) -> (r: CodecResult<(&'d [u8], ErrorResponseDecoderDone<'d>)>)
        ensures
            match r {
                Ok((field, next)) => {
                    &&& parse_var_data(self.scratch().rest()) == Some(field@)
                    &&& self.scratch().moved(&next.scratch(), 2 + field@.len())
                },
                Err(error) => {
                    &&& error == CodecErr::NotEnoughBytes
                    &&& parse_var_data(self.scratch().rest()) is None
                },
            },
    {
        let mut scratch = self.scratch;
        match scratch.read_var_data() {
            Ok(field) => Ok((field, ErrorResponseDecoderDone::wrap(scratch))),
            Err(error) => Err(error),
        }
    }
}

/// The decoder of an `ErrorResponse` in front of the field `errorData`.
#[derive(Debug)]
pub struct ErrorResponseErrorDataDecoder<'d> {
    scratch: ScratchDecoderData<'d>,
}

impl<'d> ErrorResponseErrorDataDecoder<'d> {
    /// The state of the coder at this stage.
    pub closed spec fn scratch(&self) -> ScratchDecoderData<'d> {
        self.scratch
    }

    fn wrap(scratch: ScratchDecoderData<'d>) -> (stage: ErrorResponseErrorDataDecoder<'d>)
        ensures
            stage.scratch() == scratch,
    {
        ErrorResponseErrorDataDecoder { scratch }
    }

    /// Reads the field `errorData`: a `u16` length and that many bytes.
    ///
    /// Fails with `NotEnoughBytes` when the length or the bytes it announces
    /// are not all there.
    pub fn error_data(self) -> (r: CodecResult<(&'d [u8], ErrorResponseFailedRequestDecoder<'d>)>)
        ensures
            match r {
                Ok((field, next)) => {
                    &&& parse_var_data(self.scratch().rest()) == Some(field@)
                    &&& self.scratch().moved(&next.scratch(), 2 + field@.len())
                },
                Err(error) => {
                    &&& error == CodecErr::NotEnoughBytes
                    &&& parse_var_data(self.scratch().rest()) is None
                },
            },
    {
        let mut scratch = self.scratch;
        match scratch.read_var_data() {
            Ok(field) => Ok((field, ErrorResponseFailedRequestDecoder::wrap(scratch))),
            Err(error) => Err(error),
        }
    }
}

/// The decoder of an `ErrorResponse` in front of the fixed block.
#[derive(Debug)]
pub struct ErrorResponseFieldsDecoder<'d> {
    scratch: ScratchDecoderData<'d>,
    block_length: u16,
}

impl<'d> ErrorResponseFieldsDecoder<'d> {
    /// The state of the coder at this stage.
    pub closed spec fn scratch(&self) -> ScratchDecoderData<'d> {
        self.scratch
    }

    /// The block length that the message header declared.
    pub closed spec fn block_length(&self) -> u16 {
        self.block_length
    }

    fn wrap(scratch: ScratchDecoderData<'d>, block_length: u16)
        -> (stage: ErrorResponseFieldsDecoder<'d>)
        ensures
            stage.scratch() == scratch,
            stage.block_length() == block_length,
    {
        ErrorResponseFieldsDecoder { scratch, block_length }
    }

    /// Reads the fixed block.
    ///
    /// The block is as long as the message header declared. Its first
    /// 1 byte is read and the rest is skipped. Fails with `NotEnoughBytes`
    /// when the header declared less than 1 byte or the block is not
    /// all there, and with `UnknownEnum` when a byte names no variant.
    pub fn error_response_fields(self)
        -> (r: CodecResult<(ErrorResponseFields, ErrorResponseErrorDataDecoder<'d>)>)
        ensures
            match r {
                Ok((fields, next)) => {
                    &&& self.block_length() >= 1
                    &&& ErrorResponseFields::parse(self.scratch().rest().take(1))
                        == Ok::<ErrorResponseFields, CodecErr>(fields)
                    &&& self.scratch().moved(&next.scratch(), self.block_length() as nat)
                },
                Err(error) => if self.block_length() < 1 || self.scratch().rest().len()
                    < self.block_length() {
                    error == CodecErr::NotEnoughBytes
                } else {
                    ErrorResponseFields::parse(self.scratch().rest().take(1))
                        == Err::<ErrorResponseFields, CodecErr>(error)
                },
            },
    {
        let mut scratch = self.scratch;
        let block_length = self.block_length as usize;
        if block_length < 1 || scratch.remaining() < block_length {
            return Err(CodecErr::NotEnoughBytes);
        }
        let pos = scratch.position_value();
        proof {
            assert(scratch.rest().take(1) =~= scratch.bytes().subrange(pos as int, pos + 1));
        }
        let fields = match ErrorResponseFields::read(scratch.data(), pos) {
            Ok(fields) => fields,
            Err(error) => {
                return Err(error);
            },
        };
        match scratch.skip_bytes(block_length) {
            Ok(()) => Ok((fields, ErrorResponseErrorDataDecoder::wrap(scratch))),
            Err(error) => Err(error),
        }
    }
}

/// The decoder of an `ErrorResponse` in front of the message header.
#[derive(Debug)]
pub struct ErrorResponseMessageHeaderDecoder<'d> {
    scratch: ScratchDecoderData<'d>,
}

impl<'d> ErrorResponseMessageHeaderDecoder<'d> {
    /// The state of the coder at this stage.
    pub closed spec fn scratch(&self) -> ScratchDecoderData<'d> {
        self.scratch
    }

    fn wrap(scratch: ScratchDecoderData<'d>) -> (stage: ErrorResponseMessageHeaderDecoder<'d>)
        ensures
            stage.scratch() == scratch,
    {
        ErrorResponseMessageHeaderDecoder { scratch }
    }

    /// Reads the message header, whatever template it names.
    ///
    /// Fails with `NotEnoughBytes` when fewer than 8 bytes are left.
    pub fn header(self) -> (r: CodecResult<(MessageHeader, ErrorResponseFieldsDecoder<'d>)>)
        ensures
            match r {
                Ok((header, next)) => {
                    &&& header == MessageHeader::parse(self.scratch().rest())
                    &&& self.scratch().moved(&next.scratch(), 8)
                    &&& next.block_length() == header.block_length
                },
                Err(error) => {
                    &&& error == CodecErr::NotEnoughBytes
                    &&& self.scratch().rest().len() < 8
                },
            },
    {
        let mut scratch = self.scratch;
        match scratch.read_message_header() {
            Ok(header) => Ok((header,
                ErrorResponseFieldsDecoder::wrap(scratch, header.block_length))),
            Err(error) => Err(error),
        }
    }
}

/// Starts to decode an `ErrorResponse` at the front of `data`.
pub fn start_decoding_error_response<'d>(data: &'d [u8])
    -> (decoder: ErrorResponseMessageHeaderDecoder<'d>)
    ensures
        decoder.scratch().bytes() == data@,
        decoder.scratch().position() == 0,
{
    ErrorResponseMessageHeaderDecoder::wrap(ScratchDecoderData::new(data))
}

/// The encoder of an `ErrorResponse` after its last part.
#[derive(Debug)]
pub struct ErrorResponseEncoderDone {
    scratch: ScratchEncoderData,
}

impl ErrorResponseEncoderDone {
    /// The state of the coder at this stage.
    pub closed spec fn scratch(&self) -> ScratchEncoderData {
        self.scratch
    }

    fn wrap(scratch: ScratchEncoderData) -> (stage: ErrorResponseEncoderDone)
        ensures
            stage.scratch() == scratch,
    {
        ErrorResponseEncoderDone { scratch }
    }

    /// The number of bytes encoded, and the buffer that holds them.
    pub fn unwrap(self) -> (r: (usize, Vec<u8>))
        ensures
            r.0 == self.scratch().position(),
            r.1@ == self.scratch().bytes(),
    {
        let position = self.scratch.position_value();
        (position, self.scratch.into_data())
    }
}

/// The encoder of an `ErrorResponse` in front of the field `failedRequest`.
#[derive(Debug)]
pub struct ErrorResponseFailedRequestEncoder {
    scratch: ScratchEncoderData,
}

impl ErrorResponseFailedRequestEncoder {
    /// The state of the coder at this stage.
    pub closed spec fn scratch(&self) -> ScratchEncoderData {
        self.scratch
    }

    fn wrap(scratch: ScratchEncoderData) -> (stage: ErrorResponseFailedRequestEncoder)
        ensures
            stage.scratch() == scratch,
    {
        ErrorResponseFailedRequestEncoder { scratch }
    }

    /// Writes the field `failedRequest`: its length as a `u16`, then its bytes.
    ///
    /// Fails with `SliceIsLongerThanAllowedBySchema` when `s` is longer than
    /// 65534 bytes, else with `NotEnoughBytes` when the buffer has no room
    /// for the length and the bytes.
    pub fn failed_request(self, s: &[u8]) -> (r: CodecResult<ErrorResponseEncoderDone>)
        ensures
            match r {
                Ok(next) => {
                    &&& s@.len() <= MAX_VAR_DATA_LENGTH
                    &&& self.scratch().wrote(&next.scratch(), var_data(s@))
                },
                Err(error) => if s@.len() > MAX_VAR_DATA_LENGTH {
                    error == CodecErr::SliceIsLongerThanAllowedBySchema
                } else {
                    error == CodecErr::NotEnoughBytes && 2 + s@.len() > self.scratch().room()
                },
            },
    {
        let mut scratch = self.scratch;
        match scratch.write_var_data(s) {
            Ok(()) => Ok(ErrorResponseEncoderDone::wrap(scratch)),
            Err(error) => Err(error),
        }
    }
}

/// The encoder of an `ErrorResponse` in front of the field `errorData`.
#[derive(Debug)]
pub struct ErrorResponseErrorDataEncoder {
    scratch: ScratchEncoderData,
}

impl ErrorResponseErrorDataEncoder {
    /// The state of the coder at this stage.
    pub closed spec fn scratch(&self) -> ScratchEncoderData {
        self.scratch
    }

    fn wrap(scratch: ScratchEncoderData) -> (stage: ErrorResponseErrorDataEncoder)
        ensures
            stage.scratch() == scratch,
    {
        ErrorResponseErrorDataEncoder { scratch }
    }

    /// Writes the field `errorData`: its length as a `u16`, then its bytes.
    ///
    /// Fails with `SliceIsLongerThanAllowedBySchema` when `s` is longer than
    /// 65534 bytes, else with `NotEnoughBytes` when the buffer has no room
    /// for the length and the bytes.
    pub fn error_data(self, s: &[u8]) -> (r: CodecResult<ErrorResponseFailedRequestEncoder>)
        ensures
            match r {
                Ok(next) => {
                    &&& s@.len() <= MAX_VAR_DATA_LENGTH
                    &&& self.scratch().wrote(&next.scratch(), var_data(s@))
                },
                Err(error) => if s@.len() > MAX_VAR_DATA_LENGTH {
                    error == CodecErr::SliceIsLongerThanAllowedBySchema
                } else {
                    error == CodecErr::NotEnoughBytes && 2 + s@.len() > self.scratch().room()
                },
            },
    {
        let mut scratch = self.scratch;
        match scratch.write_var_data(s) {
            Ok(()) => Ok(ErrorResponseFailedRequestEncoder::wrap(scratch)),
            Err(error) => Err(error),
        }
    }
}

/// The encoder of an `ErrorResponse` in front of the fixed block.
#[derive(Debug)]
pub struct ErrorResponseFieldsEncoder {
    scratch: ScratchEncoderData,
}

impl ErrorResponseFieldsEncoder {
    /// The state of the coder at this stage.
    pub closed spec fn scratch(&self) -> ScratchEncoderData {
        self.scratch
    }

    fn wrap(scratch: ScratchEncoderData) -> (stage: ErrorResponseFieldsEncoder)
        ensures
            stage.scratch() == scratch,
    {
        ErrorResponseFieldsEncoder { scratch }
    }

    /// Writes the fixed block.
    ///
    /// Fails with `NotEnoughBytes` when the buffer has less than 1 byte of
    /// room.
    pub fn error_response_fields(self, fields: ErrorResponseFields)
        -> (r: CodecResult<ErrorResponseErrorDataEncoder>)
        ensures
            match r {
                Ok(next) => self.scratch().wrote(&next.scratch(), fields.bytes()),
                Err(error) => error == CodecErr::NotEnoughBytes && self.scratch().room() < 1,
            },
    {
        self.error_response_fields_copy(&fields)
    }

    /// Writes the fixed block, taken by reference.
    pub fn error_response_fields_copy(self, t: &ErrorResponseFields)
        -> (r: CodecResult<ErrorResponseErrorDataEncoder>)
        ensures
            match r {
                Ok(next) => self.scratch().wrote(&next.scratch(), t.bytes()),
                Err(error) => error == CodecErr::NotEnoughBytes && self.scratch().room() < 1,
            },
    {
        let mut scratch = self.scratch;
        let bytes = t.to_vec();
        match scratch.write_slice_without_count(bytes.as_slice()) {
            Ok(()) => Ok(ErrorResponseErrorDataEncoder::wrap(scratch)),
            Err(error) => Err(error),
        }
    }
}

/// The encoder of an `ErrorResponse` in front of the message header.
#[derive(Debug)]
pub struct ErrorResponseMessageHeaderEncoder {
    scratch: ScratchEncoderData,
}

impl ErrorResponseMessageHeaderEncoder {
    /// The state of the coder at this stage.
    pub closed spec fn scratch(&self) -> ScratchEncoderData {
        self.scratch
    }

    fn wrap(scratch: ScratchEncoderData) -> (stage: ErrorResponseMessageHeaderEncoder)
        ensures
            stage.scratch() == scratch,
    {
        ErrorResponseMessageHeaderEncoder { scratch }
    }

    /// Writes the header that every ErrorResponse message carries, and hands it
    /// back beside the next stage.
    ///
    /// Fails with `NotEnoughBytes` when the buffer has less than 8 bytes of
    /// room.
    pub fn header(self) -> (r: CodecResult<(MessageHeader, ErrorResponseFieldsEncoder)>)
        ensures
            match r {
                Ok((header, next)) => {
                    &&& header == ErrorResponseMessageHeader::canonical()
                    &&& self.scratch().wrote(&next.scratch(), header.bytes())
                },
                Err(error) => error == CodecErr::NotEnoughBytes && self.scratch().room() < 8,
            },
    {
        let header = ErrorResponseMessageHeader::default().message_header;
        match self.header_copy(&header) {
            Ok(next) => Ok((header, next)),
            Err(error) => Err(error),
        }
    }

    /// Writes a message header of the caller's making.
    pub fn header_copy(self, t: &MessageHeader) -> (r: CodecResult<ErrorResponseFieldsEncoder>)
        ensures
            match r {
                Ok(next) => self.scratch().wrote(&next.scratch(), t.bytes()),
                Err(error) => error == CodecErr::NotEnoughBytes && self.scratch().room() < 8,
            },
    {
        let mut scratch = self.scratch;
        let bytes = t.to_vec();
        match scratch.write_slice_without_count(bytes.as_slice()) {
            Ok(()) => Ok(ErrorResponseFieldsEncoder::wrap(scratch)),
            Err(error) => Err(error),
        }
    }
}

/// Starts to encode an `ErrorResponse` at the front of the buffer `data`, which
/// is not made longer.
pub fn start_encoding_error_response(data: Vec<u8>) -> (encoder: ErrorResponseMessageHeaderEncoder)
    ensures
        encoder.scratch().bytes() == data@,
        encoder.scratch().position() == 0,
{
    ErrorResponseMessageHeaderEncoder::wrap(ScratchEncoderData::new(data))
}

/// The fixed block of an `ExecuteCommandRequest`.
#[derive(Debug, PartialEq, Eq, Clone, Copy, Structural)]
pub struct ExecuteCommandRequestFields {
    pub partition_id: u16,
    pub position: u64,
    pub key: u64,
    pub event_type: EventType,
}

impl ExecuteCommandRequestFields {
    /// The 19 bytes of the block on the wire.
    pub open spec fn bytes(&self) -> Seq<u8> {
        le_bytes(self.partition_id as nat, 2)
            + le_bytes(self.position as nat, 8)
            + le_bytes(self.key as nat, 8)
            + seq![self.event_type.code()]
    }

    /// The block that the first 19 bytes of `s` spell.
    pub open spec fn parse(s: Seq<u8>) -> CodecResult<ExecuteCommandRequestFields>
        recommends
            s.len() >= 19,
    {
        match EventType::of_code(s[18]) {
            None => Err(CodecErr::UnknownEnum(EnumKind::EventType, s[18] as u64)),
            Some(event_type) => Ok(
                ExecuteCommandRequestFields {
                    partition_id: le_nat(s.subrange(0, 2)) as u16,
                    position: le_nat(s.subrange(2, 10)) as u64,
                    key: le_nat(s.subrange(10, 18)) as u64,
                    event_type,
                },
            ),
        }
    }

    /// The block as bytes.
    pub fn to_vec(&self) -> (out: Vec<u8>)
        ensures
            out@ == self.bytes(),
            out@.len() == 19,
    {
        let mut out: Vec<u8> = Vec::new();
        let mut part = u16_bytes(self.partition_id);
        out.append(&mut part);
        let mut part = u64_bytes(self.position);
        out.append(&mut part);
        let mut part = u64_bytes(self.key);
        out.append(&mut part);
        out.push(self.event_type.to_u8());
        proof {
            lemma_le_bytes_len(self.partition_id as nat, 2);
            lemma_le_bytes_len(self.position as nat, 8);
            lemma_le_bytes_len(self.key as nat, 8);
            assert(out@ =~= self.bytes());
        }
        out
    }

    /// The block at `data[pos..pos + 19]`.
    pub fn read(data: &[u8], pos: usize) -> (r: CodecResult<ExecuteCommandRequestFields>)
        requires
            pos + 19 <= data.len(),
        ensures
            r == ExecuteCommandRequestFields::parse(data@.subrange(pos as int, pos + 19)),
    {
        proof {
            let s = data@.subrange(pos as int, pos + 19);
            assert(s.subrange(0, 2) =~= data@.subrange(pos as int, pos + 2));
            assert(s.subrange(2, 10) =~= data@.subrange(pos + 2, pos + 10));
            assert(s.subrange(10, 18) =~= data@.subrange(pos + 10, pos + 18));
        }
        let event_type = match EventType::from_u8(data[pos + 18]) {
            Some(event_type) => event_type,
            None => {
                return Err(CodecErr::UnknownEnum(EnumKind::EventType, data[pos + 18] as u64));
            },
        };
        Ok(
            ExecuteCommandRequestFields {
                partition_id: get_u16(data, pos),
                position: get_u64(data, pos + 2),
                key: get_u64(data, pos + 10),
                event_type,
            },
        )
    }

    /// A block reads back as itself.
    pub proof fn lemma_parse_bytes(self)
        ensures
            self.bytes().len() == 19,
            ExecuteCommandRequestFields::parse(self.bytes())
                == Ok::<ExecuteCommandRequestFields, CodecErr>(self),
    {
        let s = self.bytes();
        lemma_pow256_values();
        lemma_le_bytes_len(self.partition_id as nat, 2);
        lemma_le_bytes_len(self.position as nat, 8);
        lemma_le_bytes_len(self.key as nat, 8);
        assert(s.subrange(0, 2) =~= le_bytes(self.partition_id as nat, 2));
        lemma_le_nat_of_le_bytes(self.partition_id as nat, 2);
        assert(s.subrange(2, 10) =~= le_bytes(self.position as nat, 8));
        lemma_le_nat_of_le_bytes(self.position as nat, 8);
        assert(s.subrange(10, 18) =~= le_bytes(self.key as nat, 8));
        lemma_le_nat_of_le_bytes(self.key as nat, 8);
        assert(s[18] == self.event_type.code());
    }
}

/// The message header of an `ExecuteCommandRequest`.
#[derive(Debug, PartialEq, Eq, Clone, Copy, Structural)]
pub struct ExecuteCommandRequestMessageHeader {
    pub message_header: MessageHeader,
}

impl ExecuteCommandRequestMessageHeader {
    /// The header that every ExecuteCommandRequest message carries.
    pub open spec fn canonical() -> MessageHeader {
        MessageHeader { block_length: 19, template_id: 20, schema_id: 0, version: 1 }
    }
}

impl Default for ExecuteCommandRequestMessageHeader {
    fn default() -> (header: ExecuteCommandRequestMessageHeader)
        ensures
            header.message_header == ExecuteCommandRequestMessageHeader::canonical(),
    {
        ExecuteCommandRequestMessageHeader {
            message_header: MessageHeader {
                block_length: 19u16,
                template_id: 20u16,
                schema_id: 0u16,
                version: 1u16,
            },
        }
    }
}

/// The decoder of an `ExecuteCommandRequest` after its last part.
#[derive(Debug)]
pub struct ExecuteCommandRequestDecoderDone<'d> {
    scratch: ScratchDecoderData<'d>,
}

impl<'d> ExecuteCommandRequestDecoderDone<'d> {
    /// The state of the coder at this stage.
    pub closed spec fn scratch(&self) -> ScratchDecoderData<'d> {
        self.scratch
    }

    fn wrap(scratch: ScratchDecoderData<'d>) -> (stage: ExecuteCommandRequestDecoderDone<'d>)
        ensures
            stage.scratch() == scratch,
    {
        ExecuteCommandRequestDecoderDone { scratch }
    }

    /// The number of bytes decoded.
    pub fn unwrap(self) -> (n: usize)
        ensures
            n == self.scratch().position(),
            n <= self.scratch().bytes().len(),
    {
        self.scratch.position_value()
    }
}

/// The decoder of an `ExecuteCommandRequest` in front of the field `command`.
#[derive(Debug)]
pub struct ExecuteCommandRequestCommandDecoder<'d> {
    scratch: ScratchDecoderData<'d>,
}

impl<'d> ExecuteCommandRequestCommandDecoder<'d> {
    /// The state of the coder at this stage.
    pub closed spec fn scratch(&self) -> ScratchDecoderData<'d> {
        self.scratch
    }

    fn wrap(scratch: ScratchDecoderData<'d>) -> (stage: ExecuteCommandRequestCommandDecoder<'d>)
        ensures
            stage.scratch() == scratch,
    {
        ExecuteCommandRequestCommandDecoder { scratch }
    }

    /// Reads the field `command`: a `u16` length and that many bytes.
    ///
    /// Fails with `NotEnoughBytes` when the length or the bytes it announces
    /// are not all there.
    pub fn command(self) -> (r: CodecResult<(&'d [u8], ExecuteCommandRequestDecoderDone<'d>)>)
        ensures
            match r {
                Ok((field, next)) => {
                    &&& parse_var_data(self.scratch().rest()) == Some(field@)
                    &&& self.scratch().moved(&next.scratch(), 2 + field@.len())
                },
                Err(error) => {
                    &&& error == CodecErr::NotEnoughBytes
                    &&& parse_var_data(self.scratch().rest()) is None
                },
            },
    {
        let mut scratch = self.scratch;
        match scratch.read_var_data() {
            Ok(field) => Ok((field, ExecuteCommandRequestDecoderDone::wrap(scratch))),
            Err(error) => Err(error),
        }
    }
}

/// The decoder of an `ExecuteCommandRequest` in front of the field `topicName`.
#[derive(Debug)]
pub struct ExecuteCommandRequestTopicNameDecoder<'d> {
    scratch: ScratchDecoderData<'d>,
}

impl<'d> ExecuteCommandRequestTopicNameDecoder<'d> {
    /// The state of the coder at this stage.
    pub closed spec fn scratch(&self) -> ScratchDecoderData<'d> {
        self.scratch
    }

    fn wrap(scratch: ScratchDecoderData<'d>) -> (stage: ExecuteCommandRequestTopicNameDecoder<'d>)
        ensures
            stage.scratch() == scratch,
    {
        ExecuteCommandRequestTopicNameDecoder { scratch }
    }

    /// Reads the field `topicName`: a `u16` length and that many bytes.
    ///
    /// Fails with `NotEnoughBytes` when the length or the bytes it announces
    /// are not all there.
    pub fn topic_name(self) -> (r: CodecResult<(&'d [u8], ExecuteCommandRequestCommandDecoder<'d>)>)
        ensures
            match r {
                Ok((field, next)) => {
                    &&& parse_var_data(self.scratch().rest()) == Some(field@)
                    &&& self.scratch().moved(&next.scratch(), 2 + field@.len())
                },
                Err(error) => {
                    &&& error == CodecErr::NotEnoughBytes
                    &&& parse_var_data(self.scratch().rest()) is None
                },
            },
    {
        let mut scratch = self.scratch;
        match scratch.read_var_data() {
            Ok(field) => Ok((field, ExecuteCommandRequestCommandDecoder::wrap(scratch))),
            Err(error) => Err(error),
        }
    }
}

/// The decoder of an `ExecuteCommandRequest` in front of the fixed block.
#[derive(Debug)]
pub struct ExecuteCommandRequestFieldsDecoder<'d> {
    scratch: ScratchDecoderData<'d>,
    block_length: u16,
}

impl<'d> ExecuteCommandRequestFieldsDecoder<'d> {
    /// The state of the coder at this stage.
    pub closed spec fn scratch(&self) -> ScratchDecoderData<'d> {
        self.scratch
    }

    /// The block length that the message header declared.
    pub closed spec fn block_length(&self) -> u16 {
        self.block_length
    }

    fn wrap(scratch: ScratchDecoderData<'d>, block_length: u16)
        -> (stage: ExecuteCommandRequestFieldsDecoder<'d>)
        ensures
            stage.scratch() == scratch,
            stage.block_length() == block_length,
    {
        ExecuteCommandRequestFieldsDecoder { scratch, block_length }
    }

    /// Reads the fixed block.
    ///
    /// The block is as long as the message header declared. Its first
    /// 19 bytes are read and the rest is skipped. Fails with `NotEnoughBytes`
    /// when the header declared less than 19 bytes or the block is not
    /// all there, and with `UnknownEnum` when a byte names no variant.
    pub fn execute_command_request_fields(self)
        -> (r: CodecResult<(ExecuteCommandRequestFields,
        ExecuteCommandRequestTopicNameDecoder<'d>)>)
        ensures
            match r {
                Ok((fields, next)) => {
                    &&& self.block_length() >= 19
                    &&& ExecuteCommandRequestFields::parse(self.scratch().rest().take(19))
                        == Ok::<ExecuteCommandRequestFields, CodecErr>(fields)
                    &&& self.scratch().moved(&next.scratch(), self.block_length() as nat)
                },
                Err(error) => if self.block_length() < 19 || self.scratch().rest().len()
                    < self.block_length() {
                    error == CodecErr::NotEnoughBytes
                } else {
                    ExecuteCommandRequestFields::parse(self.scratch().rest().take(19))
                        == Err::<ExecuteCommandRequestFields, CodecErr>(error)
                },
            },
    {
        let mut scratch = self.scratch;
        let block_length = self.block_length as usize;
        if block_length < 19 || scratch.remaining() < block_length {
            return Err(CodecErr::NotEnoughBytes);
        }
        let pos = scratch.position_value();
        proof {
            assert(scratch.rest().take(19) =~= scratch.bytes().subrange(pos as int, pos + 19));
        }
        let fields = match ExecuteCommandRequestFields::read(scratch.data(), pos) {
            Ok(fields) => fields,
            Err(error) => {
                return Err(error);
            },
        };
        match scratch.skip_bytes(block_length) {
            Ok(()) => Ok((fields, ExecuteCommandRequestTopicNameDecoder::wrap(scratch))),
            Err(error) => Err(error),
        }
    }
}

/// The decoder of an `ExecuteCommandRequest` in front of the message header.
#[derive(Debug)]
pub struct ExecuteCommandRequestMessageHeaderDecoder<'d> {
    scratch: ScratchDecoderData<'d>,
}

impl<'d> ExecuteCommandRequestMessageHeaderDecoder<'d> {
    /// The state of the coder at this stage.
    pub closed spec fn scratch(&self) -> ScratchDecoderData<'d> {
        self.scratch
    }

    fn wrap(scratch: ScratchDecoderData<'d>)
        -> (stage: ExecuteCommandRequestMessageHeaderDecoder<'d>)
        ensures
            stage.scratch() == scratch,
    {
        ExecuteCommandRequestMessageHeaderDecoder { scratch }
    }

    /// Reads the message header, whatever template it names.
    ///
    /// Fails with `NotEnoughBytes` when fewer than 8 bytes are left.
    pub fn header(self) -> (r: CodecResult<(MessageHeader, ExecuteCommandRequestFieldsDecoder<'d>)>)
        ensures
            match r {
                Ok((header, next)) => {
                    &&& header == MessageHeader::parse(self.scratch().rest())
                    &&& self.scratch().moved(&next.scratch(), 8)
                    &&& next.block_length() == header.block_length
                },
                Err(error) => {
                    &&& error == CodecErr::NotEnoughBytes
                    &&& self.scratch().rest().len() < 8
                },
            },
    {
        let mut scratch = self.scratch;
        match scratch.read_message_header() {
            Ok(header) => Ok((header,
                ExecuteCommandRequestFieldsDecoder::wrap(scratch, header.block_length))),
            Err(error) => Err(error),
        }
    }
}

/// Starts to decode an `ExecuteCommandRequest` at the front of `data`.
pub fn start_decoding_execute_command_request<'d>(data: &'d [u8])
    -> (decoder: ExecuteCommandRequestMessageHeaderDecoder<'d>)
    ensures
        decoder.scratch().bytes() == data@,
        decoder.scratch().position() == 0,
{
    ExecuteCommandRequestMessageHeaderDecoder::wrap(ScratchDecoderData::new(data))
}

/// The encoder of an `ExecuteCommandRequest` after its last part.
#[derive(Debug)]
pub struct ExecuteCommandRequestEncoderDone {
    scratch: ScratchEncoderData,
}

impl ExecuteCommandRequestEncoderDone {
    /// The state of the coder at this stage.
    pub closed spec fn scratch(&self) -> ScratchEncoderData {
        self.scratch
    }

    fn wrap(scratch: ScratchEncoderData) -> (stage: ExecuteCommandRequestEncoderDone)
        ensures
            stage.scratch() == scratch,
    {
        ExecuteCommandRequestEncoderDone { scratch }
    }

    /// The number of bytes encoded, and the buffer that holds them.
    pub fn unwrap(self) -> (r: (usize, Vec<u8>))
        ensures
            r.0 == self.scratch().position(),
            r.1@ == self.scratch().bytes(),
    {
        let position = self.scratch.position_value();
        (position, self.scratch.into_data())
    }
}

/// The encoder of an `ExecuteCommandRequest` in front of the field `command`.
#[derive(Debug)]
pub struct ExecuteCommandRequestCommandEncoder {
    scratch: ScratchEncoderData,
}

impl ExecuteCommandRequestCommandEncoder {
    /// The state of the coder at this stage.
    pub closed spec fn scratch(&self) -> ScratchEncoderData {
        self.scratch
    }

    fn wrap(scratch: ScratchEncoderData) -> (stage: ExecuteCommandRequestCommandEncoder)
        ensures
            stage.scratch() == scratch,
    {
        ExecuteCommandRequestCommandEncoder { scratch }
    }

    /// Writes the field `command`: its length as a `u16`, then its bytes.
    ///
    /// Fails with `SliceIsLongerThanAllowedBySchema` when `s` is longer than
    /// 65534 bytes, else with `NotEnoughBytes` when the buffer has no room
    /// for the length and the bytes.
    pub fn command(self, s: &[u8]) -> (r: CodecResult<ExecuteCommandRequestEncoderDone>)
        ensures
            match r {
                Ok(next) => {
                    &&& s@.len() <= MAX_VAR_DATA_LENGTH
                    &&& self.scratch().wrote(&next.scratch(), var_data(s@))
                },
                Err(error) => if s@.len() > MAX_VAR_DATA_LENGTH {
                    error == CodecErr::SliceIsLongerThanAllowedBySchema
                } else {
                    error == CodecErr::NotEnoughBytes && 2 + s@.len() > self.scratch().room()
                },
            },
    {
        let mut scratch = self.scratch;
        match scratch.write_var_data(s) {
            Ok(()) => Ok(ExecuteCommandRequestEncoderDone::wrap(scratch)),
            Err(error) => Err(error),
        }
    }
}

/// The encoder of an `ExecuteCommandRequest` in front of the field `topicName`.
#[derive(Debug)]
pub struct ExecuteCommandRequestTopicNameEncoder {
    scratch: ScratchEncoderData,
}

impl ExecuteCommandRequestTopicNameEncoder {
    /// The state of the coder at this stage.
    pub closed spec fn scratch(&self) -> ScratchEncoderData {
        self.scratch
    }

    fn wrap(scratch: ScratchEncoderData) -> (stage: ExecuteCommandRequestTopicNameEncoder)
        ensures
            stage.scratch() == scratch,
    {
        ExecuteCommandRequestTopicNameEncoder { scratch }
    }

    /// Writes the field `topicName`: its length as a `u16`, then its bytes.
    ///
    /// Fails with `SliceIsLongerThanAllowedBySchema` when `s` is longer than
    /// 65534 bytes, else with `NotEnoughBytes` when the buffer has no room
    /// for the length and the bytes.
    pub fn topic_name(self, s: &[u8]) -> (r: CodecResult<ExecuteCommandRequestCommandEncoder>)
        ensures
            match r {
                Ok(next) => {
                    &&& s@.len() <= MAX_VAR_DATA_LENGTH
                    &&& self.scratch().wrote(&next.scratch(), var_data(s@))
                },
                Err(error) => if s@.len() > MAX_VAR_DATA_LENGTH {
                    error == CodecErr::SliceIsLongerThanAllowedBySchema
                } else {
                    error == CodecErr::NotEnoughBytes && 2 + s@.len() > self.scratch().room()
                },
            },
    {
        let mut scratch = self.scratch;
        match scratch.write_var_data(s) {
            Ok(()) => Ok(ExecuteCommandRequestCommandEncoder::wrap(scratch)),
            Err(error) => Err(error),
        }
    }
}

/// The encoder of an `ExecuteCommandRequest` in front of the fixed block.
#[derive(Debug)]
pub struct ExecuteCommandRequestFieldsEncoder {
    scratch: ScratchEncoderData,
}

impl ExecuteCommandRequestFieldsEncoder {
    /// The state of the coder at this stage.
    pub closed spec fn scratch(&self) -> ScratchEncoderData {
        self.scratch
    }

    fn wrap(scratch: ScratchEncoderData) -> (stage: ExecuteCommandRequestFieldsEncoder)
        ensures
            stage.scratch() == scratch,
    {
        ExecuteCommandRequestFieldsEncoder { scratch }
    }

    /// Writes the fixed block.
    ///
    /// Fails with `NotEnoughBytes` when the buffer has less than 19 bytes of
    /// room.
    pub fn execute_command_request_fields(self, fields: ExecuteCommandRequestFields)
        -> (r: CodecResult<ExecuteCommandRequestTopicNameEncoder>)
        ensures
            match r {
                Ok(next) => self.scratch().wrote(&next.scratch(), fields.bytes()),
                Err(error) => error == CodecErr::NotEnoughBytes && self.scratch().room() < 19,
            },
    {
        self.execute_command_request_fields_copy(&fields)
    }

    /// Writes the fixed block, taken by reference.
    pub fn execute_command_request_fields_copy(self, t: &ExecuteCommandRequestFields)
        -> (r: CodecResult<ExecuteCommandRequestTopicNameEncoder>)
        ensures
            match r {
                Ok(next) => self.scratch().wrote(&next.scratch(), t.bytes()),
                Err(error) => error == CodecErr::NotEnoughBytes && self.scratch().room() < 19,
            },
    {
        let mut scratch = self.scratch;
        let bytes = t.to_vec();
        match scratch.write_slice_without_count(bytes.as_slice()) {
            Ok(()) => Ok(ExecuteCommandRequestTopicNameEncoder::wrap(scratch)),
            Err(error) => Err(error),
        }
    }
}

/// The encoder of an `ExecuteCommandRequest` in front of the message header.
#[derive(Debug)]
pub struct ExecuteCommandRequestMessageHeaderEncoder {
    scratch: ScratchEncoderData,
}

impl ExecuteCommandRequestMessageHeaderEncoder {
    /// The state of the coder at this stage.
    pub closed spec fn scratch(&self) -> ScratchEncoderData {
        self.scratch
    }

    fn wrap(scratch: ScratchEncoderData) -> (stage: ExecuteCommandRequestMessageHeaderEncoder)
        ensures
            stage.scratch() == scratch,
    {
        ExecuteCommandRequestMessageHeaderEncoder { scratch }
    }

    /// Writes the header that every ExecuteCommandRequest message carries, and hands it
    /// back beside the next stage.
    ///
    /// Fails with `NotEnoughBytes` when the buffer has less than 8 bytes of
    /// room.
    pub fn header(self) -> (r: CodecResult<(MessageHeader, ExecuteCommandRequestFieldsEncoder)>)
        ensures
            match r {
                Ok((header, next)) => {
                    &&& header == ExecuteCommandRequestMessageHeader::canonical()
                    &&& self.scratch().wrote(&next.scratch(), header.bytes())
                },
                Err(error) => error == CodecErr::NotEnoughBytes && self.scratch().room() < 8,
            },
    {
        let header = ExecuteCommandRequestMessageHeader::default().message_header;
        match self.header_copy(&header) {
            Ok(next) => Ok((header, next)),
            Err(error) => Err(error),
        }
    }

    /// Writes a message header of the caller's making.
    pub fn header_copy(self, t: &MessageHeader)
        -> (r: CodecResult<ExecuteCommandRequestFieldsEncoder>)
        ensures
            match r {
                Ok(next) => self.scratch().wrote(&next.scratch(), t.bytes()),
                Err(error) => error == CodecErr::NotEnoughBytes && self.scratch().room() < 8,
            },
    {
        let mut scratch = self.scratch;
        let bytes = t.to_vec();
        match scratch.write_slice_without_count(bytes.as_slice()) {
            Ok(()) => Ok(ExecuteCommandRequestFieldsEncoder::wrap(scratch)),
            Err(error) => Err(error),
        }
    }
}

/// Starts to encode an `ExecuteCommandRequest` at the front of the buffer `data`, which
/// is not made longer.
pub fn start_encoding_execute_command_request(data: Vec<u8>)
    -> (encoder: ExecuteCommandRequestMessageHeaderEncoder)
    ensures
        encoder.scratch().bytes() == data@,
        encoder.scratch().position() == 0,
{
    ExecuteCommandRequestMessageHeaderEncoder::wrap(ScratchEncoderData::new(data))
}

/// The fixed block of an `ExecuteCommandResponse`.
#[derive(Debug, PartialEq, Eq, Clone, Copy, Structural)]
pub struct ExecuteCommandResponseFields {
    pub partition_id: u16,
    pub position: u64,
    pub key: u64,
}

impl ExecuteCommandResponseFields {
    /// The 18 bytes of the block on the wire.
    pub open spec fn bytes(&self) -> Seq<u8> {
        le_bytes(self.partition_id as nat, 2)
            + le_bytes(self.position as nat, 8)
            + le_bytes(self.key as nat, 8)
    }

    /// The block that the first 18 bytes of `s` spell.
    pub open spec fn parse(s: Seq<u8>) -> CodecResult<ExecuteCommandResponseFields>
        recommends
            s.len() >= 18,
    {
        Ok(
            ExecuteCommandResponseFields {
                partition_id: le_nat(s.subrange(0, 2)) as u16,
                position: le_nat(s.subrange(2, 10)) as u64,
                key: le_nat(s.subrange(10, 18)) as u64,
            },
        )
    }

    /// The block as bytes.
    pub fn to_vec(&self) -> (out: Vec<u8>)
        ensures
            out@ == self.bytes(),
            out@.len() == 18,
    {
        let mut out: Vec<u8> = Vec::new();
        let mut part = u16_bytes(self.partition_id);
        out.append(&mut part);
        let mut part = u64_bytes(self.position);
        out.append(&mut part);
        let mut part = u64_bytes(self.key);
        out.append(&mut part);
        proof {
            lemma_le_bytes_len(self.partition_id as nat, 2);
            lemma_le_bytes_len(self.position as nat, 8);
            lemma_le_bytes_len(self.key as nat, 8);
            assert(out@ =~= self.bytes());
        }
        out
    }

    /// The block at `data[pos..pos + 18]`.
    pub fn read(data: &[u8], pos: usize) -> (r: CodecResult<ExecuteCommandResponseFields>)
        requires
            pos + 18 <= data.len(),
        ensures
            r == ExecuteCommandResponseFields::parse(data@.subrange(pos as int, pos + 18)),
    {
        proof {
            let s = data@.subrange(pos as int, pos + 18);
            assert(s.subrange(0, 2) =~= data@.subrange(pos as int, pos + 2));
            assert(s.subrange(2, 10) =~= data@.subrange(pos + 2, pos + 10));
            assert(s.subrange(10, 18) =~= data@.subrange(pos + 10, pos + 18));
        }
        Ok(
            ExecuteCommandResponseFields {
                partition_id: get_u16(data, pos),
                position: get_u64(data, pos + 2),
                key: get_u64(data, pos + 10),
            },
        )
    }

    /// A block reads back as itself.
    pub proof fn lemma_parse_bytes(self)
        ensures
            self.bytes().len() == 18,
            ExecuteCommandResponseFields::parse(self.bytes())
                == Ok::<ExecuteCommandResponseFields, CodecErr>(self),
    {
        let s = self.bytes();
        lemma_pow256_values();
        lemma_le_bytes_len(self.partition_id as nat, 2);
        lemma_le_bytes_len(self.position as nat, 8);
        lemma_le_bytes_len(self.key as nat, 8);
        assert(s.subrange(0, 2) =~= le_bytes(self.partition_id as nat, 2));
        lemma_le_nat_of_le_bytes(self.partition_id as nat, 2);
        assert(s.subrange(2, 10) =~= le_bytes(self.position as nat, 8));
        lemma_le_nat_of_le_bytes(self.position as nat, 8);
        assert(s.subrange(10, 18) =~= le_bytes(self.key as nat, 8));
        lemma_le_nat_of_le_bytes(self.key as nat, 8);
    }
}

/// The message header of an `ExecuteCommandResponse`.
#[derive(Debug, PartialEq, Eq, Clone, Copy, Structural)]
pub struct ExecuteCommandResponseMessageHeader {
    pub message_header: MessageHeader,
}

impl ExecuteCommandResponseMessageHeader {
    /// The header that every ExecuteCommandResponse message carries.
    pub open spec fn canonical() -> MessageHeader {
        MessageHeader { block_length: 18, template_id: 21, schema_id: 0, version: 1 }
    }
}

impl Default for ExecuteCommandResponseMessageHeader {
    fn default() -> (header: ExecuteCommandResponseMessageHeader)
        ensures
            header.message_header == ExecuteCommandResponseMessageHeader::canonical(),
    {
        ExecuteCommandResponseMessageHeader {
            message_header: MessageHeader {
                block_length: 18u16,
                template_id: 21u16,
                schema_id: 0u16,
                version: 1u16,
            },
        }
    }
}

/// The decoder of an `ExecuteCommandResponse` after its last part.
#[derive(Debug)]
pub struct ExecuteCommandResponseDecoderDone<'d> {
    scratch: ScratchDecoderData<'d>,
}

impl<'d> ExecuteCommandResponseDecoderDone<'d> {
    /// The state of the coder at this stage.
    pub closed spec fn scratch(&self) -> ScratchDecoderData<'d> {
        self.scratch
    }

    fn wrap(scratch: ScratchDecoderData<'d>) -> (stage: ExecuteCommandResponseDecoderDone<'d>)
        ensures
            stage.scratch() == scratch,
    {
        ExecuteCommandResponseDecoderDone { scratch }
    }

    /// The number of bytes decoded.
    pub fn unwrap(self) -> (n: usize)
        ensures
            n == self.scratch().position(),
            n <= self.scratch().bytes().len(),
    {
        self.scratch.position_value()
    }
}

/// The decoder of an `ExecuteCommandResponse` in front of the field `event`.
#[derive(Debug)]
pub struct ExecuteCommandResponseEventDecoder<'d> {
    scratch: ScratchDecoderData<'d>,
}

impl<'d> ExecuteCommandResponseEventDecoder<'d> {
    /// The state of the coder at this stage.
    pub closed spec fn scratch(&self) -> ScratchDecoderData<'d> {
        self.scratch
    }

    fn wrap(scratch: ScratchDecoderData<'d>) -> (stage: ExecuteCommandResponseEventDecoder<'d>)
        ensures
            stage.scratch() == scratch,
    {
        ExecuteCommandResponseEventDecoder { scratch }
    }

    /// Reads the field `event`: a `u16` length and that many bytes.
    ///
    /// Fails with `NotEnoughBytes` when the length or the bytes it announces
    /// are not all there.
    pub fn event(self) -> (r: CodecResult<(&'d [u8], ExecuteCommandResponseDecoderDone<'d>)>)
        ensures
            match r {
                Ok((field, next)) => {
                    &&& parse_var_data(self.scratch().rest()) == Some(field@)
                    &&& self.scratch().moved(&next.scratch(), 2 + field@.len())
                },
                Err(error) => {
                    &&& error == CodecErr::NotEnoughBytes
                    &&& parse_var_data(self.scratch().rest()) is None
                },
            },
    {
        let mut scratch = self.scratch;
        match scratch.read_var_data() {
            Ok(field) => Ok((field, ExecuteCommandResponseDecoderDone::wrap(scratch))),
            Err(error) => Err(error),
        }
    }
}

/// The decoder of an `ExecuteCommandResponse` in front of the field `topicName`.
#[derive(Debug)]
pub struct ExecuteCommandResponseTopicNameDecoder<'d> {
    scratch: ScratchDecoderData<'d>,
}

impl<'d> ExecuteCommandResponseTopicNameDecoder<'d> {
    /// The state of the coder at this stage.
    pub closed spec fn scratch(&self) -> ScratchDecoderData<'d> {
        self.scratch
    }

    fn wrap(scratch: ScratchDecoderData<'d>) -> (stage: ExecuteCommandResponseTopicNameDecoder<'d>)
        ensures
            stage.scratch() == scratch,
    {
        ExecuteCommandResponseTopicNameDecoder { scratch }
    }

    /// Reads the field `topicName`: a `u16` length and that many bytes.
    ///
    /// Fails with `NotEnoughBytes` when the length or the bytes it announces
    /// are not all there.
    pub fn topic_name(self) -> (r: CodecResult<(&'d [u8], ExecuteCommandResponseEventDecoder<'d>)>)
        ensures
            match r {
                Ok((field, next)) => {
                    &&& parse_var_data(self.scratch().rest()) == Some(field@)
                    &&& self.scratch().moved(&next.scratch(), 2 + field@.len())
                },
                Err(error) => {
                    &&& error == CodecErr::NotEnoughBytes
                    &&& parse_var_data(self.scratch().rest()) is None
                },
            },
    {
        let mut scratch = self.scratch;
        match scratch.read_var_data() {
            Ok(field) => Ok((field, ExecuteCommandResponseEventDecoder::wrap(scratch))),
            Err(error) => Err(error),
        }
    }
}

/// The decoder of an `ExecuteCommandResponse` in front of the fixed block.
#[derive(Debug)]
pub struct ExecuteCommandResponseFieldsDecoder<'d> {
    scratch: ScratchDecoderData<'d>,
    block_length: u16,
}

impl<'d> ExecuteCommandResponseFieldsDecoder<'d> {
    /// The state of the coder at this stage.
    pub closed spec fn scratch(&self) -> ScratchDecoderData<'d> {
        self.scratch
    }

    /// The block length that the message header declared.
    pub closed spec fn block_length(&self) -> u16 {
        self.block_length
    }

    fn wrap(scratch: ScratchDecoderData<'d>, block_length: u16)
        -> (stage: ExecuteCommandResponseFieldsDecoder<'d>)
        ensures
            stage.scratch() == scratch,
            stage.block_length() == block_length,
    {
        ExecuteCommandResponseFieldsDecoder { scratch, block_length }
    }

    /// Reads the fixed block.
    ///
    /// The block is as long as the message header declared. Its first
    /// 18 bytes are read and the rest is skipped. Fails with `NotEnoughBytes`
    /// when the header declared less than 18 bytes or the block is not
    /// all there, and with `UnknownEnum` when a byte names no variant.
    pub fn execute_command_response_fields(self)
        -> (r: CodecResult<(ExecuteCommandResponseFields,
        ExecuteCommandResponseTopicNameDecoder<'d>)>)
        ensures
            match r {
                Ok((fields, next)) => {
                    &&& self.block_length() >= 18
                    &&& ExecuteCommandResponseFields::parse(self.scratch().rest().take(18))
                        == Ok::<ExecuteCommandResponseFields, CodecErr>(fields)
                    &&& self.scratch().moved(&next.scratch(), self.block_length() as nat)
                },
                Err(error) => if self.block_length() < 18 || self.scratch().rest().len()
                    < self.block_length() {
                    error == CodecErr::NotEnoughBytes
                } else {
                    ExecuteCommandResponseFields::parse(self.scratch().rest().take(18))
                        == Err::<ExecuteCommandResponseFields, CodecErr>(error)
                },
            },
    {
        let mut scratch = self.scratch;
        let block_length = self.block_length as usize;
        if block_length < 18 || scratch.remaining() < block_length {
            return Err(CodecErr::NotEnoughBytes);
        }
        let pos = scratch.position_value();
        proof {
            assert(scratch.rest().take(18) =~= scratch.bytes().subrange(pos as int, pos + 18));
        }
        let fields = match ExecuteCommandResponseFields::read(scratch.data(), pos) {
            Ok(fields) => fields,
            Err(error) => {
                return Err(error);
            },
        };
        match scratch.skip_bytes(block_length) {
            Ok(()) => Ok((fields, ExecuteCommandResponseTopicNameDecoder::wrap(scratch))),
            Err(error) => Err(error),
        }
    }
}

/// The decoder of an `ExecuteCommandResponse` in front of the message header.
#[derive(Debug)]
pub struct ExecuteCommandResponseMessageHeaderDecoder<'d> {
    scratch: ScratchDecoderData<'d>,
}

impl<'d> ExecuteCommandResponseMessageHeaderDecoder<'d> {
    /// The state of the coder at this stage.
    pub closed spec fn scratch(&self) -> ScratchDecoderData<'d> {
        self.scratch
    }

    fn wrap(scratch: ScratchDecoderData<'d>)
        -> (stage: ExecuteCommandResponseMessageHeaderDecoder<'d>)
        ensures
            stage.scratch() == scratch,
    {
        ExecuteCommandResponseMessageHeaderDecoder { scratch }
    }

    /// Reads the message header, whatever template it names.
    ///
    /// Fails with `NotEnoughBytes` when fewer than 8 bytes are left.
    pub fn header(self)
        -> (r: CodecResult<(MessageHeader, ExecuteCommandResponseFieldsDecoder<'d>)>)
        ensures
            match r {
                Ok((header, next)) => {
                    &&& header == MessageHeader::parse(self.scratch().rest())
                    &&& self.scratch().moved(&next.scratch(), 8)
                    &&& next.block_length() == header.block_length
                },
                Err(error) => {
                    &&& error == CodecErr::NotEnoughBytes
                    &&& self.scratch().rest().len() < 8
                },
            },
    {
        let mut scratch = self.scratch;
        match scratch.read_message_header() {
            Ok(header) => Ok((header,
                ExecuteCommandResponseFieldsDecoder::wrap(scratch, header.block_length))),
            Err(error) => Err(error),
        }
    }
}

/// Starts to decode an `ExecuteCommandResponse` at the front of `data`.
pub fn start_decoding_execute_command_response<'d>(data: &'d [u8])
    -> (decoder: ExecuteCommandResponseMessageHeaderDecoder<'d>)
    ensures
        decoder.scratch().bytes() == data@,
        decoder.scratch().position() == 0,
{
    ExecuteCommandResponseMessageHeaderDecoder::wrap(ScratchDecoderData::new(data))
}

/// The encoder of an `ExecuteCommandResponse` after its last part.
#[derive(Debug)]
pub struct ExecuteCommandResponseEncoderDone {
    scratch: ScratchEncoderData,
}

impl ExecuteCommandResponseEncoderDone {
    /// The state of the coder at this stage.
    pub closed spec fn scratch(&self) -> ScratchEncoderData {
        self.scratch
    }

    fn wrap(scratch: ScratchEncoderData) -> (stage: ExecuteCommandResponseEncoderDone)
        ensures
            stage.scratch() == scratch,
    {
        ExecuteCommandResponseEncoderDone { scratch }
    }

    /// The number of bytes encoded, and the buffer that holds them.
    pub fn unwrap(self) -> (r: (usize, Vec<u8>))
        ensures
            r.0 == self.scratch().position(),
            r.1@ == self.scratch().bytes(),
    {
        let position = self.scratch.position_value();
        (position, self.scratch.into_data())
    }
}

/// The encoder of an `ExecuteCommandResponse` in front of the field `event`.
#[derive(Debug)]
pub struct ExecuteCommandResponseEventEncoder {
    scratch: ScratchEncoderData,
}

impl ExecuteCommandResponseEventEncoder {
    /// The state of the coder at this stage.
    pub closed spec fn scratch(&self) -> ScratchEncoderData {
        self.scratch
    }

    fn wrap(scratch: ScratchEncoderData) -> (stage: ExecuteCommandResponseEventEncoder)
        ensures
            stage.scratch() == scratch,
    {
        ExecuteCommandResponseEventEncoder { scratch }
    }

    /// Writes the field `event`: its length as a `u16`, then its bytes.
    ///
    /// Fails with `SliceIsLongerThanAllowedBySchema` when `s` is longer than
    /// 65534 bytes, else with `NotEnoughBytes` when the buffer has no room
    /// for the length and the bytes.
    pub fn event(self, s: &[u8]) -> (r: CodecResult<ExecuteCommandResponseEncoderDone>)
        ensures
            match r {
                Ok(next) => {
                    &&& s@.len() <= MAX_VAR_DATA_LENGTH
                    &&& self.scratch().wrote(&next.scratch(), var_data(s@))
                },
                Err(error) => if s@.len() > MAX_VAR_DATA_LENGTH {
                    error == CodecErr::SliceIsLongerThanAllowedBySchema
                } else {
                    error == CodecErr::NotEnoughBytes && 2 + s@.len() > self.scratch().room()
                },
            },
    {
        let mut scratch = self.scratch;
        match scratch.write_var_data(s) {
            Ok(()) => Ok(ExecuteCommandResponseEncoderDone::wrap(scratch)),
            Err(error) => Err(error),
        }
    }
}

/// The encoder of an `ExecuteCommandResponse` in front of the field `topicName`.
#[derive(Debug)]
pub struct ExecuteCommandResponseTopicNameEncoder {
    scratch: ScratchEncoderData,
}

impl ExecuteCommandResponseTopicNameEncoder {
    /// The state of the coder at this stage.
    pub closed spec fn scratch(&self) -> ScratchEncoderData {
        self.scratch
    }

    fn wrap(scratch: ScratchEncoderData) -> (stage: ExecuteCommandResponseTopicNameEncoder)
        ensures
            stage.scratch() == scratch,
    {
        ExecuteCommandResponseTopicNameEncoder { scratch }
    }

    /// Writes the field `topicName`: its length as a `u16`, then its bytes.
    ///
    /// Fails with `SliceIsLongerThanAllowedBySchema` when `s` is longer than
    /// 65534 bytes, else with `NotEnoughBytes` when the buffer has no room
    /// for the length and the bytes.
    pub fn topic_name(self, s: &[u8]) -> (r: CodecResult<ExecuteCommandResponseEventEncoder>)
        ensures
            match r {
                Ok(next) => {
                    &&& s@.len() <= MAX_VAR_DATA_LENGTH
                    &&& self.scratch().wrote(&next.scratch(), var_data(s@))
                },
                Err(error) => if s@.len() > MAX_VAR_DATA_LENGTH {
                    error == CodecErr::SliceIsLongerThanAllowedBySchema
                } else {
                    error == CodecErr::NotEnoughBytes && 2 + s@.len() > self.scratch().room()
                },
            },
    {
        let mut scratch = self.scratch;
        match scratch.write_var_data(s) {
            Ok(()) => Ok(ExecuteCommandResponseEventEncoder::wrap(scratch)),
            Err(error) => Err(error),
        }
    }
}

/// The encoder of an `ExecuteCommandResponse` in front of the fixed block.
#[derive(Debug)]
pub struct ExecuteCommandResponseFieldsEncoder {
    scratch: ScratchEncoderData,
}

impl ExecuteCommandResponseFieldsEncoder {
    /// The state of the coder at this stage.
    pub closed spec fn scratch(&self) -> ScratchEncoderData {
        self.scratch
    }

    fn wrap(scratch: ScratchEncoderData) -> (stage: ExecuteCommandResponseFieldsEncoder)
        ensures
            stage.scratch() == scratch,
    {
        ExecuteCommandResponseFieldsEncoder { scratch }
    }

    /// Writes the fixed block.
    ///
    /// Fails with `NotEnoughBytes` when the buffer has less than 18 bytes of
    /// room.
    pub fn execute_command_response_fields(self, fields: ExecuteCommandResponseFields)
        -> (r: CodecResult<ExecuteCommandResponseTopicNameEncoder>)
        ensures
            match r {
                Ok(next) => self.scratch().wrote(&next.scratch(), fields.bytes()),
                Err(error) => error == CodecErr::NotEnoughBytes && self.scratch().room() < 18,
            },
    {
        self.execute_command_response_fields_copy(&fields)
    }

    /// Writes the fixed block, taken by reference.
    pub fn execute_command_response_fields_copy(self, t: &ExecuteCommandResponseFields)
        -> (r: CodecResult<ExecuteCommandResponseTopicNameEncoder>)
        ensures
            match r {
                Ok(next) => self.scratch().wrote(&next.scratch(), t.bytes()),
                Err(error) => error == CodecErr::NotEnoughBytes && self.scratch().room() < 18,
            },
    {
        let mut scratch = self.scratch;
        let bytes = t.to_vec();
        match scratch.write_slice_without_count(bytes.as_slice()) {
            Ok(()) => Ok(ExecuteCommandResponseTopicNameEncoder::wrap(scratch)),
            Err(error) => Err(error),
        }
    }
}

/// The encoder of an `ExecuteCommandResponse` in front of the message header.
#[derive(Debug)]
pub struct ExecuteCommandResponseMessageHeaderEncoder {
    scratch: ScratchEncoderData,
}

impl ExecuteCommandResponseMessageHeaderEncoder {
    /// The state of the coder at this stage.
    pub closed spec fn scratch(&self) -> ScratchEncoderData {
        self.scratch
    }

    fn wrap(scratch: ScratchEncoderData) -> (stage: ExecuteCommandResponseMessageHeaderEncoder)
        ensures
            stage.scratch() == scratch,
    {
        ExecuteCommandResponseMessageHeaderEncoder { scratch }
    }

    /// Writes the header that every ExecuteCommandResponse message carries, and hands it
    /// back beside the next stage.
    ///
    /// Fails with `NotEnoughBytes` when the buffer has less than 8 bytes of
    /// room.
    pub fn header(self) -> (r: CodecResult<(MessageHeader, ExecuteCommandResponseFieldsEncoder)>)
        ensures
            match r {
                Ok((header, next)) => {
                    &&& header == ExecuteCommandResponseMessageHeader::canonical()
                    &&& self.scratch().wrote(&next.scratch(), header.bytes())
                },
                Err(error) => error == CodecErr::NotEnoughBytes && self.scratch().room() < 8,
            },
    {
        let header = ExecuteCommandResponseMessageHeader::default().message_header;
        match self.header_copy(&header) {
            Ok(next) => Ok((header, next)),
            Err(error) => Err(error),
        }
    }

    /// Writes a message header of the caller's making.
    pub fn header_copy(self, t: &MessageHeader)
        -> (r: CodecResult<ExecuteCommandResponseFieldsEncoder>)
        ensures
            match r {
                Ok(next) => self.scratch().wrote(&next.scratch(), t.bytes()),
                Err(error) => error == CodecErr::NotEnoughBytes && self.scratch().room() < 8,
            },
    {
        let mut scratch = self.scratch;
        let bytes = t.to_vec();
        match scratch.write_slice_without_count(bytes.as_slice()) {
            Ok(()) => Ok(ExecuteCommandResponseFieldsEncoder::wrap(scratch)),
            Err(error) => Err(error),
        }
    }
}

/// Starts to encode an `ExecuteCommandResponse` at the front of the buffer `data`, which
/// is not made longer.
pub fn start_encoding_execute_command_response(data: Vec<u8>)
    -> (encoder: ExecuteCommandResponseMessageHeaderEncoder)
    ensures
        encoder.scratch().bytes() == data@,
        encoder.scratch().position() == 0,
{
    ExecuteCommandResponseMessageHeaderEncoder::wrap(ScratchEncoderData::new(data))
}

/// The fixed block of a `BrokerEventMetadata`.
#[derive(Debug, PartialEq, Eq, Clone, Copy, Structural)]
pub struct BrokerEventMetadataFields {
    pub request_stream_id: i32,
    pub request_id: u64,
    pub subscription_id: u64,
    pub protocol_version: u16,
    pub event_type: EventType,
    pub incident_key: u64,
}

impl BrokerEventMetadataFields {
    /// The 31 bytes of the block on the wire.
    pub open spec fn bytes(&self) -> Seq<u8> {
        le_bytes_signed(self.request_stream_id as int, 4)
            + le_bytes(self.request_id as nat, 8)
            + le_bytes(self.subscription_id as nat, 8)
            + le_bytes(self.protocol_version as nat, 2)
            + seq![self.event_type.code()]
            + le_bytes(self.incident_key as nat, 8)
    }

    /// The block that the first 31 bytes of `s` spell.
    pub open spec fn parse(s: Seq<u8>) -> CodecResult<BrokerEventMetadataFields>
        recommends
            s.len() >= 31,
    {
        match EventType::of_code(s[22]) {
            None => Err(CodecErr::UnknownEnum(EnumKind::EventType, s[22] as u64)),
            Some(event_type) => Ok(
                BrokerEventMetadataFields {
                    request_stream_id: le_int(s.subrange(0, 4)) as i32,
                    request_id: le_nat(s.subrange(4, 12)) as u64,
                    subscription_id: le_nat(s.subrange(12, 20)) as u64,
                    protocol_version: le_nat(s.subrange(20, 22)) as u16,
                    event_type,
                    incident_key: le_nat(s.subrange(23, 31)) as u64,
                },
            ),
        }
    }

    /// The block as bytes.
    pub fn to_vec(&self) -> (out: Vec<u8>)
        ensures
            out@ == self.bytes(),
            out@.len() == 31,
    {
        let mut out: Vec<u8> = Vec::new();
        let mut part = i32_bytes(self.request_stream_id);
        out.append(&mut part);
        let mut part = u64_bytes(self.request_id);
        out.append(&mut part);
        let mut part = u64_bytes(self.subscription_id);
        out.append(&mut part);
        let mut part = u16_bytes(self.protocol_version);
        out.append(&mut part);
        out.push(self.event_type.to_u8());
        let mut part = u64_bytes(self.incident_key);
        out.append(&mut part);
        proof {
            lemma_le_bytes_signed_len(self.request_stream_id as int, 4);
            lemma_le_bytes_len(self.request_id as nat, 8);
            lemma_le_bytes_len(self.subscription_id as nat, 8);
            lemma_le_bytes_len(self.protocol_version as nat, 2);
            lemma_le_bytes_len(self.incident_key as nat, 8);
            assert(out@ =~= self.bytes());
        }
        out
    }

    /// The block at `data[pos..pos + 31]`.
    pub fn read(data: &[u8], pos: usize) -> (r: CodecResult<BrokerEventMetadataFields>)
        requires
            pos + 31 <= data.len(),
        ensures
            r == BrokerEventMetadataFields::parse(data@.subrange(pos as int, pos + 31)),
    {
        proof {
            let s = data@.subrange(pos as int, pos + 31);
            assert(s.subrange(0, 4) =~= data@.subrange(pos as int, pos + 4));
            assert(s.subrange(4, 12) =~= data@.subrange(pos + 4, pos + 12));
            assert(s.subrange(12, 20) =~= data@.subrange(pos + 12, pos + 20));
            assert(s.subrange(20, 22) =~= data@.subrange(pos + 20, pos + 22));
            assert(s.subrange(23, 31) =~= data@.subrange(pos + 23, pos + 31));
        }
        let event_type = match EventType::from_u8(data[pos + 22]) {
            Some(event_type) => event_type,
            None => {
                return Err(CodecErr::UnknownEnum(EnumKind::EventType, data[pos + 22] as u64));
            },
        };
        Ok(
            BrokerEventMetadataFields {
                request_stream_id: get_i32(data, pos),
                request_id: get_u64(data, pos + 4),
                subscription_id: get_u64(data, pos + 12),
                protocol_version: get_u16(data, pos + 20),
                event_type,
                incident_key: get_u64(data, pos + 23),
            },
        )
    }

    /// A block reads back as itself.
    pub proof fn lemma_parse_bytes(self)
        ensures
            self.bytes().len() == 31,
            BrokerEventMetadataFields::parse(self.bytes())
                == Ok::<BrokerEventMetadataFields, CodecErr>(self),
    {
        let s = self.bytes();
        lemma_pow256_values();
        lemma_le_bytes_signed_len(self.request_stream_id as int, 4);
        lemma_le_bytes_len(self.request_id as nat, 8);
        lemma_le_bytes_len(self.subscription_id as nat, 8);
        lemma_le_bytes_len(self.protocol_version as nat, 2);
        lemma_le_bytes_len(self.incident_key as nat, 8);
        assert(s.subrange(0, 4) =~= le_bytes_signed(self.request_stream_id as int, 4));
        lemma_le_int_of_le_bytes_signed(self.request_stream_id as int, 4);
        assert(s.subrange(4, 12) =~= le_bytes(self.request_id as nat, 8));
        lemma_le_nat_of_le_bytes(self.request_id as nat, 8);
        assert(s.subrange(12, 20) =~= le_bytes(self.subscription_id as nat, 8));
        lemma_le_nat_of_le_bytes(self.subscription_id as nat, 8);
        assert(s.subrange(20, 22) =~= le_bytes(self.protocol_version as nat, 2));
        lemma_le_nat_of_le_bytes(self.protocol_version as nat, 2);
        assert(s[22] == self.event_type.code());
        assert(s.subrange(23, 31) =~= le_bytes(self.incident_key as nat, 8));
        lemma_le_nat_of_le_bytes(self.incident_key as nat, 8);
    }
}

/// The message header of a `BrokerEventMetadata`.
#[derive(Debug, PartialEq, Eq, Clone, Copy, Structural)]
pub struct BrokerEventMetadataMessageHeader {
    pub message_header: MessageHeader,
}

impl BrokerEventMetadataMessageHeader {
    /// The header that every BrokerEventMetadata message carries.
    pub open spec fn canonical() -> MessageHeader {
        MessageHeader { block_length: 31, template_id: 200, schema_id: 0, version: 1 }
    }
}

impl Default for BrokerEventMetadataMessageHeader {
    fn default() -> (header: BrokerEventMetadataMessageHeader)
        ensures
            header.message_header == BrokerEventMetadataMessageHeader::canonical(),
    {
        BrokerEventMetadataMessageHeader {
            message_header: MessageHeader {
                block_length: 31u16,
                template_id: 200u16,
                schema_id: 0u16,
                version: 1u16,
            },
        }
    }
}

/// The decoder of a `BrokerEventMetadata` after its last part.
#[derive(Debug)]
pub struct BrokerEventMetadataDecoderDone<'d> {
    scratch: ScratchDecoderData<'d>,
}

impl<'d> BrokerEventMetadataDecoderDone<'d> {
    /// The state of the coder at this stage.
    pub closed spec fn scratch(&self) -> ScratchDecoderData<'d> {
        self.scratch
    }

    fn wrap(scratch: ScratchDecoderData<'d>) -> (stage: BrokerEventMetadataDecoderDone<'d>)
        ensures
            stage.scratch() == scratch,
    {
        BrokerEventMetadataDecoderDone { scratch }
    }

    /// The number of bytes decoded.
    pub fn unwrap(self) -> (n: usize)
        ensures
            n == self.scratch().position(),
            n <= self.scratch().bytes().len(),
    {
        self.scratch.position_value()
    }
}

/// The decoder of a `BrokerEventMetadata` in front of the fixed block.
#[derive(Debug)]
pub struct BrokerEventMetadataFieldsDecoder<'d> {
    scratch: ScratchDecoderData<'d>,
    block_length: u16,
}

impl<'d> BrokerEventMetadataFieldsDecoder<'d> {
    /// The state of the coder at this stage.
    pub closed spec fn scratch(&self) -> ScratchDecoderData<'d> {
        self.scratch
    }

    /// The block length that the message header declared.
    pub closed spec fn block_length(&self) -> u16 {
        self.block_length
    }

    fn wrap(scratch: ScratchDecoderData<'d>, block_length: u16)
        -> (stage: BrokerEventMetadataFieldsDecoder<'d>)
        ensures
            stage.scratch() == scratch,
            stage.block_length() == block_length,
    {
        BrokerEventMetadataFieldsDecoder { scratch, block_length }
    }

    /// Reads the fixed block.
    ///
    /// The block is as long as the message header declared. Its first
    /// 31 bytes are read and the rest is skipped. Fails with `NotEnoughBytes`
    /// when the header declared less than 31 bytes or the block is not
    /// all there, and with `UnknownEnum` when a byte names no variant.
    pub fn broker_event_metadata_fields(self)
        -> (r: CodecResult<(BrokerEventMetadataFields, BrokerEventMetadataDecoderDone<'d>)>)
        ensures
            match r {
                Ok((fields, next)) => {
                    &&& self.block_length() >= 31
                    &&& BrokerEventMetadataFields::parse(self.scratch().rest().take(31))
                        == Ok::<BrokerEventMetadataFields, CodecErr>(fields)
                    &&& self.scratch().moved(&next.scratch(), self.block_length() as nat)
                },
                Err(error) => if self.block_length() < 31 || self.scratch().rest().len()
                    < self.block_length() {
                    error == CodecErr::NotEnoughBytes
                } else {
                    BrokerEventMetadataFields::parse(self.scratch().rest().take(31))
                        == Err::<BrokerEventMetadataFields, CodecErr>(error)
                },
            },
    {
        let mut scratch = self.scratch;
        let block_length = self.block_length as usize;
        if block_length < 31 || scratch.remaining() < block_length {
            return Err(CodecErr::NotEnoughBytes);
        }
        let pos = scratch.position_value();
        proof {
            assert(scratch.rest().take(31) =~= scratch.bytes().subrange(pos as int, pos + 31));
        }
        let fields = match BrokerEventMetadataFields::read(scratch.data(), pos) {
            Ok(fields) => fields,
            Err(error) => {
                return Err(error);
            },
        };
        match scratch.skip_bytes(block_length) {
            Ok(()) => Ok((fields, BrokerEventMetadataDecoderDone::wrap(scratch))),
            Err(error) => Err(error),
        }
    }
}

/// The decoder of a `BrokerEventMetadata` in front of the message header.
#[derive(Debug)]
pub struct BrokerEventMetadataMessageHeaderDecoder<'d> {
    scratch: ScratchDecoderData<'d>,
}

impl<'d> BrokerEventMetadataMessageHeaderDecoder<'d> {
    /// The state of the coder at this stage.
    pub closed spec fn scratch(&self) -> ScratchDecoderData<'d> {
        self.scratch
    }

    fn wrap(scratch: ScratchDecoderData<'d>) -> (stage: BrokerEventMetadataMessageHeaderDecoder<'d>)
        ensures
            stage.scratch() == scratch,
    {
        BrokerEventMetadataMessageHeaderDecoder { scratch }
    }

    /// Reads the message header, whatever template it names.
    ///
    /// Fails with `NotEnoughBytes` when fewer than 8 bytes are left.
    pub fn header(self) -> (r: CodecResult<(MessageHeader, BrokerEventMetadataFieldsDecoder<'d>)>)
        ensures
            match r {
                Ok((header, next)) => {
                    &&& header == MessageHeader::parse(self.scratch().rest())
                    &&& self.scratch().moved(&next.scratch(), 8)
                    &&& next.block_length() == header.block_length
                },
                Err(error) => {
                    &&& error == CodecErr::NotEnoughBytes
                    &&& self.scratch().rest().len() < 8
                },
            },
    {
        let mut scratch = self.scratch;
        match scratch.read_message_header() {
            Ok(header) => Ok((header,
                BrokerEventMetadataFieldsDecoder::wrap(scratch, header.block_length))),
            Err(error) => Err(error),
        }
    }
}

/// Starts to decode a `BrokerEventMetadata` at the front of `data`.
pub fn start_decoding_broker_event_metadata<'d>(data: &'d [u8])
    -> (decoder: BrokerEventMetadataMessageHeaderDecoder<'d>)
    ensures
        decoder.scratch().bytes() == data@,
        decoder.scratch().position() == 0,
{
    BrokerEventMetadataMessageHeaderDecoder::wrap(ScratchDecoderData::new(data))
}

/// The encoder of a `BrokerEventMetadata` after its last part.
#[derive(Debug)]
pub struct BrokerEventMetadataEncoderDone {
    scratch: ScratchEncoderData,
}

impl BrokerEventMetadataEncoderDone {
    /// The state of the coder at this stage.
    pub closed spec fn scratch(&self) -> ScratchEncoderData {
        self.scratch
    }

    fn wrap(scratch: ScratchEncoderData) -> (stage: BrokerEventMetadataEncoderDone)
        ensures
            stage.scratch() == scratch,
    {
        BrokerEventMetadataEncoderDone { scratch }
    }

    /// The number of bytes encoded, and the buffer that holds them.
    pub fn unwrap(self) -> (r: (usize, Vec<u8>))
        ensures
            r.0 == self.scratch().position(),
            r.1@ == self.scratch().bytes(),
    {
        let position = self.scratch.position_value();
        (position, self.scratch.into_data())
    }
}

/// The encoder of a `BrokerEventMetadata` in front of the fixed block.
#[derive(Debug)]
pub struct BrokerEventMetadataFieldsEncoder {
    scratch: ScratchEncoderData,
}

impl BrokerEventMetadataFieldsEncoder {
    /// The state of the coder at this stage.
    pub closed spec fn scratch(&self) -> ScratchEncoderData {
        self.scratch
    }

    fn wrap(scratch: ScratchEncoderData) -> (stage: BrokerEventMetadataFieldsEncoder)
        ensures
            stage.scratch() == scratch,
    {
        BrokerEventMetadataFieldsEncoder { scratch }
    }

    /// Writes the fixed block.
    ///
    /// Fails with `NotEnoughBytes` when the buffer has less than 31 bytes of
    /// room.
    pub fn broker_event_metadata_fields(self, fields: BrokerEventMetadataFields)
        -> (r: CodecResult<BrokerEventMetadataEncoderDone>)
        ensures
            match r {
                Ok(next) => self.scratch().wrote(&next.scratch(), fields.bytes()),
                Err(error) => error == CodecErr::NotEnoughBytes && self.scratch().room() < 31,
            },
    {
        self.broker_event_metadata_fields_copy(&fields)
    }

    /// Writes the fixed block, taken by reference.
    pub fn broker_event_metadata_fields_copy(self, t: &BrokerEventMetadataFields)
        -> (r: CodecResult<BrokerEventMetadataEncoderDone>)
        ensures
            match r {
                Ok(next) => self.scratch().wrote(&next.scratch(), t.bytes()),
                Err(error) => error == CodecErr::NotEnoughBytes && self.scratch().room() < 31,
            },
    {
        let mut scratch = self.scratch;
        let bytes = t.to_vec();
        match scratch.write_slice_without_count(bytes.as_slice()) {
            Ok(()) => Ok(BrokerEventMetadataEncoderDone::wrap(scratch)),
            Err(error) => Err(error),
        }
    }
}

/// The encoder of a `BrokerEventMetadata` in front of the message header.
#[derive(Debug)]
pub struct BrokerEventMetadataMessageHeaderEncoder {
    scratch: ScratchEncoderData,
}

impl BrokerEventMetadataMessageHeaderEncoder {
    /// The state of the coder at this stage.
    pub closed spec fn scratch(&self) -> ScratchEncoderData {
        self.scratch
    }

    fn wrap(scratch: ScratchEncoderData) -> (stage: BrokerEventMetadataMessageHeaderEncoder)
        ensures
            stage.scratch() == scratch,
    {
        BrokerEventMetadataMessageHeaderEncoder { scratch }
    }

    /// Writes the header that every BrokerEventMetadata message carries, and hands it
    /// back beside the next stage.
    ///
    /// Fails with `NotEnoughBytes` when the buffer has less than 8 bytes of
    /// room.
    pub fn header(self) -> (r: CodecResult<(MessageHeader, BrokerEventMetadataFieldsEncoder)>)
        ensures
            match r {
                Ok((header, next)) => {
                    &&& header == BrokerEventMetadataMessageHeader::canonical()
                    &&& self.scratch().wrote(&next.scratch(), header.bytes())
                },
                Err(error) => error == CodecErr::NotEnoughBytes && self.scratch().room() < 8,
            },
    {
        let header = BrokerEventMetadataMessageHeader::default().message_header;
        match self.header_copy(&header) {
            Ok(next) => Ok((header, next)),
            Err(error) => Err(error),
        }
    }

    /// Writes a message header of the caller's making.
    pub fn header_copy(self, t: &MessageHeader)
        -> (r: CodecResult<BrokerEventMetadataFieldsEncoder>)
        ensures
            match r {
                Ok(next) => self.scratch().wrote(&next.scratch(), t.bytes()),
                Err(error) => error == CodecErr::NotEnoughBytes && self.scratch().room() < 8,
            },
    {
        let mut scratch = self.scratch;
        let bytes = t.to_vec();
        match scratch.write_slice_without_count(bytes.as_slice()) {
            Ok(()) => Ok(BrokerEventMetadataFieldsEncoder::wrap(scratch)),
            Err(error) => Err(error),
        }
    }
}

/// Starts to encode a `BrokerEventMetadata` at the front of the buffer `data`, which
/// is not made longer.
pub fn start_encoding_broker_event_metadata(data: Vec<u8>)
    -> (encoder: BrokerEventMetadataMessageHeaderEncoder)
    ensures
        encoder.scratch().bytes() == data@,
        encoder.scratch().position() == 0,
{
    BrokerEventMetadataMessageHeaderEncoder::wrap(ScratchEncoderData::new(data))
}

/// The fixed block of a `ControlMessageRequest`.
#[derive(Debug, PartialEq, Eq, Clone, Copy, Structural)]
pub struct ControlMessageRequestFields {
    pub message_type: ControlMessageType,
    pub partition_id: u16,
}

impl ControlMessageRequestFields {
    /// The 3 bytes of the block on the wire.
    pub open spec fn bytes(&self) -> Seq<u8> {
        seq![self.message_type.code()]
            + le_bytes(self.partition_id as nat, 2)
    }

    /// The block that the first 3 bytes of `s` spell.
    pub open spec fn parse(s: Seq<u8>) -> CodecResult<ControlMessageRequestFields>
        recommends
            s.len() >= 3,
    {
        match ControlMessageType::of_code(s[0]) {
            None => Err(CodecErr::UnknownEnum(EnumKind::ControlMessageType, s[0] as u64)),
            Some(message_type) => Ok(
                ControlMessageRequestFields {
                    message_type,
                    partition_id: le_nat(s.subrange(1, 3)) as u16,
                },
            ),
        }
    }

    /// The block as bytes.
    pub fn to_vec(&self) -> (out: Vec<u8>)
        ensures
            out@ == self.bytes(),
            out@.len() == 3,
    {
        let mut out: Vec<u8> = Vec::new();
        out.push(self.message_type.to_u8());
        let mut part = u16_bytes(self.partition_id);
        out.append(&mut part);
        proof {
            lemma_le_bytes_len(self.partition_id as nat, 2);
            assert(out@ =~= self.bytes());
        }
        out
    }

    /// The block at `data[pos..pos + 3]`.
    pub fn read(data: &[u8], pos: usize) -> (r: CodecResult<ControlMessageRequestFields>)
        requires
            pos + 3 <= data.len(),
        ensures
            r == ControlMessageRequestFields::parse(data@.subrange(pos as int, pos + 3)),
    {
        proof {
            let s = data@.subrange(pos as int, pos + 3);
            assert(s.subrange(1, 3) =~= data@.subrange(pos + 1, pos + 3));
        }
        let message_type = match ControlMessageType::from_u8(data[pos]) {
            Some(message_type) => message_type,
            None => {
                return Err(CodecErr::UnknownEnum(EnumKind::ControlMessageType, data[pos] as u64));
            },
        };
        Ok(
            ControlMessageRequestFields {
                message_type,
                partition_id: get_u16(data, pos + 1),
            },
        )
    }

    /// A block reads back as itself.
    pub proof fn lemma_parse_bytes(self)
        ensures
            self.bytes().len() == 3,
            ControlMessageRequestFields::parse(self.bytes())
                == Ok::<ControlMessageRequestFields, CodecErr>(self),
    {
        let s = self.bytes();
        lemma_pow256_values();
        lemma_le_bytes_len(self.partition_id as nat, 2);
        assert(s[0] == self.message_type.code());
        assert(s.subrange(1, 3) =~= le_bytes(self.partition_id as nat, 2));
        lemma_le_nat_of_le_bytes(self.partition_id as nat, 2);
    }
}

/// The message header of a `ControlMessageRequest`.
#[derive(Debug, PartialEq, Eq, Clone, Copy, Structural)]
pub struct ControlMessageRequestMessageHeader {
    pub message_header: MessageHeader,
}

impl ControlMessageRequestMessageHeader {
    /// The header that every ControlMessageRequest message carries.
    pub open spec fn canonical() -> MessageHeader {
        MessageHeader { block_length: 3, template_id: 10, schema_id: 0, version: 1 }
    }
}

impl Default for ControlMessageRequestMessageHeader {
    fn default() -> (header: ControlMessageRequestMessageHeader)
        ensures
            header.message_header == ControlMessageRequestMessageHeader::canonical(),
    {
        ControlMessageRequestMessageHeader {
            message_header: MessageHeader {
                block_length: 3u16,
                template_id: 10u16,
                schema_id: 0u16,
                version: 1u16,
            },
        }
    }
}

/// The decoder of a `ControlMessageRequest` after its last part.
#[derive(Debug)]
pub struct ControlMessageRequestDecoderDone<'d> {
    scratch: ScratchDecoderData<'d>,
}

impl<'d> ControlMessageRequestDecoderDone<'d> {
    /// The state of the coder at this stage.
    pub closed spec fn scratch(&self) -> ScratchDecoderData<'d> {
        self.scratch
    }

    fn wrap(scratch: ScratchDecoderData<'d>) -> (stage: ControlMessageRequestDecoderDone<'d>)
        ensures
            stage.scratch() == scratch,
    {
        ControlMessageRequestDecoderDone { scratch }
    }

    /// The number of bytes decoded.
    pub fn unwrap(self) -> (n: usize)
        ensures
            n == self.scratch().position(),
            n <= self.scratch().bytes().len(),
    {
        self.scratch.position_value()
    }
}

/// The decoder of a `ControlMessageRequest` in front of the field `data`.
#[derive(Debug)]
pub struct ControlMessageRequestDataDecoder<'d> {
    scratch: ScratchDecoderData<'d>,
}

impl<'d> ControlMessageRequestDataDecoder<'d> {
    /// The state of the coder at this stage.
    pub closed spec fn scratch(&self) -> ScratchDecoderData<'d> {
        self.scratch
    }

    fn wrap(scratch: ScratchDecoderData<'d>) -> (stage: ControlMessageRequestDataDecoder<'d>)
        ensures
            stage.scratch() == scratch,
    {
        ControlMessageRequestDataDecoder { scratch }
    }

    /// Reads the field `data`: a `u16` length and that many bytes.
    ///
    /// Fails with `NotEnoughBytes` when the length or the bytes it announces
    /// are not all there.
    pub fn data(self) -> (r: CodecResult<(&'d [u8], ControlMessageRequestDecoderDone<'d>)>)
        ensures
            match r {
                Ok((field, next)) => {
                    &&& parse_var_data(self.scratch().rest()) == Some(field@)
                    &&& self.scratch().moved(&next.scratch(), 2 + field@.len())
                },
                Err(error) => {
                    &&& error == CodecErr::NotEnoughBytes
                    &&& parse_var_data(self.scratch().rest()) is None
                },
            },
    {
        let mut scratch = self.scratch;
        match scratch.read_var_data() {
            Ok(field) => Ok((field, ControlMessageRequestDecoderDone::wrap(scratch))),
            Err(error) => Err(error),
        }
    }
}

/// The decoder of a `ControlMessageRequest` in front of the fixed block.
#[derive(Debug)]
pub struct ControlMessageRequestFieldsDecoder<'d> {
    scratch: ScratchDecoderData<'d>,
    block_length: u16,
}

impl<'d> ControlMessageRequestFieldsDecoder<'d> {
    /// The state of the coder at this stage.
    pub closed spec fn scratch(&self) -> ScratchDecoderData<'d> {
        self.scratch
    }

    /// The block length that the message header declared.
    pub closed spec fn block_length(&self) -> u16 {
        self.block_length
    }

    fn wrap(scratch: ScratchDecoderData<'d>, block_length: u16)
        -> (stage: ControlMessageRequestFieldsDecoder<'d>)
        ensures
            stage.scratch() == scratch,
            stage.block_length() == block_length,
    {
        ControlMessageRequestFieldsDecoder { scratch, block_length }
    }

    /// Reads the fixed block.
    ///
    /// The block is as long as the message header declared. Its first
    /// 3 bytes are read and the rest is skipped. Fails with `NotEnoughBytes`
    /// when the header declared less than 3 bytes or the block is not
    /// all there, and with `UnknownEnum` when a byte names no variant.
    pub fn control_message_request_fields(self)
        -> (r: CodecResult<(ControlMessageRequestFields, ControlMessageRequestDataDecoder<'d>)>)
        ensures
            match r {
                Ok((fields, next)) => {
                    &&& self.block_length() >= 3
                    &&& ControlMessageRequestFields::parse(self.scratch().rest().take(3))
                        == Ok::<ControlMessageRequestFields, CodecErr>(fields)
                    &&& self.scratch().moved(&next.scratch(), self.block_length() as nat)
                },
                Err(error) => if self.block_length() < 3 || self.scratch().rest().len()
                    < self.block_length() {
                    error == CodecErr::NotEnoughBytes
                } else {
                    ControlMessageRequestFields::parse(self.scratch().rest().take(3))
                        == Err::<ControlMessageRequestFields, CodecErr>(error)
                },
            },
    {
        let mut scratch = self.scratch;
        let block_length = self.block_length as usize;
        if block_length < 3 || scratch.remaining() < block_length {
            return Err(CodecErr::NotEnoughBytes);
        }
        let pos = scratch.position_value();
        proof {
            assert(scratch.rest().take(3) =~= scratch.bytes().subrange(pos as int, pos + 3));
        }
        let fields = match ControlMessageRequestFields::read(scratch.data(), pos) {
            Ok(fields) => fields,
            Err(error) => {
                return Err(error);
            },
        };
        match scratch.skip_bytes(block_length) {
            Ok(()) => Ok((fields, ControlMessageRequestDataDecoder::wrap(scratch))),
            Err(error) => Err(error),
        }
    }
}

/// The decoder of a `ControlMessageRequest` in front of the message header.
#[derive(Debug)]
pub struct ControlMessageRequestMessageHeaderDecoder<'d> {
    scratch: ScratchDecoderData<'d>,
}

impl<'d> ControlMessageRequestMessageHeaderDecoder<'d> {
    /// The state of the coder at this stage.
    pub closed spec fn scratch(&self) -> ScratchDecoderData<'d> {
        self.scratch
    }

    fn wrap(scratch: ScratchDecoderData<'d>)
        -> (stage: ControlMessageRequestMessageHeaderDecoder<'d>)
        ensures
            stage.scratch() == scratch,
    {
        ControlMessageRequestMessageHeaderDecoder { scratch }
    }

    /// Reads the message header, whatever template it names.
    ///
    /// Fails with `NotEnoughBytes` when fewer than 8 bytes are left.
    pub fn header(self) -> (r: CodecResult<(MessageHeader, ControlMessageRequestFieldsDecoder<'d>)>)
        ensures
            match r {
                Ok((header, next)) => {
                    &&& header == MessageHeader::parse(self.scratch().rest())
                    &&& self.scratch().moved(&next.scratch(), 8)
                    &&& next.block_length() == header.block_length
                },
                Err(error) => {
                    &&& error == CodecErr::NotEnoughBytes
                    &&& self.scratch().rest().len() < 8
                },
            },
    {
        let mut scratch = self.scratch;
        match scratch.read_message_header() {
            Ok(header) => Ok((header,
                ControlMessageRequestFieldsDecoder::wrap(scratch, header.block_length))),
            Err(error) => Err(error),
        }
    }
}

/// Starts to decode a `ControlMessageRequest` at the front of `data`.
pub fn start_decoding_control_message_request<'d>(data: &'d [u8])
    -> (decoder: ControlMessageRequestMessageHeaderDecoder<'d>)
    ensures
        decoder.scratch().bytes() == data@,
        decoder.scratch().position() == 0,
{
    ControlMessageRequestMessageHeaderDecoder::wrap(ScratchDecoderData::new(data))
}

/// The encoder of a `ControlMessageRequest` after its last part.
#[derive(Debug)]
pub struct ControlMessageRequestEncoderDone {
    scratch: ScratchEncoderData,
}

impl ControlMessageRequestEncoderDone {
    /// The state of the coder at this stage.
    pub closed spec fn scratch(&self) -> ScratchEncoderData {
        self.scratch
    }

    fn wrap(scratch: ScratchEncoderData) -> (stage: ControlMessageRequestEncoderDone)
        ensures
            stage.scratch() == scratch,
    {
        ControlMessageRequestEncoderDone { scratch }
    }

    /// The number of bytes encoded, and the buffer that holds them.
    pub fn unwrap(self) -> (r: (usize, Vec<u8>))
        ensures
            r.0 == self.scratch().position(),
            r.1@ == self.scratch().bytes(),
    {
        let position = self.scratch.position_value();
        (position, self.scratch.into_data())
    }
}

/// The encoder of a `ControlMessageRequest` in front of the field `data`.
#[derive(Debug)]
pub struct ControlMessageRequestDataEncoder {
    scratch: ScratchEncoderData,
}

impl ControlMessageRequestDataEncoder {
    /// The state of the coder at this stage.
    pub closed spec fn scratch(&self) -> ScratchEncoderData {
        self.scratch
    }

    fn wrap(scratch: ScratchEncoderData) -> (stage: ControlMessageRequestDataEncoder)
        ensures
            stage.scratch() == scratch,
    {
        ControlMessageRequestDataEncoder { scratch }
    }

    /// Writes the field `data`: its length as a `u16`, then its bytes.
    ///
    /// Fails with `SliceIsLongerThanAllowedBySchema` when `s` is longer than
    /// 65534 bytes, else with `NotEnoughBytes` when the buffer has no room
    /// for the length and the bytes.
    pub fn data(self, s: &[u8]) -> (r: CodecResult<ControlMessageRequestEncoderDone>)
        ensures
            match r {
                Ok(next) => {
                    &&& s@.len() <= MAX_VAR_DATA_LENGTH
                    &&& self.scratch().wrote(&next.scratch(), var_data(s@))
                },
                Err(error) => if s@.len() > MAX_VAR_DATA_LENGTH {
                    error == CodecErr::SliceIsLongerThanAllowedBySchema
                } else {
                    error == CodecErr::NotEnoughBytes && 2 + s@.len() > self.scratch().room()
                },
            },
    {
        let mut scratch = self.scratch;
        match scratch.write_var_data(s) {
            Ok(()) => Ok(ControlMessageRequestEncoderDone::wrap(scratch)),
            Err(error) => Err(error),
        }
    }
}

/// The encoder of a `ControlMessageRequest` in front of the fixed block.
#[derive(Debug)]
pub struct ControlMessageRequestFieldsEncoder {
    scratch: ScratchEncoderData,
}

impl ControlMessageRequestFieldsEncoder {
    /// The state of the coder at this stage.
    pub closed spec fn scratch(&self) -> ScratchEncoderData {
        self.scratch
    }

    fn wrap(scratch: ScratchEncoderData) -> (stage: ControlMessageRequestFieldsEncoder)
        ensures
            stage.scratch() == scratch,
    {
        ControlMessageRequestFieldsEncoder { scratch }
    }

    /// Writes the fixed block.
    ///
    /// Fails with `NotEnoughBytes` when the buffer has less than 3 bytes of
    /// room.
    pub fn control_message_request_fields(self, fields: ControlMessageRequestFields)
        -> (r: CodecResult<ControlMessageRequestDataEncoder>)
        ensures
            match r {
                Ok(next) => self.scratch().wrote(&next.scratch(), fields.bytes()),
                Err(error) => error == CodecErr::NotEnoughBytes && self.scratch().room() < 3,
            },
    {
        self.control_message_request_fields_copy(&fields)
    }

    /// Writes the fixed block, taken by reference.
    pub fn control_message_request_fields_copy(self, t: &ControlMessageRequestFields)
        -> (r: CodecResult<ControlMessageRequestDataEncoder>)
        ensures
            match r {
                Ok(next) => self.scratch().wrote(&next.scratch(), t.bytes()),
                Err(error) => error == CodecErr::NotEnoughBytes && self.scratch().room() < 3,
            },
    {
        let mut scratch = self.scratch;
        let bytes = t.to_vec();
        match scratch.write_slice_without_count(bytes.as_slice()) {
            Ok(()) => Ok(ControlMessageRequestDataEncoder::wrap(scratch)),
            Err(error) => Err(error),
        }
    }
}

/// The encoder of a `ControlMessageRequest` in front of the message header.
#[derive(Debug)]
pub struct ControlMessageRequestMessageHeaderEncoder {
    scratch: ScratchEncoderData,
}

impl ControlMessageRequestMessageHeaderEncoder {
    /// The state of the coder at this stage.
    pub closed spec fn scratch(&self) -> ScratchEncoderData {
        self.scratch
    }

    fn wrap(scratch: ScratchEncoderData) -> (stage: ControlMessageRequestMessageHeaderEncoder)
        ensures
            stage.scratch() == scratch,
    {
        ControlMessageRequestMessageHeaderEncoder { scratch }
    }

    /// Writes the header that every ControlMessageRequest message carries, and hands it
    /// back beside the next stage.
    ///
    /// Fails with `NotEnoughBytes` when the buffer has less than 8 bytes of
    /// room.
    pub fn header(self) -> (r: CodecResult<(MessageHeader, ControlMessageRequestFieldsEncoder)>)
        ensures
            match r {
                Ok((header, next)) => {
                    &&& header == ControlMessageRequestMessageHeader::canonical()
                    &&& self.scratch().wrote(&next.scratch(), header.bytes())
                },
                Err(error) => error == CodecErr::NotEnoughBytes && self.scratch().room() < 8,
            },
    {
        let header = ControlMessageRequestMessageHeader::default().message_header;
        match self.header_copy(&header) {
            Ok(next) => Ok((header, next)),
            Err(error) => Err(error),
        }
    }

    /// Writes a message header of the caller's making.
    pub fn header_copy(self, t: &MessageHeader)
        -> (r: CodecResult<ControlMessageRequestFieldsEncoder>)
        ensures
            match r {
                Ok(next) => self.scratch().wrote(&next.scratch(), t.bytes()),
                Err(error) => error == CodecErr::NotEnoughBytes && self.scratch().room() < 8,
            },
    {
        let mut scratch = self.scratch;
        let bytes = t.to_vec();
        match scratch.write_slice_without_count(bytes.as_slice()) {
            Ok(()) => Ok(ControlMessageRequestFieldsEncoder::wrap(scratch)),
            Err(error) => Err(error),
        }
    }
}

/// Starts to encode a `ControlMessageRequest` at the front of the buffer `data`, which
/// is not made longer.
pub fn start_encoding_control_message_request(data: Vec<u8>)
    -> (encoder: ControlMessageRequestMessageHeaderEncoder)
    ensures
        encoder.scratch().bytes() == data@,
        encoder.scratch().position() == 0,
{
    ControlMessageRequestMessageHeaderEncoder::wrap(ScratchEncoderData::new(data))
}

/// The message header of a `ControlMessageResponse`.
#[derive(Debug, PartialEq, Eq, Clone, Copy, Structural)]
pub struct ControlMessageResponseMessageHeader {
    pub message_header: MessageHeader,
}

impl ControlMessageResponseMessageHeader {
    /// The header that every ControlMessageResponse message carries.
    pub open spec fn canonical() -> MessageHeader {
        MessageHeader { block_length: 0, template_id: 11, schema_id: 0, version: 1 }
    }
}

impl Default for ControlMessageResponseMessageHeader {
    fn default() -> (header: ControlMessageResponseMessageHeader)
        ensures
            header.message_header == ControlMessageResponseMessageHeader::canonical(),
    {
        ControlMessageResponseMessageHeader {
            message_header: MessageHeader {
                block_length: 0u16,
                template_id: 11u16,
                schema_id: 0u16,
                version: 1u16,
            },
        }
    }
}

/// The decoder of a `ControlMessageResponse` after its last part.
#[derive(Debug)]
pub struct ControlMessageResponseDecoderDone<'d> {
    scratch: ScratchDecoderData<'d>,
}

impl<'d> ControlMessageResponseDecoderDone<'d> {
    /// The state of the coder at this stage.
    pub closed spec fn scratch(&self) -> ScratchDecoderData<'d> {
        self.scratch
    }

    fn wrap(scratch: ScratchDecoderData<'d>) -> (stage: ControlMessageResponseDecoderDone<'d>)
        ensures
            stage.scratch() == scratch,
    {
        ControlMessageResponseDecoderDone { scratch }
    }

    /// The number of bytes decoded.
    pub fn unwrap(self) -> (n: usize)
        ensures
            n == self.scratch().position(),
            n <= self.scratch().bytes().len(),
    {
        self.scratch.position_value()
    }
}

/// The decoder of a `ControlMessageResponse` in front of the field `data`.
#[derive(Debug)]
pub struct ControlMessageResponseDataDecoder<'d> {
    scratch: ScratchDecoderData<'d>,
    block_length: u16,
}

impl<'d> ControlMessageResponseDataDecoder<'d> {
    /// The state of the coder at this stage.
    pub closed spec fn scratch(&self) -> ScratchDecoderData<'d> {
        self.scratch
    }

    /// The block length that the message header declared.
    pub closed spec fn block_length(&self) -> u16 {
        self.block_length
    }

    fn wrap(scratch: ScratchDecoderData<'d>, block_length: u16)
        -> (stage: ControlMessageResponseDataDecoder<'d>)
        ensures
            stage.scratch() == scratch,
            stage.block_length() == block_length,
    {
        ControlMessageResponseDataDecoder { scratch, block_length }
    }

    /// Skips the block that the message header declared, since the template
    /// has no fixed fields, and reads the field `data`: a `u16` length and
    /// that many bytes.
    ///
    /// Fails with `NotEnoughBytes` when the block, the length or the bytes
    /// it announces are not all there.
    pub fn data(self) -> (r: CodecResult<(&'d [u8], ControlMessageResponseDecoderDone<'d>)>)
        ensures
            match r {
                Ok((field, next)) => {
                    &&& self.block_length() <= self.scratch().rest().len()
                    &&& parse_var_data(self.scratch().rest().skip(self.block_length() as int))
                        == Some(field@)
                    &&& self.scratch().moved(
                        &next.scratch(),
                        self.block_length() as nat + 2 + field@.len(),
                    )
                },
                Err(error) => {
                    &&& error == CodecErr::NotEnoughBytes
                    &&& (self.block_length() > self.scratch().rest().len() || parse_var_data(
                        self.scratch().rest().skip(self.block_length() as int),
                    ) is None)
                },
            },
    {
        let mut scratch = self.scratch;
        proof {
            use_type_invariant(&scratch);
        }
        match scratch.skip_bytes(self.block_length as usize) {
            Ok(()) => {},
            Err(error) => {
                return Err(error);
            },
        }
        proof {
            assert(scratch.rest() =~= self.scratch().rest().skip(self.block_length() as int));
        }
        match scratch.read_var_data() {
            Ok(field) => Ok((field, ControlMessageResponseDecoderDone::wrap(scratch))),
            Err(error) => Err(error),
        }
    }
}

/// The decoder of a `ControlMessageResponse` in front of the message header.
#[derive(Debug)]
pub struct ControlMessageResponseMessageHeaderDecoder<'d> {
    scratch: ScratchDecoderData<'d>,
}

impl<'d> ControlMessageResponseMessageHeaderDecoder<'d> {
    /// The state of the coder at this stage.
    pub closed spec fn scratch(&self) -> ScratchDecoderData<'d> {
        self.scratch
    }

    fn wrap(scratch: ScratchDecoderData<'d>)
        -> (stage: ControlMessageResponseMessageHeaderDecoder<'d>)
        ensures
            stage.scratch() == scratch,
    {
        ControlMessageResponseMessageHeaderDecoder { scratch }
    }

    /// Reads the message header, whatever template it names.
    ///
    /// Fails with `NotEnoughBytes` when fewer than 8 bytes are left.
    pub fn header(self) -> (r: CodecResult<(MessageHeader, ControlMessageResponseDataDecoder<'d>)>)
        ensures
            match r {
                Ok((header, next)) => {
                    &&& header == MessageHeader::parse(self.scratch().rest())
                    &&& self.scratch().moved(&next.scratch(), 8)
                    &&& next.block_length() == header.block_length
                },
                Err(error) => {
                    &&& error == CodecErr::NotEnoughBytes
                    &&& self.scratch().rest().len() < 8
                },
            },
    {
        let mut scratch = self.scratch;
        match scratch.read_message_header() {
            Ok(header) => Ok((header,
                ControlMessageResponseDataDecoder::wrap(scratch, header.block_length))),
            Err(error) => Err(error),
        }
    }
}

/// Starts to decode a `ControlMessageResponse` at the front of `data`.
pub fn start_decoding_control_message_response<'d>(data: &'d [u8])
    -> (decoder: ControlMessageResponseMessageHeaderDecoder<'d>)
    ensures
        decoder.scratch().bytes() == data@,
        decoder.scratch().position() == 0,
{
    ControlMessageResponseMessageHeaderDecoder::wrap(ScratchDecoderData::new(data))
}

/// The encoder of a `ControlMessageResponse` after its last part.
#[derive(Debug)]
pub struct ControlMessageResponseEncoderDone {
    scratch: ScratchEncoderData,
}

impl ControlMessageResponseEncoderDone {
    /// The state of the coder at this stage.
    pub closed spec fn scratch(&self) -> ScratchEncoderData {
        self.scratch
    }

    fn wrap(scratch: ScratchEncoderData) -> (stage: ControlMessageResponseEncoderDone)
        ensures
            stage.scratch() == scratch,
    {
        ControlMessageResponseEncoderDone { scratch }
    }

    /// The number of bytes encoded, and the buffer that holds them.
    pub fn unwrap(self) -> (r: (usize, Vec<u8>))
        ensures
            r.0 == self.scratch().position(),
            r.1@ == self.scratch().bytes(),
    {
        let position = self.scratch.position_value();
        (position, self.scratch.into_data())
    }
}

/// The encoder of a `ControlMessageResponse` in front of the field `data`.
#[derive(Debug)]
pub struct ControlMessageResponseDataEncoder {
    scratch: ScratchEncoderData,
}

impl ControlMessageResponseDataEncoder {
    /// The state of the coder at this stage.
    pub closed spec fn scratch(&self) -> ScratchEncoderData {
        self.scratch
    }

    fn wrap(scratch: ScratchEncoderData) -> (stage: ControlMessageResponseDataEncoder)
        ensures
            stage.scratch() == scratch,
    {
        ControlMessageResponseDataEncoder { scratch }
    }

    /// Writes the field `data`: its length as a `u16`, then its bytes.
    ///
    /// Fails with `SliceIsLongerThanAllowedBySchema` when `s` is longer than
    /// 65534 bytes, else with `NotEnoughBytes` when the buffer has no room
    /// for the length and the bytes.
    pub fn data(self, s: &[u8]) -> (r: CodecResult<ControlMessageResponseEncoderDone>)
        ensures
            match r {
                Ok(next) => {
                    &&& s@.len() <= MAX_VAR_DATA_LENGTH
                    &&& self.scratch().wrote(&next.scratch(), var_data(s@))
                },
                Err(error) => if s@.len() > MAX_VAR_DATA_LENGTH {
                    error == CodecErr::SliceIsLongerThanAllowedBySchema
                } else {
                    error == CodecErr::NotEnoughBytes && 2 + s@.len() > self.scratch().room()
                },
            },
    {
        let mut scratch = self.scratch;
        match scratch.write_var_data(s) {
            Ok(()) => Ok(ControlMessageResponseEncoderDone::wrap(scratch)),
            Err(error) => Err(error),
        }
    }
}

/// The encoder of a `ControlMessageResponse` in front of the message header.
#[derive(Debug)]
pub struct ControlMessageResponseMessageHeaderEncoder {
    scratch: ScratchEncoderData,
}

impl ControlMessageResponseMessageHeaderEncoder {
    /// The state of the coder at this stage.
    pub closed spec fn scratch(&self) -> ScratchEncoderData {
        self.scratch
    }

    fn wrap(scratch: ScratchEncoderData) -> (stage: ControlMessageResponseMessageHeaderEncoder)
        ensures
            stage.scratch() == scratch,
    {
        ControlMessageResponseMessageHeaderEncoder { scratch }
    }

    /// Writes the header that every ControlMessageResponse message carries, and hands it
    /// back beside the next stage.
    ///
    /// Fails with `NotEnoughBytes` when the buffer has less than 8 bytes of
    /// room.
    pub fn header(self) -> (r: CodecResult<(MessageHeader, ControlMessageResponseDataEncoder)>)
        ensures
            match r {
                Ok((header, next)) => {
                    &&& header == ControlMessageResponseMessageHeader::canonical()
                    &&& self.scratch().wrote(&next.scratch(), header.bytes())
                },
                Err(error) => error == CodecErr::NotEnoughBytes && self.scratch().room() < 8,
            },
    {
        let header = ControlMessageResponseMessageHeader::default().message_header;
        match self.header_copy(&header) {
            Ok(next) => Ok((header, next)),
            Err(error) => Err(error),
        }
    }

    /// Writes a message header of the caller's making.
    pub fn header_copy(self, t: &MessageHeader)
        -> (r: CodecResult<ControlMessageResponseDataEncoder>)
        ensures
            match r {
                Ok(next) => self.scratch().wrote(&next.scratch(), t.bytes()),
                Err(error) => error == CodecErr::NotEnoughBytes && self.scratch().room() < 8,
            },
    {
        let mut scratch = self.scratch;
        let bytes = t.to_vec();
        match scratch.write_slice_without_count(bytes.as_slice()) {
            Ok(()) => Ok(ControlMessageResponseDataEncoder::wrap(scratch)),
            Err(error) => Err(error),
        }
    }
}

/// Starts to encode a `ControlMessageResponse` at the front of the buffer `data`, which
/// is not made longer.
pub fn start_encoding_control_message_response(data: Vec<u8>)
    -> (encoder: ControlMessageResponseMessageHeaderEncoder)
    ensures
        encoder.scratch().bytes() == data@,
        encoder.scratch().position() == 0,
{
    ControlMessageResponseMessageHeaderEncoder::wrap(ScratchEncoderData::new(data))
}

/// The fixed block of a `SubscribedEvent`.
#[derive(Debug, PartialEq, Eq, Clone, Copy, Structural)]
pub struct SubscribedEventFields {
    pub partition_id: u16,
    pub position: u64,
    pub key: u64,
    pub subscriber_key: u64,
    pub subscription_type: SubscriptionType,
    pub event_type: EventType,
}

impl SubscribedEventFields {
    /// The 28 bytes of the block on the wire.
    pub open spec fn bytes(&self) -> Seq<u8> {
        le_bytes(self.partition_id as nat, 2)
            + le_bytes(self.position as nat, 8)
            + le_bytes(self.key as nat, 8)
            + le_bytes(self.subscriber_key as nat, 8)
            + seq![self.subscription_type.code()]
            + seq![self.event_type.code()]
    }

    /// The block that the first 28 bytes of `s` spell.
    pub open spec fn parse(s: Seq<u8>) -> CodecResult<SubscribedEventFields>
        recommends
            s.len() >= 28,
    {
        match SubscriptionType::of_code(s[26]) {
            None => Err(CodecErr::UnknownEnum(EnumKind::SubscriptionType, s[26] as u64)),
            Some(subscription_type) => 
            match EventType::of_code(s[27]) {
                None => Err(CodecErr::UnknownEnum(EnumKind::EventType, s[27] as u64)),
                Some(event_type) => Ok(
                    SubscribedEventFields {
                        partition_id: le_nat(s.subrange(0, 2)) as u16,
                        position: le_nat(s.subrange(2, 10)) as u64,
                        key: le_nat(s.subrange(10, 18)) as u64,
                        subscriber_key: le_nat(s.subrange(18, 26)) as u64,
                        subscription_type,
                        event_type,
                    },
                ),
            },
        }
    }

    /// The block as bytes.
    pub fn to_vec(&self) -> (out: Vec<u8>)
        ensures
            out@ == self.bytes(),
            out@.len() == 28,
    {
        let mut out: Vec<u8> = Vec::new();
        let mut part = u16_bytes(self.partition_id);
        out.append(&mut part);
        let mut part = u64_bytes(self.position);
        out.append(&mut part);
        let mut part = u64_bytes(self.key);
        out.append(&mut part);
        let mut part = u64_bytes(self.subscriber_key);
        out.append(&mut part);
        out.push(self.subscription_type.to_u8());
        out.push(self.event_type.to_u8());
        proof {
            lemma_le_bytes_len(self.partition_id as nat, 2);
            lemma_le_bytes_len(self.position as nat, 8);
            lemma_le_bytes_len(self.key as nat, 8);
            lemma_le_bytes_len(self.subscriber_key as nat, 8);
            assert(out@ =~= self.bytes());
        }
        out
    }

    /// The block at `data[pos..pos + 28]`.
    pub fn read(data: &[u8], pos: usize) -> (r: CodecResult<SubscribedEventFields>)
        requires
            pos + 28 <= data.len(),
        ensures
            r == SubscribedEventFields::parse(data@.subrange(pos as int, pos + 28)),
    {
        proof {
            let s = data@.subrange(pos as int, pos + 28);
            assert(s.subrange(0, 2) =~= data@.subrange(pos as int, pos + 2));
            assert(s.subrange(2, 10) =~= data@.subrange(pos + 2, pos + 10));
            assert(s.subrange(10, 18) =~= data@.subrange(pos + 10, pos + 18));
            assert(s.subrange(18, 26) =~= data@.subrange(pos + 18, pos + 26));
        }
        let subscription_type = match SubscriptionType::from_u8(data[pos + 26]) {
            Some(subscription_type) => subscription_type,
            None => {
                return Err(CodecErr::UnknownEnum(EnumKind::SubscriptionType, data[pos
                    + 26] as u64));
            },
        };
        let event_type = match EventType::from_u8(data[pos + 27]) {
            Some(event_type) => event_type,
            None => {
                return Err(CodecErr::UnknownEnum(EnumKind::EventType, data[pos + 27] as u64));
            },
        };
        Ok(
            SubscribedEventFields {
                partition_id: get_u16(data, pos),
                position: get_u64(data, pos + 2),
                key: get_u64(data, pos + 10),
                subscriber_key: get_u64(data, pos + 18),
                subscription_type,
                event_type,
            },
        )
    }

    /// A block reads back as itself.
    pub proof fn lemma_parse_bytes(self)
        ensures
            self.bytes().len() == 28,
            SubscribedEventFields::parse(self.bytes())
                == Ok::<SubscribedEventFields, CodecErr>(self),
    {
        let s = self.bytes();
        lemma_pow256_values();
        lemma_le_bytes_len(self.partition_id as nat, 2);
        lemma_le_bytes_len(self.position as nat, 8);
        lemma_le_bytes_len(self.key as nat, 8);
        lemma_le_bytes_len(self.subscriber_key as nat, 8);
        assert(s.subrange(0, 2) =~= le_bytes(self.partition_id as nat, 2));
        lemma_le_nat_of_le_bytes(self.partition_id as nat, 2);
        assert(s.subrange(2, 10) =~= le_bytes(self.position as nat, 8));
        lemma_le_nat_of_le_bytes(self.position as nat, 8);
        assert(s.subrange(10, 18) =~= le_bytes(self.key as nat, 8));
        lemma_le_nat_of_le_bytes(self.key as nat, 8);
        assert(s.subrange(18, 26) =~= le_bytes(self.subscriber_key as nat, 8));
        lemma_le_nat_of_le_bytes(self.subscriber_key as nat, 8);
        assert(s[26] == self.subscription_type.code());
        assert(s[27] == self.event_type.code());
    }
}

/// The message header of a `SubscribedEvent`.
#[derive(Debug, PartialEq, Eq, Clone, Copy, Structural)]
pub struct SubscribedEventMessageHeader {
    pub message_header: MessageHeader,
}

impl SubscribedEventMessageHeader {
    /// The header that every SubscribedEvent message carries.
    pub open spec fn canonical() -> MessageHeader {
        MessageHeader { block_length: 28, template_id: 30, schema_id: 0, version: 1 }
    }
}

impl Default for SubscribedEventMessageHeader {
    fn default() -> (header: SubscribedEventMessageHeader)
        ensures
            header.message_header == SubscribedEventMessageHeader::canonical(),
    {
        SubscribedEventMessageHeader {
            message_header: MessageHeader {
                block_length: 28u16,
                template_id: 30u16,
                schema_id: 0u16,
                version: 1u16,
            },
        }
    }
}

/// The decoder of a `SubscribedEvent` after its last part.
#[derive(Debug)]
pub struct SubscribedEventDecoderDone<'d> {
    scratch: ScratchDecoderData<'d>,
}

impl<'d> SubscribedEventDecoderDone<'d> {
    /// The state of the coder at this stage.
    pub closed spec fn scratch(&self) -> ScratchDecoderData<'d> {
        self.scratch
    }

    fn wrap(scratch: ScratchDecoderData<'d>) -> (stage: SubscribedEventDecoderDone<'d>)
        ensures
            stage.scratch() == scratch,
    {
        SubscribedEventDecoderDone { scratch }
    }

    /// The number of bytes decoded.
    pub fn unwrap(self) -> (n: usize)
        ensures
            n == self.scratch().position(),
            n <= self.scratch().bytes().len(),
    {
        self.scratch.position_value()
    }
}

/// The decoder of a `SubscribedEvent` in front of the field `event`.
#[derive(Debug)]
pub struct SubscribedEventEventDecoder<'d> {
    scratch: ScratchDecoderData<'d>,
}

impl<'d> SubscribedEventEventDecoder<'d> {
    /// The state of the coder at this stage.
    pub closed spec fn scratch(&self) -> ScratchDecoderData<'d> {
        self.scratch
    }

    fn wrap(scratch: ScratchDecoderData<'d>) -> (stage: SubscribedEventEventDecoder<'d>)
        ensures
            stage.scratch() == scratch,
    {
        SubscribedEventEventDecoder { scratch }
    }

    /// Reads the field `event`: a `u16` length and that many bytes.
    ///
    /// Fails with `NotEnoughBytes` when the length or the bytes it announces
    /// are not all there.
    pub fn event(self) -> (r: CodecResult<(&'d [u8], SubscribedEventDecoderDone<'d>)>)
        ensures
            match r {
                Ok((field, next)) => {
                    &&& parse_var_data(self.scratch().rest()) == Some(field@)
                    &&& self.scratch().moved(&next.scratch(), 2 + field@.len())
                },
                Err(error) => {
                    &&& error == CodecErr::NotEnoughBytes
                    &&& parse_var_data(self.scratch().rest()) is None
                },
            },
    {
        let mut scratch = self.scratch;
        match scratch.read_var_data() {
            Ok(field) => Ok((field, SubscribedEventDecoderDone::wrap(scratch))),
            Err(error) => Err(error),
        }
    }
}

/// The decoder of a `SubscribedEvent` in front of the field `topicName`.
#[derive(Debug)]
pub struct SubscribedEventTopicNameDecoder<'d> {
    scratch: ScratchDecoderData<'d>,
}

impl<'d> SubscribedEventTopicNameDecoder<'d> {
    /// The state of the coder at this stage.
    pub closed spec fn scratch(&self) -> ScratchDecoderData<'d> {
        self.scratch
    }

    fn wrap(scratch: ScratchDecoderData<'d>) -> (stage: SubscribedEventTopicNameDecoder<'d>)
        ensures
            stage.scratch() == scratch,
    {
        SubscribedEventTopicNameDecoder { scratch }
    }

    /// Reads the field `topicName`: a `u16` length and that many bytes.
    ///
    /// Fails with `NotEnoughBytes` when the length or the bytes it announces
    /// are not all there.
    pub fn topic_name(self) -> (r: CodecResult<(&'d [u8], SubscribedEventEventDecoder<'d>)>)
        ensures
            match r {
                Ok((field, next)) => {
                    &&& parse_var_data(self.scratch().rest()) == Some(field@)
                    &&& self.scratch().moved(&next.scratch(), 2 + field@.len())
                },
                Err(error) => {
                    &&& error == CodecErr::NotEnoughBytes
                    &&& parse_var_data(self.scratch().rest()) is None
                },
            },
    {
        let mut scratch = self.scratch;
        match scratch.read_var_data() {
            Ok(field) => Ok((field, SubscribedEventEventDecoder::wrap(scratch))),
            Err(error) => Err(error),
        }
    }
}

/// The decoder of a `SubscribedEvent` in front of the fixed block.
#[derive(Debug)]
pub struct SubscribedEventFieldsDecoder<'d> {
    scratch: ScratchDecoderData<'d>,
    block_length: u16,
}

impl<'d> SubscribedEventFieldsDecoder<'d> {
    /// The state of the coder at this stage.
    pub closed spec fn scratch(&self) -> ScratchDecoderData<'d> {
        self.scratch
    }

    /// The block length that the message header declared.
    pub closed spec fn block_length(&self) -> u16 {
        self.block_length
    }

    fn wrap(scratch: ScratchDecoderData<'d>, block_length: u16)
        -> (stage: SubscribedEventFieldsDecoder<'d>)
        ensures
            stage.scratch() == scratch,
            stage.block_length() == block_length,
    {
        SubscribedEventFieldsDecoder { scratch, block_length }
    }

    /// Reads the fixed block.
    ///
    /// The block is as long as the message header declared. Its first
    /// 28 bytes are read and the rest is skipped. Fails with `NotEnoughBytes`
    /// when the header declared less than 28 bytes or the block is not
    /// all there, and with `UnknownEnum` when a byte names no variant.
    pub fn subscribed_event_fields(self)
        -> (r: CodecResult<(SubscribedEventFields, SubscribedEventTopicNameDecoder<'d>)>)
        ensures
            match r {
                Ok((fields, next)) => {
                    &&& self.block_length() >= 28
                    &&& SubscribedEventFields::parse(self.scratch().rest().take(28))
                        == Ok::<SubscribedEventFields, CodecErr>(fields)
                    &&& self.scratch().moved(&next.scratch(), self.block_length() as nat)
                },
                Err(error) => if self.block_length() < 28 || self.scratch().rest().len()
                    < self.block_length() {
                    error == CodecErr::NotEnoughBytes
                } else {
                    SubscribedEventFields::parse(self.scratch().rest().take(28))
                        == Err::<SubscribedEventFields, CodecErr>(error)
                },
            },
    {
        let mut scratch = self.scratch;
        let block_length = self.block_length as usize;
        if block_length < 28 || scratch.remaining() < block_length {
            return Err(CodecErr::NotEnoughBytes);
        }
        let pos = scratch.position_value();
        proof {
            assert(scratch.rest().take(28) =~= scratch.bytes().subrange(pos as int, pos + 28));
        }
        let fields = match SubscribedEventFields::read(scratch.data(), pos) {
            Ok(fields) => fields,
            Err(error) => {
                return Err(error);
            },
        };
        match scratch.skip_bytes(block_length) {
            Ok(()) => Ok((fields, SubscribedEventTopicNameDecoder::wrap(scratch))),
            Err(error) => Err(error),
        }
    }
}

/// The decoder of a `SubscribedEvent` in front of the message header.
#[derive(Debug)]
pub struct SubscribedEventMessageHeaderDecoder<'d> {
    scratch: ScratchDecoderData<'d>,
}

impl<'d> SubscribedEventMessageHeaderDecoder<'d> {
    /// The state of the coder at this stage.
    pub closed spec fn scratch(&self) -> ScratchDecoderData<'d> {
        self.scratch
    }

    fn wrap(scratch: ScratchDecoderData<'d>) -> (stage: SubscribedEventMessageHeaderDecoder<'d>)
        ensures
            stage.scratch() == scratch,
    {
        SubscribedEventMessageHeaderDecoder { scratch }
    }

    /// Reads the message header, whatever template it names.
    ///
    /// Fails with `NotEnoughBytes` when fewer than 8 bytes are left.
    pub fn header(self) -> (r: CodecResult<(MessageHeader, SubscribedEventFieldsDecoder<'d>)>)
        ensures
            match r {
                Ok((header, next)) => {
                    &&& header == MessageHeader::parse(self.scratch().rest())
                    &&& self.scratch().moved(&next.scratch(), 8)
                    &&& next.block_length() == header.block_length
                },
                Err(error) => {
                    &&& error == CodecErr::NotEnoughBytes
                    &&& self.scratch().rest().len() < 8
                },
            },
    {
        let mut scratch = self.scratch;
        match scratch.read_message_header() {
            Ok(header) => Ok((header,
                SubscribedEventFieldsDecoder::wrap(scratch, header.block_length))),
            Err(error) => Err(error),
        }
    }
}

/// Starts to decode a `SubscribedEvent` at the front of `data`.
pub fn start_decoding_subscribed_event<'d>(data: &'d [u8])
    -> (decoder: SubscribedEventMessageHeaderDecoder<'d>)
    ensures
        decoder.scratch().bytes() == data@,
        decoder.scratch().position() == 0,
{
    SubscribedEventMessageHeaderDecoder::wrap(ScratchDecoderData::new(data))
}

/// The encoder of a `SubscribedEvent` after its last part.
#[derive(Debug)]
pub struct SubscribedEventEncoderDone {
    scratch: ScratchEncoderData,
}

impl SubscribedEventEncoderDone {
    /// The state of the coder at this stage.
    pub closed spec fn scratch(&self) -> ScratchEncoderData {
        self.scratch
    }

    fn wrap(scratch: ScratchEncoderData) -> (stage: SubscribedEventEncoderDone)
        ensures
            stage.scratch() == scratch,
    {
        SubscribedEventEncoderDone { scratch }
    }

    /// The number of bytes encoded, and the buffer that holds them.
    pub fn unwrap(self) -> (r: (usize, Vec<u8>))
        ensures
            r.0 == self.scratch().position(),
            r.1@ == self.scratch().bytes(),
    {
        let position = self.scratch.position_value();
        (position, self.scratch.into_data())
    }
}

/// The encoder of a `SubscribedEvent` in front of the field `event`.
#[derive(Debug)]
pub struct SubscribedEventEventEncoder {
    scratch: ScratchEncoderData,
}

impl SubscribedEventEventEncoder {
    /// The state of the coder at this stage.
    pub closed spec fn scratch(&self) -> ScratchEncoderData {
        self.scratch
    }

    fn wrap(scratch: ScratchEncoderData) -> (stage: SubscribedEventEventEncoder)
        ensures
            stage.scratch() == scratch,
    {
        SubscribedEventEventEncoder { scratch }
    }

    /// Writes the field `event`: its length as a `u16`, then its bytes.
    ///
    /// Fails with `SliceIsLongerThanAllowedBySchema` when `s` is longer than
    /// 65534 bytes, else with `NotEnoughBytes` when the buffer has no room
    /// for the length and the bytes.
    pub fn event(self, s: &[u8]) -> (r: CodecResult<SubscribedEventEncoderDone>)
        ensures
            match r {
                Ok(next) => {
                    &&& s@.len() <= MAX_VAR_DATA_LENGTH
                    &&& self.scratch().wrote(&next.scratch(), var_data(s@))
                },
                Err(error) => if s@.len() > MAX_VAR_DATA_LENGTH {
                    error == CodecErr::SliceIsLongerThanAllowedBySchema
                } else {
                    error == CodecErr::NotEnoughBytes && 2 + s@.len() > self.scratch().room()
                },
            },
    {
        let mut scratch = self.scratch;
        match scratch.write_var_data(s) {
            Ok(()) => Ok(SubscribedEventEncoderDone::wrap(scratch)),
            Err(error) => Err(error),
        }
    }
}

/// The encoder of a `SubscribedEvent` in front of the field `topicName`.
#[derive(Debug)]
pub struct SubscribedEventTopicNameEncoder {
    scratch: ScratchEncoderData,
}

impl SubscribedEventTopicNameEncoder {
    /// The state of the coder at this stage.
    pub closed spec fn scratch(&self) -> ScratchEncoderData {
        self.scratch
    }

    fn wrap(scratch: ScratchEncoderData) -> (stage: SubscribedEventTopicNameEncoder)
        ensures
            stage.scratch() == scratch,
    {
        SubscribedEventTopicNameEncoder { scratch }
    }

    /// Writes the field `topicName`: its length as a `u16`, then its bytes.
    ///
    /// Fails with `SliceIsLongerThanAllowedBySchema` when `s` is longer than
    /// 65534 bytes, else with `NotEnoughBytes` when the buffer has no room
    /// for the length and the bytes.
    pub fn topic_name(self, s: &[u8]) -> (r: CodecResult<SubscribedEventEventEncoder>)
        ensures
            match r {
                Ok(next) => {
                    &&& s@.len() <= MAX_VAR_DATA_LENGTH
                    &&& self.scratch().wrote(&next.scratch(), var_data(s@))
                },
                Err(error) => if s@.len() > MAX_VAR_DATA_LENGTH {
                    error == CodecErr::SliceIsLongerThanAllowedBySchema
                } else {
                    error == CodecErr::NotEnoughBytes && 2 + s@.len() > self.scratch().room()
                },
            },
    {
        let mut scratch = self.scratch;
        match scratch.write_var_data(s) {
            Ok(()) => Ok(SubscribedEventEventEncoder::wrap(scratch)),
            Err(error) => Err(error),
        }
    }
}

/// The encoder of a `SubscribedEvent` in front of the fixed block.
#[derive(Debug)]
pub struct SubscribedEventFieldsEncoder {
    scratch: ScratchEncoderData,
}

impl SubscribedEventFieldsEncoder {
    /// The state of the coder at this stage.
    pub closed spec fn scratch(&self) -> ScratchEncoderData {
        self.scratch
    }

    fn wrap(scratch: ScratchEncoderData) -> (stage: SubscribedEventFieldsEncoder)
        ensures
            stage.scratch() == scratch,
    {
        SubscribedEventFieldsEncoder { scratch }
    }

    /// Writes the fixed block.
    ///
    /// Fails with `NotEnoughBytes` when the buffer has less than 28 bytes of
    /// room.
    pub fn subscribed_event_fields(self, fields: SubscribedEventFields)
        -> (r: CodecResult<SubscribedEventTopicNameEncoder>)
        ensures
            match r {
                Ok(next) => self.scratch().wrote(&next.scratch(), fields.bytes()),
                Err(error) => error == CodecErr::NotEnoughBytes && self.scratch().room() < 28,
            },
    {
        self.subscribed_event_fields_copy(&fields)
    }

    /// Writes the fixed block, taken by reference.
    pub fn subscribed_event_fields_copy(self, t: &SubscribedEventFields)
        -> (r: CodecResult<SubscribedEventTopicNameEncoder>)
        ensures
            match r {
                Ok(next) => self.scratch().wrote(&next.scratch(), t.bytes()),
                Err(error) => error == CodecErr::NotEnoughBytes && self.scratch().room() < 28,
            },
    {
        let mut scratch = self.scratch;
        let bytes = t.to_vec();
        match scratch.write_slice_without_count(bytes.as_slice()) {
            Ok(()) => Ok(SubscribedEventTopicNameEncoder::wrap(scratch)),
            Err(error) => Err(error),
        }
    }
}

/// The encoder of a `SubscribedEvent` in front of the message header.
#[derive(Debug)]
pub struct SubscribedEventMessageHeaderEncoder {
    scratch: ScratchEncoderData,
}

impl SubscribedEventMessageHeaderEncoder {
    /// The state of the coder at this stage.
    pub closed spec fn scratch(&self) -> ScratchEncoderData {
        self.scratch
    }

    fn wrap(scratch: ScratchEncoderData) -> (stage: SubscribedEventMessageHeaderEncoder)
        ensures
            stage.scratch() == scratch,
    {
        SubscribedEventMessageHeaderEncoder { scratch }
    }

    /// Writes the header that every SubscribedEvent message carries, and hands it
    /// back beside the next stage.
    ///
    /// Fails with `NotEnoughBytes` when the buffer has less than 8 bytes of
    /// room.
    pub fn header(self) -> (r: CodecResult<(MessageHeader, SubscribedEventFieldsEncoder)>)
        ensures
            match r {
                Ok((header, next)) => {
                    &&& header == SubscribedEventMessageHeader::canonical()
                    &&& self.scratch().wrote(&next.scratch(), header.bytes())
                },
                Err(error) => error == CodecErr::NotEnoughBytes && self.scratch().room() < 8,
            },
    {
        let header = SubscribedEventMessageHeader::default().message_header;
        match self.header_copy(&header) {
            Ok(next) => Ok((header, next)),
            Err(error) => Err(error),
        }
    }

    /// Writes a message header of the caller's making.
    pub fn header_copy(self, t: &MessageHeader) -> (r: CodecResult<SubscribedEventFieldsEncoder>)
        ensures
            match r {
                Ok(next) => self.scratch().wrote(&next.scratch(), t.bytes()),
                Err(error) => error == CodecErr::NotEnoughBytes && self.scratch().room() < 8,
            },
    {
        let mut scratch = self.scratch;
        let bytes = t.to_vec();
        match scratch.write_slice_without_count(bytes.as_slice()) {
            Ok(()) => Ok(SubscribedEventFieldsEncoder::wrap(scratch)),
            Err(error) => Err(error),
        }
    }
}

/// Starts to encode a `SubscribedEvent` at the front of the buffer `data`, which
/// is not made longer.
pub fn start_encoding_subscribed_event(data: Vec<u8>)
    -> (encoder: SubscribedEventMessageHeaderEncoder)
    ensures
        encoder.scratch().bytes() == data@,
        encoder.scratch().position() == 0,
{
    SubscribedEventMessageHeaderEncoder::wrap(ScratchEncoderData::new(data))
}

/// The fixed block of an `AppendRequest`.
#[derive(Debug, PartialEq, Eq, Clone, Copy, Structural)]
pub struct AppendRequestFields {
    pub partition_id: u16,
    pub term: u16,
    pub previous_event_position: u64,
    pub previous_event_term: i32,
    pub commit_position: u64,
    pub port: u16,
}

impl AppendRequestFields {
    /// The 26 bytes of the block on the wire.
    pub open spec fn bytes(&self) -> Seq<u8> {
        le_bytes(self.partition_id as nat, 2)
            + le_bytes(self.term as nat, 2)
            + le_bytes(self.previous_event_position as nat, 8)
            + le_bytes_signed(self.previous_event_term as int, 4)
            + le_bytes(self.commit_position as nat, 8)
            + le_bytes(self.port as nat, 2)
    }

    /// The block that the first 26 bytes of `s` spell.
    pub open spec fn parse(s: Seq<u8>) -> CodecResult<AppendRequestFields>
        recommends
            s.len() >= 26,
    {
        Ok(
            AppendRequestFields {
                partition_id: le_nat(s.subrange(0, 2)) as u16,
                term: le_nat(s.subrange(2, 4)) as u16,
                previous_event_position: le_nat(s.subrange(4, 12)) as u64,
                previous_event_term: le_int(s.subrange(12, 16)) as i32,
                commit_position: le_nat(s.subrange(16, 24)) as u64,
                port: le_nat(s.subrange(24, 26)) as u16,
            },
        )
    }

    /// The block as bytes.
    pub fn to_vec(&self) -> (out: Vec<u8>)
        ensures
            out@ == self.bytes(),
            out@.len() == 26,
    {
        let mut out: Vec<u8> = Vec::new();
        let mut part = u16_bytes(self.partition_id);
        out.append(&mut part);
        let mut part = u16_bytes(self.term);
        out.append(&mut part);
        let mut part = u64_bytes(self.previous_event_position);
        out.append(&mut part);
        let mut part = i32_bytes(self.previous_event_term);
        out.append(&mut part);
        let mut part = u64_bytes(self.commit_position);
        out.append(&mut part);
        let mut part = u16_bytes(self.port);
        out.append(&mut part);
        proof {
            lemma_le_bytes_len(self.partition_id as nat, 2);
            lemma_le_bytes_len(self.term as nat, 2);
            lemma_le_bytes_len(self.previous_event_position as nat, 8);
            lemma_le_bytes_signed_len(self.previous_event_term as int, 4);
            lemma_le_bytes_len(self.commit_position as nat, 8);
            lemma_le_bytes_len(self.port as nat, 2);
            assert(out@ =~= self.bytes());
        }
        out
    }

    /// The block at `data[pos..pos + 26]`.
    pub fn read(data: &[u8], pos: usize) -> (r: CodecResult<AppendRequestFields>)
        requires
            pos + 26 <= data.len(),
        ensures
            r == AppendRequestFields::parse(data@.subrange(pos as int, pos + 26)),
    {
        proof {
            let s = data@.subrange(pos as int, pos + 26);
            assert(s.subrange(0, 2) =~= data@.subrange(pos as int, pos + 2));
            assert(s.subrange(2, 4) =~= data@.subrange(pos + 2, pos + 4));
            assert(s.subrange(4, 12) =~= data@.subrange(pos + 4, pos + 12));
            assert(s.subrange(12, 16) =~= data@.subrange(pos + 12, pos + 16));
            assert(s.subrange(16, 24) =~= data@.subrange(pos + 16, pos + 24));
            assert(s.subrange(24, 26) =~= data@.subrange(pos + 24, pos + 26));
        }
        Ok(
            AppendRequestFields {
                partition_id: get_u16(data, pos),
                term: get_u16(data, pos + 2),
                previous_event_position: get_u64(data, pos + 4),
                previous_event_term: get_i32(data, pos + 12),
                commit_position: get_u64(data, pos + 16),
                port: get_u16(data, pos + 24),
            },
        )
    }

    /// A block reads back as itself.
    pub proof fn lemma_parse_bytes(self)
        ensures
            self.bytes().len() == 26,
            AppendRequestFields::parse(self.bytes()) == Ok::<AppendRequestFields, CodecErr>(self),
    {
        let s = self.bytes();
        lemma_pow256_values();
        lemma_le_bytes_len(self.partition_id as nat, 2);
        lemma_le_bytes_len(self.term as nat, 2);
        lemma_le_bytes_len(self.previous_event_position as nat, 8);
        lemma_le_bytes_signed_len(self.previous_event_term as int, 4);
        lemma_le_bytes_len(self.commit_position as nat, 8);
        lemma_le_bytes_len(self.port as nat, 2);
        assert(s.subrange(0, 2) =~= le_bytes(self.partition_id as nat, 2));
        lemma_le_nat_of_le_bytes(self.partition_id as nat, 2);
        assert(s.subrange(2, 4) =~= le_bytes(self.term as nat, 2));
        lemma_le_nat_of_le_bytes(self.term as nat, 2);
        assert(s.subrange(4, 12) =~= le_bytes(self.previous_event_position as nat, 8));
        lemma_le_nat_of_le_bytes(self.previous_event_position as nat, 8);
        assert(s.subrange(12, 16) =~= le_bytes_signed(self.previous_event_term as int, 4));
        lemma_le_int_of_le_bytes_signed(self.previous_event_term as int, 4);
        assert(s.subrange(16, 24) =~= le_bytes(self.commit_position as nat, 8));
        lemma_le_nat_of_le_bytes(self.commit_position as nat, 8);
        assert(s.subrange(24, 26) =~= le_bytes(self.port as nat, 2));
        lemma_le_nat_of_le_bytes(self.port as nat, 2);
    }
}

/// The message header of an `AppendRequest`.
#[derive(Debug, PartialEq, Eq, Clone, Copy, Structural)]
pub struct AppendRequestMessageHeader {
    pub message_header: MessageHeader,
}

impl AppendRequestMessageHeader {
    /// The header that every AppendRequest message carries.
    pub open spec fn canonical() -> MessageHeader {
        MessageHeader { block_length: 26, template_id: 10, schema_id: 4, version: 1 }
    }
}

impl Default for AppendRequestMessageHeader {
    fn default() -> (header: AppendRequestMessageHeader)
        ensures
            header.message_header == AppendRequestMessageHeader::canonical(),
    {
        AppendRequestMessageHeader {
            message_header: MessageHeader {
                block_length: 26u16,
                template_id: 10u16,
                schema_id: 4u16,
                version: 1u16,
            },
        }
    }
}

/// The decoder of an `AppendRequest` after its last part.
#[derive(Debug)]
pub struct AppendRequestDecoderDone<'d> {
    scratch: ScratchDecoderData<'d>,
}

impl<'d> AppendRequestDecoderDone<'d> {
    /// The state of the coder at this stage.
    pub closed spec fn scratch(&self) -> ScratchDecoderData<'d> {
        self.scratch
    }

    fn wrap(scratch: ScratchDecoderData<'d>) -> (stage: AppendRequestDecoderDone<'d>)
        ensures
            stage.scratch() == scratch,
    {
        AppendRequestDecoderDone { scratch }
    }

    /// The number of bytes decoded.
    pub fn unwrap(self) -> (n: usize)
        ensures
            n == self.scratch().position(),
            n <= self.scratch().bytes().len(),
    {
        self.scratch.position_value()
    }
}

/// The decoder of an `AppendRequest` in front of the field `data`.
#[derive(Debug)]
pub struct AppendRequestDataDecoder<'d> {
    scratch: ScratchDecoderData<'d>,
}

impl<'d> AppendRequestDataDecoder<'d> {
    /// The state of the coder at this stage.
    pub closed spec fn scratch(&self) -> ScratchDecoderData<'d> {
        self.scratch
    }

    fn wrap(scratch: ScratchDecoderData<'d>) -> (stage: AppendRequestDataDecoder<'d>)
        ensures
            stage.scratch() == scratch,
    {
        AppendRequestDataDecoder { scratch }
    }

    /// Reads the field `data`: a `u16` length and that many bytes.
    ///
    /// Fails with `NotEnoughBytes` when the length or the bytes it announces
    /// are not all there.
    pub fn data(self) -> (r: CodecResult<(&'d [u8], AppendRequestDecoderDone<'d>)>)
        ensures
            match r {
                Ok((field, next)) => {
                    &&& parse_var_data(self.scratch().rest()) == Some(field@)
                    &&& self.scratch().moved(&next.scratch(), 2 + field@.len())
                },
                Err(error) => {
                    &&& error == CodecErr::NotEnoughBytes
                    &&& parse_var_data(self.scratch().rest()) is None
                },
            },
    {
        let mut scratch = self.scratch;
        match scratch.read_var_data() {
            Ok(field) => Ok((field, AppendRequestDecoderDone::wrap(scratch))),
            Err(error) => Err(error),
        }
    }
}

/// The decoder of an `AppendRequest` in front of the field `host`.
#[derive(Debug)]
pub struct AppendRequestHostDecoder<'d> {
    scratch: ScratchDecoderData<'d>,
}

impl<'d> AppendRequestHostDecoder<'d> {
    /// The state of the coder at this stage.
    pub closed spec fn scratch(&self) -> ScratchDecoderData<'d> {
        self.scratch
    }

    fn wrap(scratch: ScratchDecoderData<'d>) -> (stage: AppendRequestHostDecoder<'d>)
        ensures
            stage.scratch() == scratch,
    {
        AppendRequestHostDecoder { scratch }
    }

    /// Reads the field `host`: a `u16` length and that many bytes.
    ///
    /// Fails with `NotEnoughBytes` when the length or the bytes it announces
    /// are not all there.
    pub fn host(self) -> (r: CodecResult<(&'d [u8], AppendRequestDataDecoder<'d>)>)
        ensures
            match r {
                Ok((field, next)) => {
                    &&& parse_var_data(self.scratch().rest()) == Some(field@)
                    &&& self.scratch().moved(&next.scratch(), 2 + field@.len())
                },
                Err(error) => {
                    &&& error == CodecErr::NotEnoughBytes
                    &&& parse_var_data(self.scratch().rest()) is None
                },
            },
    {
        let mut scratch = self.scratch;
        match scratch.read_var_data() {
            Ok(field) => Ok((field, AppendRequestDataDecoder::wrap(scratch))),
            Err(error) => Err(error),
        }
    }
}

/// The decoder of an `AppendRequest` in front of the field `topicName`.
#[derive(Debug)]
pub struct AppendRequestTopicNameDecoder<'d> {
    scratch: ScratchDecoderData<'d>,
}

impl<'d> AppendRequestTopicNameDecoder<'d> {
    /// The state of the coder at this stage.
    pub closed spec fn scratch(&self) -> ScratchDecoderData<'d> {
        self.scratch
    }

    fn wrap(scratch: ScratchDecoderData<'d>) -> (stage: AppendRequestTopicNameDecoder<'d>)
        ensures
            stage.scratch() == scratch,
    {
        AppendRequestTopicNameDecoder { scratch }
    }

    /// Reads the field `topicName`: a `u16` length and that many bytes.
    ///
    /// Fails with `NotEnoughBytes` when the length or the bytes it announces
    /// are not all there.
    pub fn topic_name(self) -> (r: CodecResult<(&'d [u8], AppendRequestHostDecoder<'d>)>)
        ensures
            match r {
                Ok((field, next)) => {
                    &&& parse_var_data(self.scratch().rest()) == Some(field@)
                    &&& self.scratch().moved(&next.scratch(), 2 + field@.len())
                },
                Err(error) => {
                    &&& error == CodecErr::NotEnoughBytes
                    &&& parse_var_data(self.scratch().rest()) is None
                },
            },
    {
        let mut scratch = self.scratch;
        match scratch.read_var_data() {
            Ok(field) => Ok((field, AppendRequestHostDecoder::wrap(scratch))),
            Err(error) => Err(error),
        }
    }
}

/// The decoder of an `AppendRequest` in front of the fixed block.
#[derive(Debug)]
pub struct AppendRequestFieldsDecoder<'d> {
    scratch: ScratchDecoderData<'d>,
    block_length: u16,
}

impl<'d> AppendRequestFieldsDecoder<'d> {
    /// The state of the coder at this stage.
    pub closed spec fn scratch(&self) -> ScratchDecoderData<'d> {
        self.scratch
    }

    /// The block length that the message header declared.
    pub closed spec fn block_length(&self) -> u16 {
        self.block_length
    }

    fn wrap(scratch: ScratchDecoderData<'d>, block_length: u16)
        -> (stage: AppendRequestFieldsDecoder<'d>)
        ensures
            stage.scratch() == scratch,
            stage.block_length() == block_length,
    {
        AppendRequestFieldsDecoder { scratch, block_length }
    }

    /// Reads the fixed block.
    ///
    /// The block is as long as the message header declared. Its first
    /// 26 bytes are read and the rest is skipped. Fails with `NotEnoughBytes`
    /// when the header declared less than 26 bytes or the block is not
    /// all there, and with `UnknownEnum` when a byte names no variant.
    pub fn append_request_fields(self)
        -> (r: CodecResult<(AppendRequestFields, AppendRequestTopicNameDecoder<'d>)>)
        ensures
            match r {
                Ok((fields, next)) => {
                    &&& self.block_length() >= 26
                    &&& AppendRequestFields::parse(self.scratch().rest().take(26))
                        == Ok::<AppendRequestFields, CodecErr>(fields)
                    &&& self.scratch().moved(&next.scratch(), self.block_length() as nat)
                },
                Err(error) => if self.block_length() < 26 || self.scratch().rest().len()
                    < self.block_length() {
                    error == CodecErr::NotEnoughBytes
                } else {
                    AppendRequestFields::parse(self.scratch().rest().take(26))
                        == Err::<AppendRequestFields, CodecErr>(error)
                },
            },
    {
        let mut scratch = self.scratch;
        let block_length = self.block_length as usize;
        if block_length < 26 || scratch.remaining() < block_length {
            return Err(CodecErr::NotEnoughBytes);
        }
        let pos = scratch.position_value();
        proof {
            assert(scratch.rest().take(26) =~= scratch.bytes().subrange(pos as int, pos + 26));
        }
        let fields = match AppendRequestFields::read(scratch.data(), pos) {
            Ok(fields) => fields,
            Err(error) => {
                return Err(error);
            },
        };
        match scratch.skip_bytes(block_length) {
            Ok(()) => Ok((fields, AppendRequestTopicNameDecoder::wrap(scratch))),
            Err(error) => Err(error),
        }
    }
}

/// The decoder of an `AppendRequest` in front of the message header.
#[derive(Debug)]
pub struct AppendRequestMessageHeaderDecoder<'d> {
    scratch: ScratchDecoderData<'d>,
}

impl<'d> AppendRequestMessageHeaderDecoder<'d> {
    /// The state of the coder at this stage.
    pub closed spec fn scratch(&self) -> ScratchDecoderData<'d> {
        self.scratch
    }

    fn wrap(scratch: ScratchDecoderData<'d>) -> (stage: AppendRequestMessageHeaderDecoder<'d>)
        ensures
            stage.scratch() == scratch,
    {
        AppendRequestMessageHeaderDecoder { scratch }
    }

    /// Reads the message header, whatever template it names.
    ///
    /// Fails with `NotEnoughBytes` when fewer than 8 bytes are left.
    pub fn header(self) -> (r: CodecResult<(MessageHeader, AppendRequestFieldsDecoder<'d>)>)
        ensures
            match r {
                Ok((header, next)) => {
                    &&& header == MessageHeader::parse(self.scratch().rest())
                    &&& self.scratch().moved(&next.scratch(), 8)
                    &&& next.block_length() == header.block_length
                },
                Err(error) => {
                    &&& error == CodecErr::NotEnoughBytes
                    &&& self.scratch().rest().len() < 8
                },
            },
    {
        let mut scratch = self.scratch;
        match scratch.read_message_header() {
            Ok(header) => Ok((header,
                AppendRequestFieldsDecoder::wrap(scratch, header.block_length))),
            Err(error) => Err(error),
        }
    }
}

/// Starts to decode an `AppendRequest` at the front of `data`.
pub fn start_decoding_append_request<'d>(data: &'d [u8])
    -> (decoder: AppendRequestMessageHeaderDecoder<'d>)
    ensures
        decoder.scratch().bytes() == data@,
        decoder.scratch().position() == 0,
{
    AppendRequestMessageHeaderDecoder::wrap(ScratchDecoderData::new(data))
}

/// The encoder of an `AppendRequest` after its last part.
#[derive(Debug)]
pub struct AppendRequestEncoderDone {
    scratch: ScratchEncoderData,
}

impl AppendRequestEncoderDone {
    /// The state of the coder at this stage.
    pub closed spec fn scratch(&self) -> ScratchEncoderData {
        self.scratch
    }

    fn wrap(scratch: ScratchEncoderData) -> (stage: AppendRequestEncoderDone)
        ensures
            stage.scratch() == scratch,
    {
        AppendRequestEncoderDone { scratch }
    }

    /// The number of bytes encoded, and the buffer that holds them.
    pub fn unwrap(self) -> (r: (usize, Vec<u8>))
        ensures
            r.0 == self.scratch().position(),
            r.1@ == self.scratch().bytes(),
    {
        let position = self.scratch.position_value();
        (position, self.scratch.into_data())
    }
}

/// The encoder of an `AppendRequest` in front of the field `data`.
#[derive(Debug)]
pub struct AppendRequestDataEncoder {
    scratch: ScratchEncoderData,
}

impl AppendRequestDataEncoder {
    /// The state of the coder at this stage.
    pub closed spec fn scratch(&self) -> ScratchEncoderData {
        self.scratch
    }

    fn wrap(scratch: ScratchEncoderData) -> (stage: AppendRequestDataEncoder)
        ensures
            stage.scratch() == scratch,
    {
        AppendRequestDataEncoder { scratch }
    }

    /// Writes the field `data`: its length as a `u16`, then its bytes.
    ///
    /// Fails with `SliceIsLongerThanAllowedBySchema` when `s` is longer than
    /// 65534 bytes, else with `NotEnoughBytes` when the buffer has no room
    /// for the length and the bytes.
    pub fn data(self, s: &[u8]) -> (r: CodecResult<AppendRequestEncoderDone>)
        ensures
            match r {
                Ok(next) => {
                    &&& s@.len() <= MAX_VAR_DATA_LENGTH
                    &&& self.scratch().wrote(&next.scratch(), var_data(s@))
                },
                Err(error) => if s@.len() > MAX_VAR_DATA_LENGTH {
                    error == CodecErr::SliceIsLongerThanAllowedBySchema
                } else {
                    error == CodecErr::NotEnoughBytes && 2 + s@.len() > self.scratch().room()
                },
            },
    {
        let mut scratch = self.scratch;
        match scratch.write_var_data(s) {
            Ok(()) => Ok(AppendRequestEncoderDone::wrap(scratch)),
            Err(error) => Err(error),
        }
    }
}

/// The encoder of an `AppendRequest` in front of the field `host`.
#[derive(Debug)]
pub struct AppendRequestHostEncoder {
    scratch: ScratchEncoderData,
}

impl AppendRequestHostEncoder {
    /// The state of the coder at this stage.
    pub closed spec fn scratch(&self) -> ScratchEncoderData {
        self.scratch
    }

    fn wrap(scratch: ScratchEncoderData) -> (stage: AppendRequestHostEncoder)
        ensures
            stage.scratch() == scratch,
    {
        AppendRequestHostEncoder { scratch }
    }

    /// Writes the field `host`: its length as a `u16`, then its bytes.
    ///
    /// Fails with `SliceIsLongerThanAllowedBySchema` when `s` is longer than
    /// 65534 bytes, else with `NotEnoughBytes` when the buffer has no room
    /// for the length and the bytes.
    pub fn host(self, s: &[u8]) -> (r: CodecResult<AppendRequestDataEncoder>)
        ensures
            match r {
                Ok(next) => {
                    &&& s@.len() <= MAX_VAR_DATA_LENGTH
                    &&& self.scratch().wrote(&next.scratch(), var_data(s@))
                },
                Err(error) => if s@.len() > MAX_VAR_DATA_LENGTH {
                    error == CodecErr::SliceIsLongerThanAllowedBySchema
                } else {
                    error == CodecErr::NotEnoughBytes && 2 + s@.len() > self.scratch().room()
                },
            },
    {
        let mut scratch = self.scratch;
        match scratch.write_var_data(s) {
            Ok(()) => Ok(AppendRequestDataEncoder::wrap(scratch)),
            Err(error) => Err(error),
        }
    }
}

/// The encoder of an `AppendRequest` in front of the field `topicName`.
#[derive(Debug)]
pub struct AppendRequestTopicNameEncoder {
    scratch: ScratchEncoderData,
}

impl AppendRequestTopicNameEncoder {
    /// The state of the coder at this stage.
    pub closed spec fn scratch(&self) -> ScratchEncoderData {
        self.scratch
    }

    fn wrap(scratch: ScratchEncoderData) -> (stage: AppendRequestTopicNameEncoder)
        ensures
            stage.scratch() == scratch,
    {
        AppendRequestTopicNameEncoder { scratch }
    }

    /// Writes the field `topicName`: its length as a `u16`, then its bytes.
    ///
    /// Fails with `SliceIsLongerThanAllowedBySchema` when `s` is longer than
    /// 65534 bytes, else with `NotEnoughBytes` when the buffer has no room
    /// for the length and the bytes.
    pub fn topic_name(self, s: &[u8]) -> (r: CodecResult<AppendRequestHostEncoder>)
        ensures
            match r {
                Ok(next) => {
                    &&& s@.len() <= MAX_VAR_DATA_LENGTH
                    &&& self.scratch().wrote(&next.scratch(), var_data(s@))
                },
                Err(error) => if s@.len() > MAX_VAR_DATA_LENGTH {
                    error == CodecErr::SliceIsLongerThanAllowedBySchema
                } else {
                    error == CodecErr::NotEnoughBytes && 2 + s@.len() > self.scratch().room()
                },
            },
    {
        let mut scratch = self.scratch;
        match scratch.write_var_data(s) {
            Ok(()) => Ok(AppendRequestHostEncoder::wrap(scratch)),
            Err(error) => Err(error),
        }
    }
}

/// The encoder of an `AppendRequest` in front of the fixed block.
#[derive(Debug)]
pub struct AppendRequestFieldsEncoder {
    scratch: ScratchEncoderData,
}

impl AppendRequestFieldsEncoder {
    /// The state of the coder at this stage.
    pub closed spec fn scratch(&self) -> ScratchEncoderData {
        self.scratch
    }

    fn wrap(scratch: ScratchEncoderData) -> (stage: AppendRequestFieldsEncoder)
        ensures
            stage.scratch() == scratch,
    {
        AppendRequestFieldsEncoder { scratch }
    }

    /// Writes the fixed block.
    ///
    /// Fails with `NotEnoughBytes` when the buffer has less than 26 bytes of
    /// room.
    pub fn append_request_fields(self, fields: AppendRequestFields)
        -> (r: CodecResult<AppendRequestTopicNameEncoder>)
        ensures
            match r {
                Ok(next) => self.scratch().wrote(&next.scratch(), fields.bytes()),
                Err(error) => error == CodecErr::NotEnoughBytes && self.scratch().room() < 26,
            },
    {
        self.append_request_fields_copy(&fields)
    }

    /// Writes the fixed block, taken by reference.
    pub fn append_request_fields_copy(self, t: &AppendRequestFields)
        -> (r: CodecResult<AppendRequestTopicNameEncoder>)
        ensures
            match r {
                Ok(next) => self.scratch().wrote(&next.scratch(), t.bytes()),
                Err(error) => error == CodecErr::NotEnoughBytes && self.scratch().room() < 26,
            },
    {
        let mut scratch = self.scratch;
        let bytes = t.to_vec();
        match scratch.write_slice_without_count(bytes.as_slice()) {
            Ok(()) => Ok(AppendRequestTopicNameEncoder::wrap(scratch)),
            Err(error) => Err(error),
        }
    }
}

/// The encoder of an `AppendRequest` in front of the message header.
#[derive(Debug)]
pub struct AppendRequestMessageHeaderEncoder {
    scratch: ScratchEncoderData,
}

impl AppendRequestMessageHeaderEncoder {
    /// The state of the coder at this stage.
    pub closed spec fn scratch(&self) -> ScratchEncoderData {
        self.scratch
    }

    fn wrap(scratch: ScratchEncoderData) -> (stage: AppendRequestMessageHeaderEncoder)
        ensures
            stage.scratch() == scratch,
    {
        AppendRequestMessageHeaderEncoder { scratch }
    }

    /// Writes the header that every AppendRequest message carries, and hands it
    /// back beside the next stage.
    ///
    /// Fails with `NotEnoughBytes` when the buffer has less than 8 bytes of
    /// room.
    pub fn header(self) -> (r: CodecResult<(MessageHeader, AppendRequestFieldsEncoder)>)
        ensures
            match r {
                Ok((header, next)) => {
                    &&& header == AppendRequestMessageHeader::canonical()
                    &&& self.scratch().wrote(&next.scratch(), header.bytes())
                },
                Err(error) => error == CodecErr::NotEnoughBytes && self.scratch().room() < 8,
            },
    {
        let header = AppendRequestMessageHeader::default().message_header;
        match self.header_copy(&header) {
            Ok(next) => Ok((header, next)),
            Err(error) => Err(error),
        }
    }

    /// Writes a message header of the caller's making.
    pub fn header_copy(self, t: &MessageHeader) -> (r: CodecResult<AppendRequestFieldsEncoder>)
        ensures
            match r {
                Ok(next) => self.scratch().wrote(&next.scratch(), t.bytes()),
                Err(error) => error == CodecErr::NotEnoughBytes && self.scratch().room() < 8,
            },
    {
        let mut scratch = self.scratch;
        let bytes = t.to_vec();
        match scratch.write_slice_without_count(bytes.as_slice()) {
            Ok(()) => Ok(AppendRequestFieldsEncoder::wrap(scratch)),
            Err(error) => Err(error),
        }
    }
}

/// Starts to encode an `AppendRequest` at the front of the buffer `data`, which
/// is not made longer.
pub fn start_encoding_append_request(data: Vec<u8>) -> (encoder: AppendRequestMessageHeaderEncoder)
    ensures
        encoder.scratch().bytes() == data@,
        encoder.scratch().position() == 0,
{
    AppendRequestMessageHeaderEncoder::wrap(ScratchEncoderData::new(data))
}

} // verus!
