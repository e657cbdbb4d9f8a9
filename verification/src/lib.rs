//! Wire protocol of a workflow and task broker: data frames, transport
//! headers, SBE messages and the map payloads they carry.
//!
//! The functions of this module put the layers together: each builds or
//! reads one whole frame for one operation of a client.

pub mod error;
pub mod frame;
pub mod io;
pub mod msgpack;
pub mod sbe;
pub mod transport;
pub mod wire;

use crate::error::Error;
use crate::error::Failure;
use crate::frame::frame_bytes;
use crate::frame::parse_request_response;
use crate::frame::request_response_payload;
use crate::frame::DataFrameType;
use crate::io::FromData;
use crate::io::ToData;
use crate::msgpack::deserialize;
use crate::msgpack::message::CloseSubscription;
use crate::msgpack::message::TaskSubscription;
use crate::msgpack::pairs_view;
use crate::msgpack::rmp_value_len;
use crate::msgpack::serialize;
use crate::msgpack::task::set_pair;
use crate::msgpack::task::with_pair;
use crate::msgpack::task::TaskEventView;
use crate::msgpack::task::TaskState;
use crate::msgpack::topic::TopicEventView;
use crate::msgpack::topic::TopicState;
use crate::msgpack::topic::TopicSubscriberEvent;
use crate::msgpack::topology::TopologyResponse;
use crate::msgpack::topology::TopologyResponseView;
use crate::msgpack::value_len;
use crate::msgpack::EMPTY_MAP;
use crate::sbe::control_message_request_bytes;
use crate::sbe::execute_command_request_bytes;
use crate::sbe::new_command_fields;
use crate::sbe::parse_control_message_response;
use crate::sbe::parse_execute_command_response;
use crate::sbe::zb_protocol::MAX_VAR_DATA_LENGTH;
use crate::sbe::ANY_PARTITION;
use crate::sbe::ControlMessageType;
use crate::sbe::EventType;
use crate::wire::lemma_le_bytes_len;
use vstd::prelude::*;
use vstd::string::StringExecFns;

verus! {

/// Where an event stands in the broker's log.
#[derive(Debug, PartialEq, Eq, Clone, Copy, Structural)]
pub struct EventMetadata {
    pub partition_id: u16,
    pub position: u64,
    pub key: u64,
}

/// A task event with the place where it stands.
#[derive(Debug, PartialEq, Eq)]
pub struct TaskEvent {
    pub metadata: EventMetadata,
    pub event: msgpack::task::TaskEvent,
}

impl View for TaskEvent {
    type V = (EventMetadata, TaskEventView);

    open spec fn view(&self) -> (EventMetadata, TaskEventView) {
        (self.metadata, self.event@)
    }
}

/// A topic event with the place where it stands and the id of the request
/// that it answers.
#[derive(Debug, PartialEq, Eq)]
pub struct TopicEvent {
    pub request_id: u64,
    pub metadata: EventMetadata,
    pub event: msgpack::topic::TopicEvent,
}

impl View for TopicEvent {
    type V = (u64, EventMetadata, TopicEventView);

    open spec fn view(&self) -> (u64, EventMetadata, TopicEventView) {
        (self.request_id, self.metadata, self.event@)
    }
}

/// Whether `r` is what reading gives where `expected` is what the bytes
/// say: the value that says the same, or an error that reports the failure.
pub open spec fn decoded_as<T: View>(r: Result<T, Error>, expected: Result<T::V, Failure>) -> bool {
    match r {
        Ok(value) => expected == Ok::<T::V, Failure>(value@),
        Err(error) => expected matches Err(failure) && failure.reported_by(error),
    }
}

/// Whether `r` is what building a request gives where `frame` is the frame
/// of the request: the frame, where the object is encodable and its payload
/// is no longer than 65534 bytes; `EncodeError` where the object is not
/// encodable; `SliceIsLongerThanAllowedBySchema` where the payload is too
/// long.
pub open spec fn built_as(
    r: Result<Vec<u8>, Error>,
    encodable: bool,
    payload: Seq<u8>,
    frame: Seq<u8>,
) -> bool {
    match r {
        Ok(buffer) => encodable && payload.len() <= MAX_VAR_DATA_LENGTH && buffer@ == frame,
        Err(error) => if !encodable {
            error is EncodeError
        } else {
            payload.len() > MAX_VAR_DATA_LENGTH && error == Error::slice_too_long()
        },
    }
}

/// The frame of a request that carries a command. Version, flags and
/// stream id of the frame are zero.
pub open spec fn command_request_frame(
    request_id: u64,
    partition_id: u16,
    event_type: EventType,
    command: Seq<u8>,
) -> Seq<u8> {
    frame_bytes(
        0,
        0,
        DataFrameType::Message,
        0,
        request_response_payload(
            request_id,
            execute_command_request_bytes(
                new_command_fields(partition_id, event_type),
                Seq::empty(),
                command,
            ),
        ),
    )
}

/// The request to execute a command: the event that the command asks for,
/// of the given type, on the given partition.
pub fn command_request<D: ToData>(
    request_id: u64,
    partition_id: u16,
    event_type: EventType,
    event: &D,
) -> (r: Result<Vec<u8>, Error>)
    ensures
        built_as(
            r,
            event.encodable(),
            event.payload_bytes(),
            command_request_frame(request_id, partition_id, event_type, event.payload_bytes()),
        ),
{
    let command = match serialize(event) {
        Ok(command) => command,
        Err(error) => {
            return Err(error);
        },
    };
    let buffer = match sbe::encode_execute_command_request(
        partition_id,
        event_type,
        command.as_slice(),
    ) {
        Ok(buffer) => buffer,
        Err(error) => {
            return Err(error);
        },
    };
    proof {
        let fields = new_command_fields(partition_id, event_type);
        sbe::zb_protocol::ExecuteCommandRequestMessageHeader::canonical().lemma_parse_bytes();
        fields.lemma_parse_bytes();
        lemma_le_bytes_len(0, 2);
        lemma_le_bytes_len(command@.len(), 2);
    }
    frame::request_response(0, 0, 0, request_id, buffer.as_slice())
}

/// What `data` says if it is read as the response to a command: the
/// request id, where the event stands, and the payload of the event.
pub open spec fn parse_command_response(data: Seq<u8>) -> Result<
    (u64, EventMetadata, Seq<u8>),
    Failure,
> {
    match parse_request_response(data) {
        Err(failure) => Err(failure),
        Ok((request_id, message)) => match parse_execute_command_response(message) {
            Err(error) => Err(Failure::Exact(error)),
            Ok((metadata, event)) => Ok((request_id, metadata, event)),
        },
    }
}

/// An event that a command has led to, with the id of the request and the
/// place where the event stands.
#[derive(Debug, PartialEq, Eq)]
pub struct CommandResponse<D> {
    pub request_id: u64,
    pub metadata: EventMetadata,
    pub event: D,
}

impl<D: View> View for CommandResponse<D> {
    type V = (u64, EventMetadata, D::V);

    open spec fn view(&self) -> (u64, EventMetadata, D::V) {
        (self.request_id, self.metadata, self.event@)
    }
}

/// What `data` says if it is read as the response to a command that has
/// led to an event of the kind `D`.
pub open spec fn parse_event_response<D: FromData>(data: Seq<u8>) -> Result<
    (u64, EventMetadata, D::V),
    Failure,
> {
    match parse_command_response(data) {
        Err(failure) => Err(failure),
        Ok((request_id, metadata, event)) => match D::parse_payload(event) {
            Err(failure) => Err(failure),
            Ok(event) => Ok((request_id, metadata, event)),
        },
    }
}

/// Reads the response to a command.
pub fn command_response<D: FromData>(data: &[u8]) -> (r: Result<CommandResponse<D>, Error>)
    ensures
        decoded_as(r, parse_event_response::<D>(data@)),
{
    let frame = match frame::decode_request_response(data) {
        Ok(frame) => frame,
        Err(error) => {
            return Err(error);
        },
    };
    let request_id = frame.request_response_header.request_id;

    let (metadata, event) = match sbe::decode_execute_command_response(frame.message) {
        Ok(decoded) => decoded,
        Err(error) => {
            return Err(error);
        },
    };
    let event = match deserialize::<D>(event) {
        Ok(event) => event,
        Err(error) => {
            return Err(error);
        },
    };
    Ok(CommandResponse { request_id, metadata, event })
}

/// The frame of a control message request. Version, flags and stream id
/// of the frame are zero.
pub open spec fn control_request_frame(
    request_id: u64,
    partition_id: u16,
    message_type: ControlMessageType,
    data: Seq<u8>,
) -> Seq<u8> {
    frame_bytes(
        0,
        0,
        DataFrameType::Message,
        0,
        request_response_payload(
            request_id,
            control_message_request_bytes(partition_id, message_type, data),
        ),
    )
}

/// A control message request of the given type that carries `data`.
pub fn control_request<D: ToData>(
    request_id: u64,
    partition_id: u16,
    message_type: ControlMessageType,
    data: &D,
) -> (r: Result<Vec<u8>, Error>)
    ensures
        built_as(
            r,
            data.encodable(),
            data.payload_bytes(),
            control_request_frame(request_id, partition_id, message_type, data.payload_bytes()),
        ),
{
    let payload = match serialize(data) {
        Ok(payload) => payload,
        Err(error) => {
            return Err(error);
        },
    };
    let buffer = match sbe::encode_control_message_request(
        partition_id,
        message_type,
        payload.as_slice(),
    ) {
        Ok(buffer) => buffer,
        Err(error) => {
            return Err(error);
        },
    };
    proof {
        sbe::zb_protocol::ControlMessageRequestMessageHeader::canonical().lemma_parse_bytes();
        (sbe::zb_protocol::ControlMessageRequestFields {
            message_type,
            partition_id,
        }).lemma_parse_bytes();
        lemma_le_bytes_len(payload@.len(), 2);
    }
    frame::request_response(0, 0, 0, request_id, buffer.as_slice())
}

/// What `data` says if it is read as the response to a control message
/// request that is answered with an object of the kind `D`.
pub open spec fn parse_control_response<D: FromData>(data: Seq<u8>) -> Result<D::V, Failure> {
    match parse_request_response(data) {
        Err(failure) => Err(failure),
        Ok((_, message)) => match parse_control_message_response(message) {
            Err(error) => Err(Failure::Exact(error)),
            Ok(payload) => D::parse_payload(payload),
        },
    }
}

/// Reads the response to a control message request.
pub fn control_response<D: FromData>(data: &[u8]) -> (r: Result<D, Error>)
    ensures
        decoded_as(r, parse_control_response::<D>(data@)),
{
    let frame = match frame::decode_request_response(data) {
        Ok(frame) => frame,
        Err(error) => {
            return Err(error);
        },
    };
    let data = match sbe::decode_control_message_response(frame.message) {
        Ok(data) => data,
        Err(error) => {
            return Err(error);
        },
    };
    deserialize(data)
}

/// The event that asks for a topic of that name with that many partitions.
pub open spec fn create_topic_event(topic: Seq<char>, partitions: u32) -> TopicEventView {
    TopicEventView { state: TopicState::Create, name: topic, partitions }
}

/// The request to create a topic.
///
/// Fails with `SliceIsLongerThanAllowedBySchema` when the payload is longer
/// than 65534 bytes, and on no other input.
pub fn create_topic_request(request_id: u64, partition_id: u16, topic: &str, partitions: u32) -> (r:
    Result<Vec<u8>, Error>)
    ensures
        built_as(
            r,
            true,
            msgpack::topic::TopicEvent::payload_of(create_topic_event(topic@, partitions)),
            command_request_frame(
                request_id,
                partition_id,
                EventType::TopicEvent,
                msgpack::topic::TopicEvent::payload_of(create_topic_event(topic@, partitions)),
            ),
        ),
{
    let event = msgpack::topic::TopicEvent {
        state: TopicState::Create,
        name: String::from_str(topic),
        partitions,
    };
    command_request(request_id, partition_id, EventType::TopicEvent, &event)
}

/// What `data` says if it is read as the response to the request to create
/// a topic.
pub open spec fn parse_topic_response(data: Seq<u8>) -> Result<
    (u64, EventMetadata, TopicEventView),
    Failure,
> {
    parse_event_response::<msgpack::topic::TopicEvent>(data)
}

/// Reads the response to the request to create a topic.
pub fn read_topic_response(data: &[u8]) -> (r: Result<TopicEvent, Error>)
    ensures
        decoded_as(r, parse_topic_response(data@)),
{
    match command_response::<msgpack::topic::TopicEvent>(data) {
        Ok(response) => Ok(
            TopicEvent {
                request_id: response.request_id,
                metadata: response.metadata,
                event: response.event,
            },
        ),
        Err(error) => Err(error),
    }
}

/// The frame of the request for the topology. Version, flags and stream id
/// of the frame are zero, the request goes to any partition, and its data
/// is the empty map.
pub open spec fn topology_request_frame(request_id: u64) -> Seq<u8> {
    control_request_frame(
        request_id,
        ANY_PARTITION,
        ControlMessageType::RequestTopology,
        seq![EMPTY_MAP],
    )
}

/// The request for the topology. This cannot fail.
pub fn topology_request(request_id: u64) -> (r: Result<Vec<u8>, Error>)
    ensures
        r is Ok,
        r->Ok_0@ == topology_request_frame(request_id),
{
    let mut data: Vec<u8> = Vec::new();
    data.push(EMPTY_MAP);
    proof {
        assert(data@ =~= seq![EMPTY_MAP]);
    }
    let buffer = match sbe::encode_control_message_request(
        ANY_PARTITION,
        ControlMessageType::RequestTopology,
        data.as_slice(),
    ) {
        Ok(buffer) => buffer,
        Err(error) => {
            return Err(error);
        },
    };
    proof {
        sbe::zb_protocol::ControlMessageRequestMessageHeader::canonical().lemma_parse_bytes();
        (sbe::zb_protocol::ControlMessageRequestFields {
            message_type: ControlMessageType::RequestTopology,
            partition_id: ANY_PARTITION,
        }).lemma_parse_bytes();
        lemma_le_bytes_len(1, 2);
    }
    frame::request_response(0, 0, 0, request_id, buffer.as_slice())
}

/// What `data` says if it is read as the response to the request for the
/// topology.
pub open spec fn parse_topology_response(data: Seq<u8>) -> Result<TopologyResponseView, Failure> {
    parse_control_response::<TopologyResponse>(data)
}

/// Reads the response to the request for the topology.
pub fn topology_response(data: &[u8]) -> (r: Result<TopologyResponse, Error>)
    ensures
        decoded_as(r, parse_topology_response(data@)),
{
    control_response(data)
}

/// The request to open a subscription to tasks.
pub fn open_task_subscription_request(
    request_id: u64,
    partition_id: u16,
    subscription: &TaskSubscription,
) -> (r: Result<Vec<u8>, Error>)
    ensures
        built_as(
            r,
            subscription.encodable(),
            subscription.payload_bytes(),
            control_request_frame(
                request_id,
                partition_id,
                ControlMessageType::AddTaskSubscription,
                subscription.payload_bytes(),
            ),
        ),
{
    control_request(request_id, partition_id, ControlMessageType::AddTaskSubscription, subscription)
}

/// The request to grant a subscription to tasks the credits that
/// `subscription` names.
pub fn increase_task_subscription_credits_request(
    request_id: u64,
    partition_id: u16,
    subscription: &TaskSubscription,
) -> (r: Result<Vec<u8>, Error>)
    ensures
        built_as(
            r,
            subscription.encodable(),
            subscription.payload_bytes(),
            control_request_frame(
                request_id,
                partition_id,
                ControlMessageType::IncreaseTaskSubscriptionCredits,
                subscription.payload_bytes(),
            ),
        ),
{
    control_request(
        request_id,
        partition_id,
        ControlMessageType::IncreaseTaskSubscriptionCredits,
        subscription,
    )
}

/// Reads the response to a request about a subscription to tasks: the
/// subscription as the broker holds it, with the key that the broker gave.
pub fn task_subscription_response(data: &[u8]) -> (r: Result<TaskSubscription, Error>)
    ensures
        decoded_as(r, parse_control_response::<TaskSubscription>(data@)),
{
    control_response(data)
}

/// The request to close a subscription to tasks.
pub fn close_task_subscription_request(
    request_id: u64,
    partition_id: u16,
    subscription: &CloseSubscription,
) -> (r: Result<Vec<u8>, Error>)
    ensures
        built_as(
            r,
            subscription.encodable(),
            subscription.payload_bytes(),
            control_request_frame(
                request_id,
                partition_id,
                ControlMessageType::RemoveTaskSubscription,
                subscription.payload_bytes(),
            ),
        ),
{
    control_request(
        request_id,
        partition_id,
        ControlMessageType::RemoveTaskSubscription,
        subscription,
    )
}

/// The request to close a subscription to a topic.
pub fn close_topic_subscription_request(
    request_id: u64,
    partition_id: u16,
    subscription: &CloseSubscription,
) -> (r: Result<Vec<u8>, Error>)
    ensures
        built_as(
            r,
            subscription.encodable(),
            subscription.payload_bytes(),
            control_request_frame(
                request_id,
                partition_id,
                ControlMessageType::RemoveTopicSubscription,
                subscription.payload_bytes(),
            ),
        ),
{
    control_request(
        request_id,
        partition_id,
        ControlMessageType::RemoveTopicSubscription,
        subscription,
    )
}

/// Reads the response to the request to close a subscription.
pub fn close_subscription_response(data: &[u8]) -> (r: Result<CloseSubscription, Error>)
    ensures
        decoded_as(r, parse_control_response::<CloseSubscription>(data@)),
{
    control_response(data)
}

/// The request to open a subscription to a topic.
pub fn open_topic_subscription_request(
    request_id: u64,
    partition_id: u16,
    subscriber: &TopicSubscriberEvent,
) -> (r: Result<Vec<u8>, Error>)
    ensures
        built_as(
            r,
            subscriber.encodable(),
            subscriber.payload_bytes(),
            command_request_frame(
                request_id,
                partition_id,
                EventType::SubscriberEvent,
                subscriber.payload_bytes(),
            ),
        ),
{
    command_request(request_id, partition_id, EventType::SubscriberEvent, subscriber)
}

/// Reads the response to the request to open a subscription to a topic.
pub fn topic_subscription_response(data: &[u8]) -> (r: Result<
    CommandResponse<TopicSubscriberEvent>,
    Error,
>)
    ensures
        decoded_as(r, parse_event_response::<TopicSubscriberEvent>(data@)),
{
    command_response(data)
}

/// Builds the request to create a task.
#[derive(Debug)]
pub struct CreateTaskBuilder {
    request_id: u64,
    partition_id: u16,
    task_event: msgpack::task::TaskEvent,
}

impl CreateTaskBuilder {
    /// The id of the request that will be built.
    pub closed spec fn request_id(&self) -> u64 {
        self.request_id
    }

    /// The partition that the request will go to.
    pub closed spec fn partition_id(&self) -> u16 {
        self.partition_id
    }

    /// The task that the request will ask for.
    pub closed spec fn task_event(&self) -> TaskEventView {
        self.task_event@
    }

    /// Whether the request can be built: the task has no more custom
    /// headers than a `u32` counts.
    pub open spec fn encodable(&self) -> bool {
        self.task_event().custom_headers.len() <= u32::MAX
    }

    /// A builder for a task of type `task_type` with three retries, no
    /// custom headers and no payload.
    pub fn new(request_id: u64, partition_id: u16, task_type: &str) -> (builder: CreateTaskBuilder)
        ensures
            builder.request_id() == request_id,
            builder.partition_id() == partition_id,
            builder.task_event() == (TaskEventView {
                state: TaskState::Create,
                task_type: task_type@,
                retries: 3,
                ..msgpack::task::TaskEvent::default_view()
            }),
    {
        CreateTaskBuilder {
            request_id,
            partition_id,
            task_event: msgpack::task::TaskEvent::new(TaskState::Create, task_type, 3),
        }
    }

    pub fn retries(&mut self, retries: i32) -> (builder: &mut Self)
        ensures
            builder.request_id() == old(self).request_id(),
            builder.partition_id() == old(self).partition_id(),
            builder.task_event() == (TaskEventView { retries, ..old(self).task_event() }),
            *final(self) == *final(builder),
    {
        self.task_event.retries = retries;
        self
    }

    /// Replaces the custom headers.
    pub fn custom_headers(&mut self, custom_headers: Vec<(String, String)>) -> (builder: &mut Self)
        ensures
            builder.request_id() == old(self).request_id(),
            builder.partition_id() == old(self).partition_id(),
            builder.task_event() == (TaskEventView {
                custom_headers: pairs_view(custom_headers@),
                ..old(self).task_event()
            }),
            *final(self) == *final(builder),
    {
        self.task_event.custom_headers = custom_headers;
        self
    }

    /// Sets one custom header: a header of that key takes the value, and
    /// where there is none the header is added behind the others.
    pub fn custom_header(&mut self, key: &str, value: &str) -> (builder: &mut Self)
        ensures
            builder.request_id() == old(self).request_id(),
            builder.partition_id() == old(self).partition_id(),
            builder.task_event() == (TaskEventView {
                custom_headers: with_pair(old(self).task_event().custom_headers, key@, value@),
                ..old(self).task_event()
            }),
            *final(self) == *final(builder),
    {
        set_pair(&mut self.task_event.custom_headers, key, value);
        self
    }

    /// Sets the payload, which must be one document in MessagePack.
    ///
    /// Fails with `EncodeError`, and changes nothing, when `payload` is not
    /// exactly one value.
    pub fn payload(&mut self, payload: Vec<u8>) -> (r: Result<&mut Self, Error>)
        ensures
            match r {
                Ok(builder) => {
                    &&& rmp_value_len(payload@) == Some(payload@.len() as usize)
                    &&& builder.request_id() == old(self).request_id()
                    &&& builder.partition_id() == old(self).partition_id()
                    &&& builder.task_event() == (TaskEventView {
                        payload: payload@,
                        ..old(self).task_event()
                    })
                    &&& *final(self) == *final(builder)
                },
                Err(error) => {
                    &&& rmp_value_len(payload@) != Some(payload@.len() as usize)
                    &&& error is EncodeError
                    &&& *final(self) == *old(self)
                },
            },
    {
        match value_len(payload.as_slice()) {
            Some(len) => {
                if len == payload.len() {
                    self.task_event.payload = payload;
                    return Ok(self);
                }
            },
            None => {},
        }
        Err(Error::EncodeError(String::from_str("payload is not one document")))
    }

    /// The request to create the task.
    ///
    /// Fails with `EncodeError` when the task is not encodable, else with
    /// `SliceIsLongerThanAllowedBySchema` when its payload is longer than
    /// 65534 bytes.
    pub fn build(&self) -> (r: Result<Vec<u8>, Error>)
        ensures
            built_as(
                r,
                self.encodable(),
                msgpack::task::TaskEvent::payload_of(self.task_event()),
                command_request_frame(
                    self.request_id(),
                    self.partition_id(),
                    EventType::TaskEvent,
                    msgpack::task::TaskEvent::payload_of(self.task_event()),
                ),
            ),
    {
        proof {
            assert(pairs_view(self.task_event.custom_headers@).len()
                == self.task_event.custom_headers@.len());
        }
        command_request(self.request_id, self.partition_id, EventType::TaskEvent, &self.task_event)
    }
}

/// What `data` says if it is read as the response to the request to create
/// a task.
pub open spec fn parse_task_response(data: Seq<u8>) -> Result<
    (EventMetadata, TaskEventView),
    Failure,
> {
    match parse_event_response::<msgpack::task::TaskEvent>(data) {
        Err(failure) => Err(failure),
        Ok((_, metadata, event)) => Ok((metadata, event)),
    }
}

/// Reads the response to the request to create a task.
pub fn create_task_response(data: &[u8]) -> (r: Result<TaskEvent, Error>)
    ensures
        decoded_as(r, parse_task_response(data@)),
{
    match command_response::<msgpack::task::TaskEvent>(data) {
        Ok(response) => Ok(TaskEvent { metadata: response.metadata, event: response.event }),
        Err(error) => Err(error),
    }
}

} // verus!
