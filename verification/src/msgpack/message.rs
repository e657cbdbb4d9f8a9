//! Subscriptions, deployments and workflow instances.

use crate::error::Error;
use crate::error::Failure;
use crate::io::FromData;
use crate::io::ToData;
use crate::msgpack::blob_or;
use crate::msgpack::bytes_of;
use crate::msgpack::field;
use crate::msgpack::get_blob;
use crate::msgpack::get_integer;
use crate::msgpack::get_list;
use crate::msgpack::get_text;
use crate::msgpack::integer_or;
use crate::msgpack::list_encodable;
use crate::msgpack::list_or_empty;
use crate::msgpack::list_payload;
use crate::msgpack::malformed;
use crate::msgpack::parse_map;
use crate::msgpack::parse_str;
use crate::msgpack::read_str;
use crate::msgpack::rmp_bin;
use crate::msgpack::rmp_map_len;
use crate::msgpack::rmp_sint;
use crate::msgpack::rmp_str;
use crate::msgpack::rmp_uint;
use crate::msgpack::text_or_empty;
use crate::msgpack::topic::TopicSubscriberEvent;
use crate::msgpack::views;
use crate::msgpack::write_bin;
use crate::msgpack::write_list;
use crate::msgpack::write_map_len;
use crate::msgpack::write_sint;
use crate::msgpack::write_str;
use crate::msgpack::write_uint;
use crate::msgpack::Field;
use crate::msgpack::MapReader;
use crate::msgpack::NIL;
use vstd::prelude::*;

verus! {

/// The request for the topology: a map without entries.
#[derive(Debug, PartialEq, Eq, Clone, Copy, Structural)]
pub struct TopologyRequest {}

impl ToData for TopologyRequest {
    open spec fn payload_bytes(&self) -> Seq<u8> {
        rmp_map_len(0)
    }

    open spec fn encodable(&self) -> bool {
        true
    }

    fn to_payload(&self, out: &mut Vec<u8>) -> (r: Result<(), Error>) {
        write_map_len(out, 0);
        Ok(())
    }
}

impl View for TopologyRequest {
    type V = TopologyRequest;

    open spec fn view(&self) -> TopologyRequest {
        *self
    }
}

impl FromData for TopologyRequest {
    open spec fn parse_payload(data: Seq<u8>) -> Result<TopologyRequest, Failure> {
        match parse_map(data) {
            None => Err(Failure::Malformed),
            Some(_) => Ok(TopologyRequest {  }),
        }
    }

    fn from_payload(data: &[u8]) -> (r: Result<TopologyRequest, Error>) {
        match MapReader::read(data) {
            Some(_) => Ok(TopologyRequest {  }),
            None => Err(malformed()),
        }
    }
}

/// A subscription to the tasks of one type on a partition.
#[derive(Debug, PartialEq, Eq, Clone)]
pub struct TaskSubscription {
    pub topic_name: String,
    pub partition_id: u32,
    pub subscriber_key: u64,
    pub task_type: String,
    pub lock_duration: u64,
    pub lock_owner: String,
    pub credits: u32,
}

/// What a `TaskSubscription` says.
pub struct TaskSubscriptionView {
    pub topic_name: Seq<char>,
    pub partition_id: u32,
    pub subscriber_key: u64,
    pub task_type: Seq<char>,
    pub lock_duration: u64,
    pub lock_owner: Seq<char>,
    pub credits: u32,
}

impl View for TaskSubscription {
    type V = TaskSubscriptionView;

    open spec fn view(&self) -> TaskSubscriptionView {
        TaskSubscriptionView {
            topic_name: self.topic_name@,
            partition_id: self.partition_id,
            subscriber_key: self.subscriber_key,
            task_type: self.task_type@,
            lock_duration: self.lock_duration,
            lock_owner: self.lock_owner@,
            credits: self.credits,
        }
    }
}

impl TaskSubscription {
    /// What the object says when every field has its default.
    pub open spec fn default_view() -> TaskSubscriptionView {
        TaskSubscriptionView {
            topic_name: Seq::empty(),
            partition_id: 0u32,
            subscriber_key: 0u64,
            task_type: Seq::empty(),
            lock_duration: 0u64,
            lock_owner: Seq::empty(),
            credits: 0u32,
        }
    }

    /// What the fields of a map say. A field that is missing has its
    /// default, and fields of other names are not looked at.
    pub open spec fn of_fields(fields: Seq<Field>) -> Result<TaskSubscriptionView, Failure> {
        let topic_name = text_or_empty(field(fields, "topicName"@));
        let partition_id = integer_or(
            field(fields, "partitionId"@),
            0,
            u32::MIN as int,
            u32::MAX as int,
        );
        let subscriber_key = integer_or(
            field(fields, "subscriberKey"@),
            0,
            u64::MIN as int,
            u64::MAX as int,
        );
        let task_type = text_or_empty(field(fields, "taskType"@));
        let lock_duration = integer_or(
            field(fields, "lockDuration"@),
            0,
            u64::MIN as int,
            u64::MAX as int,
        );
        let lock_owner = text_or_empty(field(fields, "lockOwner"@));
        let credits = integer_or(
            field(fields, "credits"@),
            0,
            u32::MIN as int,
            u32::MAX as int,
        );
        if topic_name is Err {
            Err(topic_name->Err_0)
        } else if partition_id is Err {
            Err(partition_id->Err_0)
        } else if subscriber_key is Err {
            Err(subscriber_key->Err_0)
        } else if task_type is Err {
            Err(task_type->Err_0)
        } else if lock_duration is Err {
            Err(lock_duration->Err_0)
        } else if lock_owner is Err {
            Err(lock_owner->Err_0)
        } else if credits is Err {
            Err(credits->Err_0)
        } else {
            Ok(
                TaskSubscriptionView {
                    topic_name: topic_name->Ok_0,
                    partition_id: partition_id->Ok_0 as u32,
                    subscriber_key: subscriber_key->Ok_0 as u64,
                    task_type: task_type->Ok_0,
                    lock_duration: lock_duration->Ok_0 as u64,
                    lock_owner: lock_owner->Ok_0,
                    credits: credits->Ok_0 as u32,
                },
            )
        }
    }

    /// The object of an optional field: the default where the field is
    /// missing, a failure where its value is no such object.
    pub open spec fn or_default(value: Option<Seq<u8>>) -> Result<TaskSubscriptionView, Failure> {
        match value {
            None => Ok(Self::default_view()),
            Some(bytes) => Self::parse_payload(bytes),
        }
    }

    /// Reads the object of an optional field.
    pub fn read(value: Option<&[u8]>) -> (r: Result<TaskSubscription, Error>)
        ensures
            match r {
                Ok(object) => Self::or_default(bytes_of(value))
                    == Ok::<TaskSubscriptionView, Failure>(object@),
                Err(error) => Self::or_default(bytes_of(value)) matches Err(failure)
                    && failure.reported_by(error),
            },
    {
        match value {
            None => Ok(TaskSubscription::default()),
            Some(bytes) => TaskSubscription::from_payload(bytes),
        }
    }
}

impl Default for TaskSubscription {
    fn default() -> (object: TaskSubscription)
        ensures
            object@ == TaskSubscription::default_view(),
    {
        let object = TaskSubscription {
            topic_name: String::new(),
            partition_id: 0u32,
            subscriber_key: 0u64,
            task_type: String::new(),
            lock_duration: 0u64,
            lock_owner: String::new(),
            credits: 0u32,
        };
        proof {
        }
        object
    }
}

impl TaskSubscription {
    /// The payload that says `view`.
    pub open spec fn payload_of(view: TaskSubscriptionView) -> Seq<u8> {
        rmp_map_len(7)
            + rmp_str("topicName"@) + rmp_str(view.topic_name)
            + rmp_str("partitionId"@) + rmp_uint(view.partition_id as u64)
            + rmp_str("subscriberKey"@) + rmp_uint(view.subscriber_key as u64)
            + rmp_str("taskType"@) + rmp_str(view.task_type)
            + rmp_str("lockDuration"@) + rmp_uint(view.lock_duration as u64)
            + rmp_str("lockOwner"@) + rmp_str(view.lock_owner)
            + rmp_str("credits"@) + rmp_uint(view.credits as u64)
    }
}

impl ToData for TaskSubscription {
    open spec fn payload_bytes(&self) -> Seq<u8> {
        TaskSubscription::payload_of(self@)
    }

    open spec fn encodable(&self) -> bool {
        true
    }

    fn to_payload(&self, out: &mut Vec<u8>) -> (r: Result<(), Error>) {
        write_map_len(out, 7);
        write_str(out, "topicName");
        write_str(out, self.topic_name.as_str());
        write_str(out, "partitionId");
        write_uint(out, self.partition_id as u64);
        write_str(out, "subscriberKey");
        write_uint(out, self.subscriber_key as u64);
        write_str(out, "taskType");
        write_str(out, self.task_type.as_str());
        write_str(out, "lockDuration");
        write_uint(out, self.lock_duration as u64);
        write_str(out, "lockOwner");
        write_str(out, self.lock_owner.as_str());
        write_str(out, "credits");
        write_uint(out, self.credits as u64);
        proof {
            assert(out@ =~= old(out)@ + self.payload_bytes());
        }
        Ok(())
    }
}

impl FromData for TaskSubscription {
    open spec fn parse_payload(data: Seq<u8>) -> Result<TaskSubscriptionView, Failure> {
        match parse_map(data) {
            None => Err(Failure::Malformed),
            Some(fields) => Self::of_fields(fields),
        }
    }

    fn from_payload(data: &[u8]) -> (r: Result<TaskSubscription, Error>) {
        let map = match MapReader::read(data) {
            Some(map) => map,
            None => {
                return Err(malformed());
            },
        };
        let topic_name = match get_text(map.get("topicName")) {
            Ok(topic_name) => topic_name,
            Err(error) => {
                return Err(error);
            },
        };
        let partition_id = match get_integer(
            map.get("partitionId"),
            0,
            u32::MIN as i128,
            u32::MAX as i128,
        ) {
            Ok(partition_id) => partition_id,
            Err(error) => {
                return Err(error);
            },
        };
        let subscriber_key = match get_integer(
            map.get("subscriberKey"),
            0,
            u64::MIN as i128,
            u64::MAX as i128,
        ) {
            Ok(subscriber_key) => subscriber_key,
            Err(error) => {
                return Err(error);
            },
        };
        let task_type = match get_text(map.get("taskType")) {
            Ok(task_type) => task_type,
            Err(error) => {
                return Err(error);
            },
        };
        let lock_duration = match get_integer(
            map.get("lockDuration"),
            0,
            u64::MIN as i128,
            u64::MAX as i128,
        ) {
            Ok(lock_duration) => lock_duration,
            Err(error) => {
                return Err(error);
            },
        };
        let lock_owner = match get_text(map.get("lockOwner")) {
            Ok(lock_owner) => lock_owner,
            Err(error) => {
                return Err(error);
            },
        };
        let credits = match get_integer(
            map.get("credits"),
            0,
            u32::MIN as i128,
            u32::MAX as i128,
        ) {
            Ok(credits) => credits,
            Err(error) => {
                return Err(error);
            },
        };
        Ok(
            TaskSubscription {
                topic_name,
                partition_id: partition_id as u32,
                subscriber_key: subscriber_key as u64,
                task_type,
                lock_duration: lock_duration as u64,
                lock_owner,
                credits: credits as u32,
            },
        )
    }
}

impl TaskSubscription {
    /// A subscription on a partition of a topic; every other field has its
    /// default.
    pub fn for_topic(topic_name: String, partition_id: u32) -> (subscription: TaskSubscription)
        ensures
            subscription@ == (TaskSubscriptionView {
                topic_name: topic_name@,
                partition_id,
                ..TaskSubscription::default_view()
            }),
    {
        let mut subscription = TaskSubscription::default();
        subscription.topic_name = topic_name;
        subscription.partition_id = partition_id;
        subscription
    }

    pub fn new(
        topic_name: &str,
        partition_id: u32,
        task_type: &str,
        lock_owner: &str,
        lock_duration: u64,
        subscriber_key: u64,
        credits: u32,
    ) -> (subscription: TaskSubscription)
        ensures
            subscription@ == (TaskSubscriptionView {
                topic_name: topic_name@,
                partition_id,
                subscriber_key,
                task_type: task_type@,
                lock_duration,
                lock_owner: lock_owner@,
                credits,
            }),
    {
        TaskSubscription {
            topic_name: String::from_str(topic_name),
            partition_id,
            subscriber_key,
            task_type: String::from_str(task_type),
            lock_duration,
            lock_owner: String::from_str(lock_owner),
            credits,
        }
    }

    pub fn subscriber_key(&self) -> (key: u64)
        ensures
            key == self.subscriber_key,
    {
        self.subscriber_key
    }

    pub fn set_subscriber_key(&mut self, subscriber_key: u64)
        ensures
            final(self)@ == (TaskSubscriptionView { subscriber_key, ..old(self)@ }),
    {
        self.subscriber_key = subscriber_key;
    }
}

/// A subscriber to a topic, under its other name.
pub type TopicSubscriber = TopicSubscriberEvent;

/// The request to close a subscription.
#[derive(Debug, PartialEq, Eq, Clone)]
pub struct CloseSubscription {
    pub topic_name: String,
    pub partition_id: u32,
    pub subscriber_key: u64,
}

/// What a `CloseSubscription` says.
pub struct CloseSubscriptionView {
    pub topic_name: Seq<char>,
    pub partition_id: u32,
    pub subscriber_key: u64,
}

impl View for CloseSubscription {
    type V = CloseSubscriptionView;

    open spec fn view(&self) -> CloseSubscriptionView {
        CloseSubscriptionView {
            topic_name: self.topic_name@,
            partition_id: self.partition_id,
            subscriber_key: self.subscriber_key,
        }
    }
}

impl CloseSubscription {
    /// What the object says when every field has its default.
    pub open spec fn default_view() -> CloseSubscriptionView {
        CloseSubscriptionView {
            topic_name: Seq::empty(),
            partition_id: 0u32,
            subscriber_key: 0u64,
        }
    }

    /// What the fields of a map say. A field that is missing has its
    /// default, and fields of other names are not looked at.
    pub open spec fn of_fields(fields: Seq<Field>) -> Result<CloseSubscriptionView, Failure> {
        let topic_name = text_or_empty(field(fields, "topicName"@));
        let partition_id = integer_or(
            field(fields, "partitionId"@),
            0,
            u32::MIN as int,
            u32::MAX as int,
        );
        let subscriber_key = integer_or(
            field(fields, "subscriberKey"@),
            0,
            u64::MIN as int,
            u64::MAX as int,
        );
        if topic_name is Err {
            Err(topic_name->Err_0)
        } else if partition_id is Err {
            Err(partition_id->Err_0)
        } else if subscriber_key is Err {
            Err(subscriber_key->Err_0)
        } else {
            Ok(
                CloseSubscriptionView {
                    topic_name: topic_name->Ok_0,
                    partition_id: partition_id->Ok_0 as u32,
                    subscriber_key: subscriber_key->Ok_0 as u64,
                },
            )
        }
    }

    /// The object of an optional field: the default where the field is
    /// missing, a failure where its value is no such object.
    pub open spec fn or_default(value: Option<Seq<u8>>) -> Result<CloseSubscriptionView, Failure> {
        match value {
            None => Ok(Self::default_view()),
            Some(bytes) => Self::parse_payload(bytes),
        }
    }

    /// Reads the object of an optional field.
    pub fn read(value: Option<&[u8]>) -> (r: Result<CloseSubscription, Error>)
        ensures
            match r {
                Ok(object) => Self::or_default(bytes_of(value))
                    == Ok::<CloseSubscriptionView, Failure>(object@),
                Err(error) => Self::or_default(bytes_of(value)) matches Err(failure)
                    && failure.reported_by(error),
            },
    {
        match value {
            None => Ok(CloseSubscription::default()),
            Some(bytes) => CloseSubscription::from_payload(bytes),
        }
    }
}

impl Default for CloseSubscription {
    fn default() -> (object: CloseSubscription)
        ensures
            object@ == CloseSubscription::default_view(),
    {
        let object = CloseSubscription {
            topic_name: String::new(),
            partition_id: 0u32,
            subscriber_key: 0u64,
        };
        proof {
        }
        object
    }
}

impl CloseSubscription {
    /// The payload that says `view`.
    pub open spec fn payload_of(view: CloseSubscriptionView) -> Seq<u8> {
        rmp_map_len(3)
            + rmp_str("topicName"@) + rmp_str(view.topic_name)
            + rmp_str("partitionId"@) + rmp_uint(view.partition_id as u64)
            + rmp_str("subscriberKey"@) + rmp_uint(view.subscriber_key as u64)
    }
}

impl ToData for CloseSubscription {
    open spec fn payload_bytes(&self) -> Seq<u8> {
        CloseSubscription::payload_of(self@)
    }

    open spec fn encodable(&self) -> bool {
        true
    }

    fn to_payload(&self, out: &mut Vec<u8>) -> (r: Result<(), Error>) {
        write_map_len(out, 3);
        write_str(out, "topicName");
        write_str(out, self.topic_name.as_str());
        write_str(out, "partitionId");
        write_uint(out, self.partition_id as u64);
        write_str(out, "subscriberKey");
        write_uint(out, self.subscriber_key as u64);
        proof {
            assert(out@ =~= old(out)@ + self.payload_bytes());
        }
        Ok(())
    }
}

impl FromData for CloseSubscription {
    open spec fn parse_payload(data: Seq<u8>) -> Result<CloseSubscriptionView, Failure> {
        match parse_map(data) {
            None => Err(Failure::Malformed),
            Some(fields) => Self::of_fields(fields),
        }
    }

    fn from_payload(data: &[u8]) -> (r: Result<CloseSubscription, Error>) {
        let map = match MapReader::read(data) {
            Some(map) => map,
            None => {
                return Err(malformed());
            },
        };
        let topic_name = match get_text(map.get("topicName")) {
            Ok(topic_name) => topic_name,
            Err(error) => {
                return Err(error);
            },
        };
        let partition_id = match get_integer(
            map.get("partitionId"),
            0,
            u32::MIN as i128,
            u32::MAX as i128,
        ) {
            Ok(partition_id) => partition_id,
            Err(error) => {
                return Err(error);
            },
        };
        let subscriber_key = match get_integer(
            map.get("subscriberKey"),
            0,
            u64::MIN as i128,
            u64::MAX as i128,
        ) {
            Ok(subscriber_key) => subscriber_key,
            Err(error) => {
                return Err(error);
            },
        };
        Ok(
            CloseSubscription {
                topic_name,
                partition_id: partition_id as u32,
                subscriber_key: subscriber_key as u64,
            },
        )
    }
}

impl CloseSubscription {
    pub fn new(topic_name: String, partition_id: u32, subscriber_key: u64) -> (request:
        CloseSubscription)
        ensures
            request@ == (CloseSubscriptionView {
                topic_name: topic_name@,
                partition_id,
                subscriber_key,
            }),
    {
        CloseSubscription { topic_name, partition_id, subscriber_key }
    }
}

/// The states of a deployment.
#[derive(Debug, PartialEq, Eq, Clone, Copy, Structural)]
pub enum DeploymentState {
    CreateDeployment,
    DeploymentCreated,
    DeploymentRejected,
}

impl DeploymentState {
    /// The name of the state on the wire.
    pub open spec fn name(&self) -> Seq<char> {
        match *self {
            DeploymentState::CreateDeployment => "CREATE_DEPLOYMENT"@,
            DeploymentState::DeploymentCreated => "DEPLOYMENT_CREATED"@,
            DeploymentState::DeploymentRejected => "DEPLOYMENT_REJECTED"@,
        }
    }

    /// The state that `name` names.
    pub open spec fn of_name(name: Seq<char>) -> Option<DeploymentState> {
        if name == "CREATE_DEPLOYMENT"@ {
            Some(DeploymentState::CreateDeployment)
        } else if name == "DEPLOYMENT_CREATED"@ {
            Some(DeploymentState::DeploymentCreated)
        } else if name == "DEPLOYMENT_REJECTED"@ {
            Some(DeploymentState::DeploymentRejected)
        } else {
            None
        }
    }

    /// The name of the state on the wire.
    pub fn as_str(&self) -> (name: &'static str)
        ensures
            name@ == self.name(),
    {
        match *self {
            DeploymentState::CreateDeployment => "CREATE_DEPLOYMENT",
            DeploymentState::DeploymentCreated => "DEPLOYMENT_CREATED",
            DeploymentState::DeploymentRejected => "DEPLOYMENT_REJECTED",
        }
    }

    /// The state that `name` names.
    ///
    /// Fails with `UnknownState`, which holds `name`, when `name` is not in
    /// the vocabulary.
    pub fn from_name(name: &str) -> (r: Result<DeploymentState, Error>)
        ensures
            match r {
                Ok(state) => Self::of_name(name@) == Some(state),
                Err(error) => Self::of_name(name@) is None && Failure::UnknownState(
                    name@,
                ).reported_by(error),
            },
    {
        let text = String::from_str(name);
        if text == String::from_str("CREATE_DEPLOYMENT") {
            Ok(DeploymentState::CreateDeployment)
        } else if text == String::from_str("DEPLOYMENT_CREATED") {
            Ok(DeploymentState::DeploymentCreated)
        } else if text == String::from_str("DEPLOYMENT_REJECTED") {
            Ok(DeploymentState::DeploymentRejected)
        } else {
            Err(Error::UnknownState(text))
        }
    }

    /// The state of an optional field: the default where the field is
    /// missing, a failure where its value is no string or no name of a state.
    pub open spec fn or_default(value: Option<Seq<u8>>, default: DeploymentState)
        -> Result<DeploymentState, Failure> {
        match value {
            None => Ok(default),
            Some(bytes) => match parse_str(bytes) {
                None => Err(Failure::Malformed),
                Some((name, _)) => match Self::of_name(name) {
                    Some(state) => Ok(state),
                    None => Err(Failure::UnknownState(name)),
                },
            },
        }
    }

    /// Reads the state of an optional field.
    pub fn read(value: Option<&[u8]>, default: DeploymentState)
        -> (r: Result<DeploymentState, Error>)
        ensures
            match r {
                Ok(state) => Self::or_default(bytes_of(value), default)
                    == Ok::<DeploymentState, Failure>(state),
                Err(error) => Self::or_default(bytes_of(value), default) matches Err(failure)
                    && failure.reported_by(error),
            },
    {
        match value {
            None => Ok(default),
            Some(bytes) => match read_str(bytes) {
                None => Err(malformed()),
                Some((name, _)) => Self::from_name(name.as_str()),
            },
        }
    }

    /// Every state is the state that its name names.
    pub proof fn lemma_name_names_state(self)
        ensures
            Self::of_name(self.name()) == Some(self),
    {
        reveal_strlit("CREATE_DEPLOYMENT");
        reveal_strlit("DEPLOYMENT_CREATED");
        reveal_strlit("DEPLOYMENT_REJECTED");
        match self {
            DeploymentState::CreateDeployment => {},
            DeploymentState::DeploymentCreated => {
                assert("CREATE_DEPLOYMENT"@.len() != "DEPLOYMENT_CREATED"@.len());
            },
            DeploymentState::DeploymentRejected => {
                assert("CREATE_DEPLOYMENT"@.len() != "DEPLOYMENT_REJECTED"@.len());
                assert("DEPLOYMENT_CREATED"@.len() != "DEPLOYMENT_REJECTED"@.len());
            },
        }
    }
}

impl Default for DeploymentState {
    fn default() -> (state: DeploymentState)
        ensures
            state == DeploymentState::CreateDeployment,
    {
        DeploymentState::CreateDeployment
    }
}

/// A workflow that a deployment has brought.
#[derive(Debug, PartialEq, Eq, Clone)]
pub struct DeployedWorkflow {
    pub bpmn_process_id: String,
    pub version: i32,
}

/// What a `DeployedWorkflow` says.
pub struct DeployedWorkflowView {
    pub bpmn_process_id: Seq<char>,
    pub version: i32,
}

impl View for DeployedWorkflow {
    type V = DeployedWorkflowView;

    open spec fn view(&self) -> DeployedWorkflowView {
        DeployedWorkflowView {
            bpmn_process_id: self.bpmn_process_id@,
            version: self.version,
        }
    }
}

impl DeployedWorkflow {
    /// What the object says when every field has its default.
    pub open spec fn default_view() -> DeployedWorkflowView {
        DeployedWorkflowView {
            bpmn_process_id: Seq::empty(),
            version: 0i32,
        }
    }

    /// What the fields of a map say. A field that is missing has its
    /// default, and fields of other names are not looked at.
    pub open spec fn of_fields(fields: Seq<Field>) -> Result<DeployedWorkflowView, Failure> {
        let bpmn_process_id = text_or_empty(field(fields, "bpmnProcessId"@));
        let version = integer_or(
            field(fields, "version"@),
            0,
            i32::MIN as int,
            i32::MAX as int,
        );
        if bpmn_process_id is Err {
            Err(bpmn_process_id->Err_0)
        } else if version is Err {
            Err(version->Err_0)
        } else {
            Ok(
                DeployedWorkflowView {
                    bpmn_process_id: bpmn_process_id->Ok_0,
                    version: version->Ok_0 as i32,
                },
            )
        }
    }

    /// The object of an optional field: the default where the field is
    /// missing, a failure where its value is no such object.
    pub open spec fn or_default(value: Option<Seq<u8>>) -> Result<DeployedWorkflowView, Failure> {
        match value {
            None => Ok(Self::default_view()),
            Some(bytes) => Self::parse_payload(bytes),
        }
    }

    /// Reads the object of an optional field.
    pub fn read(value: Option<&[u8]>) -> (r: Result<DeployedWorkflow, Error>)
        ensures
            match r {
                Ok(object) => Self::or_default(bytes_of(value))
                    == Ok::<DeployedWorkflowView, Failure>(object@),
                Err(error) => Self::or_default(bytes_of(value)) matches Err(failure)
                    && failure.reported_by(error),
            },
    {
        match value {
            None => Ok(DeployedWorkflow::default()),
            Some(bytes) => DeployedWorkflow::from_payload(bytes),
        }
    }
}

impl Default for DeployedWorkflow {
    fn default() -> (object: DeployedWorkflow)
        ensures
            object@ == DeployedWorkflow::default_view(),
    {
        let object = DeployedWorkflow {
            bpmn_process_id: String::new(),
            version: 0i32,
        };
        proof {
        }
        object
    }
}

impl DeployedWorkflow {
    /// The payload that says `view`.
    pub open spec fn payload_of(view: DeployedWorkflowView) -> Seq<u8> {
        rmp_map_len(2)
            + rmp_str("bpmnProcessId"@) + rmp_str(view.bpmn_process_id)
            + rmp_str("version"@) + rmp_sint(view.version as i64)
    }
}

impl ToData for DeployedWorkflow {
    open spec fn payload_bytes(&self) -> Seq<u8> {
        DeployedWorkflow::payload_of(self@)
    }

    open spec fn encodable(&self) -> bool {
        true
    }

    fn to_payload(&self, out: &mut Vec<u8>) -> (r: Result<(), Error>) {
        write_map_len(out, 2);
        write_str(out, "bpmnProcessId");
        write_str(out, self.bpmn_process_id.as_str());
        write_str(out, "version");
        write_sint(out, self.version as i64);
        proof {
            assert(out@ =~= old(out)@ + self.payload_bytes());
        }
        Ok(())
    }
}

impl FromData for DeployedWorkflow {
    open spec fn parse_payload(data: Seq<u8>) -> Result<DeployedWorkflowView, Failure> {
        match parse_map(data) {
            None => Err(Failure::Malformed),
            Some(fields) => Self::of_fields(fields),
        }
    }

    fn from_payload(data: &[u8]) -> (r: Result<DeployedWorkflow, Error>) {
        let map = match MapReader::read(data) {
            Some(map) => map,
            None => {
                return Err(malformed());
            },
        };
        let bpmn_process_id = match get_text(map.get("bpmnProcessId")) {
            Ok(bpmn_process_id) => bpmn_process_id,
            Err(error) => {
                return Err(error);
            },
        };
        let version = match get_integer(
            map.get("version"),
            0,
            i32::MIN as i128,
            i32::MAX as i128,
        ) {
            Ok(version) => version,
            Err(error) => {
                return Err(error);
            },
        };
        Ok(
            DeployedWorkflow {
                bpmn_process_id,
                version: version as i32,
            },
        )
    }
}

/// A deployment, as the broker records it.
#[derive(Debug, PartialEq, Eq, Clone)]
pub struct DeploymentEvent {
    pub state: DeploymentState,
    pub deployed_workflows: Vec<DeployedWorkflow>,
    pub bpmn_xml: Vec<u8>,
}

/// What a `DeploymentEvent` says.
pub struct DeploymentEventView {
    pub state: DeploymentState,
    pub deployed_workflows: Seq<DeployedWorkflowView>,
    pub bpmn_xml: Seq<u8>,
}

impl View for DeploymentEvent {
    type V = DeploymentEventView;

    open spec fn view(&self) -> DeploymentEventView {
        DeploymentEventView {
            state: self.state,
            deployed_workflows: views(self.deployed_workflows@),
            bpmn_xml: self.bpmn_xml@,
        }
    }
}

impl DeploymentEvent {
    /// What the object says when every field has its default.
    pub open spec fn default_view() -> DeploymentEventView {
        DeploymentEventView {
            state: DeploymentState::CreateDeployment,
            deployed_workflows: Seq::empty(),
            bpmn_xml: Seq::empty(),
        }
    }

    /// What the fields of a map say. A field that is missing has its
    /// default, and fields of other names are not looked at.
    pub open spec fn of_fields(fields: Seq<Field>) -> Result<DeploymentEventView, Failure> {
        let state = DeploymentState::or_default(field(fields, "state"@),
            DeploymentState::CreateDeployment);
        let deployed_workflows = list_or_empty::<DeployedWorkflow>(field(fields,
            "deployedWorkflows"@));
        let bpmn_xml = blob_or(field(fields, "bpmnXml"@), Seq::empty());
        if state is Err {
            Err(state->Err_0)
        } else if deployed_workflows is Err {
            Err(deployed_workflows->Err_0)
        } else if bpmn_xml is Err {
            Err(bpmn_xml->Err_0)
        } else {
            Ok(
                DeploymentEventView {
                    state: state->Ok_0,
                    deployed_workflows: deployed_workflows->Ok_0,
                    bpmn_xml: bpmn_xml->Ok_0,
                },
            )
        }
    }

    /// The object of an optional field: the default where the field is
    /// missing, a failure where its value is no such object.
    pub open spec fn or_default(value: Option<Seq<u8>>) -> Result<DeploymentEventView, Failure> {
        match value {
            None => Ok(Self::default_view()),
            Some(bytes) => Self::parse_payload(bytes),
        }
    }

    /// Reads the object of an optional field.
    pub fn read(value: Option<&[u8]>) -> (r: Result<DeploymentEvent, Error>)
        ensures
            match r {
                Ok(object) => Self::or_default(bytes_of(value))
                    == Ok::<DeploymentEventView, Failure>(object@),
                Err(error) => Self::or_default(bytes_of(value)) matches Err(failure)
                    && failure.reported_by(error),
            },
    {
        match value {
            None => Ok(DeploymentEvent::default()),
            Some(bytes) => DeploymentEvent::from_payload(bytes),
        }
    }
}

impl Default for DeploymentEvent {
    fn default() -> (object: DeploymentEvent)
        ensures
            object@ == DeploymentEvent::default_view(),
    {
        let mut bpmn_xml: Vec<u8> = Vec::new();
        let object = DeploymentEvent {
            state: DeploymentState::CreateDeployment,
            deployed_workflows: Vec::new(),
            bpmn_xml,
        };
        proof {
            assert(views(object.deployed_workflows@) =~= Seq::empty());
            assert(object.bpmn_xml@ =~= Seq::empty());
        }
        object
    }
}

impl ToData for DeploymentEvent {
    open spec fn payload_bytes(&self) -> Seq<u8> {
        rmp_map_len(3)
            + rmp_str("state"@) + rmp_str(self.state.name())
            + rmp_str("deployedWorkflows"@) + list_payload(self.deployed_workflows@)
            + rmp_str("bpmnXml"@) + rmp_bin(self.bpmn_xml@)
    }

    open spec fn encodable(&self) -> bool {
        list_encodable(self.deployed_workflows@)
    }

    fn to_payload(&self, out: &mut Vec<u8>) -> (r: Result<(), Error>) {
        write_map_len(out, 3);
        write_str(out, "state");
        write_str(out, self.state.as_str());
        write_str(out, "deployedWorkflows");
        match write_list(out, &self.deployed_workflows) {
            Ok(()) => {},
            Err(error) => {
                return Err(error);
            },
        }
        write_str(out, "bpmnXml");
        write_bin(out, self.bpmn_xml.as_slice());
        proof {
            assert(out@ =~= old(out)@ + self.payload_bytes());
        }
        Ok(())
    }
}

impl FromData for DeploymentEvent {
    open spec fn parse_payload(data: Seq<u8>) -> Result<DeploymentEventView, Failure> {
        match parse_map(data) {
            None => Err(Failure::Malformed),
            Some(fields) => Self::of_fields(fields),
        }
    }

    fn from_payload(data: &[u8]) -> (r: Result<DeploymentEvent, Error>) {
        let map = match MapReader::read(data) {
            Some(map) => map,
            None => {
                return Err(malformed());
            },
        };
        let state = match DeploymentState::read(map.get("state"),
            DeploymentState::CreateDeployment) {
            Ok(state) => state,
            Err(error) => {
                return Err(error);
            },
        };
        let deployed_workflows = match get_list::<DeployedWorkflow>(map.get("deployedWorkflows")) {
            Ok(deployed_workflows) => deployed_workflows,
            Err(error) => {
                return Err(error);
            },
        };
        let mut bpmn_xml_default: Vec<u8> = Vec::new();
        proof {
            assert(bpmn_xml_default@ =~= Seq::empty());
        }
        let bpmn_xml = match get_blob(map.get("bpmnXml"), bpmn_xml_default.as_slice()) {
            Ok(bpmn_xml) => bpmn_xml,
            Err(error) => {
                return Err(error);
            },
        };
        Ok(
            DeploymentEvent {
                state,
                deployed_workflows,
                bpmn_xml,
            },
        )
    }
}

/// The states of a workflow instance.
#[derive(Debug, PartialEq, Eq, Clone, Copy, Structural)]
pub enum WorkflowInstanceState {
    CreateWorkflowInstance,
    WorkflowInstanceCreated,
    WorkflowInstanceRejected,
    StartEventOccurred,
    EndEventOccurred,
    SequenceFlowTaken,
    ActivityReady,
    ActivityActivated,
    ActivityCompleting,
    ActivityCompleted,
    ActivityTerminated,
    WorkflowInstanceCompleted,
    CancelWorkflowInstance,
    WorkflowInstanceCanceled,
    CancelWorkflowInstanceRejected,
    UpdatePayload,
    PayloadUpdated,
    UpdatePayloadRejected,
}

impl WorkflowInstanceState {
    /// The name of the state on the wire.
    pub open spec fn name(&self) -> Seq<char> {
        match *self {
            WorkflowInstanceState::CreateWorkflowInstance => "CREATE_WORKFLOW_INSTANCE"@,
            WorkflowInstanceState::WorkflowInstanceCreated => "WORKFLOW_INSTANCE_CREATED"@,
            WorkflowInstanceState::WorkflowInstanceRejected => "WORKFLOW_INSTANCE_REJECTED"@,
            WorkflowInstanceState::StartEventOccurred => "START_EVENT_OCCURRED"@,
            WorkflowInstanceState::EndEventOccurred => "END_EVENT_OCCURRED"@,
            WorkflowInstanceState::SequenceFlowTaken => "SEQUENCE_FLOW_TAKEN"@,
            WorkflowInstanceState::ActivityReady => "ACTIVITY_READY"@,
            WorkflowInstanceState::ActivityActivated => "ACTIVITY_ACTIVATED"@,
            WorkflowInstanceState::ActivityCompleting => "ACTIVITY_COMPLETING"@,
            WorkflowInstanceState::ActivityCompleted => "ACTIVITY_COMPLETED"@,
            WorkflowInstanceState::ActivityTerminated => "ACTIVITY_TERMINATED"@,
            WorkflowInstanceState::WorkflowInstanceCompleted => "WORKFLOW_INSTANCE_COMPLETED"@,
            WorkflowInstanceState::CancelWorkflowInstance => "CANCEL_WORKFLOW_INSTANCE"@,
            WorkflowInstanceState::WorkflowInstanceCanceled => "WORKFLOW_INSTANCE_CANCELED"@,
            WorkflowInstanceState::CancelWorkflowInstanceRejected =>
                "CANCEL_WORKFLOW_INSTANCE_REJECTED"@,
            WorkflowInstanceState::UpdatePayload => "UPDATE_PAYLOAD"@,
            WorkflowInstanceState::PayloadUpdated => "PAYLOAD_UPDATED"@,
            WorkflowInstanceState::UpdatePayloadRejected => "UPDATE_PAYLOAD_REJECTED"@,
        }
    }

    /// The state that `name` names.
    pub open spec fn of_name(name: Seq<char>) -> Option<WorkflowInstanceState> {
        if name == "CREATE_WORKFLOW_INSTANCE"@ {
            Some(WorkflowInstanceState::CreateWorkflowInstance)
        } else if name == "WORKFLOW_INSTANCE_CREATED"@ {
            Some(WorkflowInstanceState::WorkflowInstanceCreated)
        } else if name == "WORKFLOW_INSTANCE_REJECTED"@ {
            Some(WorkflowInstanceState::WorkflowInstanceRejected)
        } else if name == "START_EVENT_OCCURRED"@ {
            Some(WorkflowInstanceState::StartEventOccurred)
        } else if name == "END_EVENT_OCCURRED"@ {
            Some(WorkflowInstanceState::EndEventOccurred)
        } else if name == "SEQUENCE_FLOW_TAKEN"@ {
            Some(WorkflowInstanceState::SequenceFlowTaken)
        } else if name == "ACTIVITY_READY"@ {
            Some(WorkflowInstanceState::ActivityReady)
        } else if name == "ACTIVITY_ACTIVATED"@ {
            Some(WorkflowInstanceState::ActivityActivated)
        } else if name == "ACTIVITY_COMPLETING"@ {
            Some(WorkflowInstanceState::ActivityCompleting)
        } else if name == "ACTIVITY_COMPLETED"@ {
            Some(WorkflowInstanceState::ActivityCompleted)
        } else if name == "ACTIVITY_TERMINATED"@ {
            Some(WorkflowInstanceState::ActivityTerminated)
        } else if name == "WORKFLOW_INSTANCE_COMPLETED"@ {
            Some(WorkflowInstanceState::WorkflowInstanceCompleted)
        } else if name == "CANCEL_WORKFLOW_INSTANCE"@ {
            Some(WorkflowInstanceState::CancelWorkflowInstance)
        } else if name == "WORKFLOW_INSTANCE_CANCELED"@ {
            Some(WorkflowInstanceState::WorkflowInstanceCanceled)
        } else if name == "CANCEL_WORKFLOW_INSTANCE_REJECTED"@ {
            Some(WorkflowInstanceState::CancelWorkflowInstanceRejected)
        } else if name == "UPDATE_PAYLOAD"@ {
            Some(WorkflowInstanceState::UpdatePayload)
        } else if name == "PAYLOAD_UPDATED"@ {
            Some(WorkflowInstanceState::PayloadUpdated)
        } else if name == "UPDATE_PAYLOAD_REJECTED"@ {
            Some(WorkflowInstanceState::UpdatePayloadRejected)
        } else {
            None
        }
    }

    /// The name of the state on the wire.
    pub fn as_str(&self) -> (name: &'static str)
        ensures
            name@ == self.name(),
    {
        match *self {
            WorkflowInstanceState::CreateWorkflowInstance => "CREATE_WORKFLOW_INSTANCE",
            WorkflowInstanceState::WorkflowInstanceCreated => "WORKFLOW_INSTANCE_CREATED",
            WorkflowInstanceState::WorkflowInstanceRejected => "WORKFLOW_INSTANCE_REJECTED",
            WorkflowInstanceState::StartEventOccurred => "START_EVENT_OCCURRED",
            WorkflowInstanceState::EndEventOccurred => "END_EVENT_OCCURRED",
            WorkflowInstanceState::SequenceFlowTaken => "SEQUENCE_FLOW_TAKEN",
            WorkflowInstanceState::ActivityReady => "ACTIVITY_READY",
            WorkflowInstanceState::ActivityActivated => "ACTIVITY_ACTIVATED",
            WorkflowInstanceState::ActivityCompleting => "ACTIVITY_COMPLETING",
            WorkflowInstanceState::ActivityCompleted => "ACTIVITY_COMPLETED",
            WorkflowInstanceState::ActivityTerminated => "ACTIVITY_TERMINATED",
            WorkflowInstanceState::WorkflowInstanceCompleted => "WORKFLOW_INSTANCE_COMPLETED",
            WorkflowInstanceState::CancelWorkflowInstance => "CANCEL_WORKFLOW_INSTANCE",
            WorkflowInstanceState::WorkflowInstanceCanceled => "WORKFLOW_INSTANCE_CANCELED",
            WorkflowInstanceState::CancelWorkflowInstanceRejected =>
                "CANCEL_WORKFLOW_INSTANCE_REJECTED",
            WorkflowInstanceState::UpdatePayload => "UPDATE_PAYLOAD",
            WorkflowInstanceState::PayloadUpdated => "PAYLOAD_UPDATED",
            WorkflowInstanceState::UpdatePayloadRejected => "UPDATE_PAYLOAD_REJECTED",
        }
    }

    /// The state that `name` names.
    ///
    /// Fails with `UnknownState`, which holds `name`, when `name` is not in
    /// the vocabulary.
    pub fn from_name(name: &str) -> (r: Result<WorkflowInstanceState, Error>)
        ensures
            match r {
                Ok(state) => Self::of_name(name@) == Some(state),
                Err(error) => Self::of_name(name@) is None && Failure::UnknownState(
                    name@,
                ).reported_by(error),
            },
    {
        let text = String::from_str(name);
        if text == String::from_str("CREATE_WORKFLOW_INSTANCE") {
            Ok(WorkflowInstanceState::CreateWorkflowInstance)
        } else if text == String::from_str("WORKFLOW_INSTANCE_CREATED") {
            Ok(WorkflowInstanceState::WorkflowInstanceCreated)
        } else if text == String::from_str("WORKFLOW_INSTANCE_REJECTED") {
            Ok(WorkflowInstanceState::WorkflowInstanceRejected)
        } else if text == String::from_str("START_EVENT_OCCURRED") {
            Ok(WorkflowInstanceState::StartEventOccurred)
        } else if text == String::from_str("END_EVENT_OCCURRED") {
            Ok(WorkflowInstanceState::EndEventOccurred)
        } else if text == String::from_str("SEQUENCE_FLOW_TAKEN") {
            Ok(WorkflowInstanceState::SequenceFlowTaken)
        } else if text == String::from_str("ACTIVITY_READY") {
            Ok(WorkflowInstanceState::ActivityReady)
        } else if text == String::from_str("ACTIVITY_ACTIVATED") {
            Ok(WorkflowInstanceState::ActivityActivated)
        } else if text == String::from_str("ACTIVITY_COMPLETING") {
            Ok(WorkflowInstanceState::ActivityCompleting)
        } else if text == String::from_str("ACTIVITY_COMPLETED") {
            Ok(WorkflowInstanceState::ActivityCompleted)
        } else if text == String::from_str("ACTIVITY_TERMINATED") {
            Ok(WorkflowInstanceState::ActivityTerminated)
        } else if text == String::from_str("WORKFLOW_INSTANCE_COMPLETED") {
            Ok(WorkflowInstanceState::WorkflowInstanceCompleted)
        } else if text == String::from_str("CANCEL_WORKFLOW_INSTANCE") {
            Ok(WorkflowInstanceState::CancelWorkflowInstance)
        } else if text == String::from_str("WORKFLOW_INSTANCE_CANCELED") {
            Ok(WorkflowInstanceState::WorkflowInstanceCanceled)
        } else if text == String::from_str("CANCEL_WORKFLOW_INSTANCE_REJECTED") {
            Ok(WorkflowInstanceState::CancelWorkflowInstanceRejected)
        } else if text == String::from_str("UPDATE_PAYLOAD") {
            Ok(WorkflowInstanceState::UpdatePayload)
        } else if text == String::from_str("PAYLOAD_UPDATED") {
            Ok(WorkflowInstanceState::PayloadUpdated)
        } else if text == String::from_str("UPDATE_PAYLOAD_REJECTED") {
            Ok(WorkflowInstanceState::UpdatePayloadRejected)
        } else {
            Err(Error::UnknownState(text))
        }
    }

    /// The state of an optional field: the default where the field is
    /// missing, a failure where its value is no string or no name of a state.
    pub open spec fn or_default(value: Option<Seq<u8>>, default: WorkflowInstanceState)
        -> Result<WorkflowInstanceState, Failure> {
        match value {
            None => Ok(default),
            Some(bytes) => match parse_str(bytes) {
                None => Err(Failure::Malformed),
                Some((name, _)) => match Self::of_name(name) {
                    Some(state) => Ok(state),
                    None => Err(Failure::UnknownState(name)),
                },
            },
        }
    }

    /// Reads the state of an optional field.
    pub fn read(value: Option<&[u8]>, default: WorkflowInstanceState)
        -> (r: Result<WorkflowInstanceState, Error>)
        ensures
            match r {
                Ok(state) => Self::or_default(bytes_of(value), default)
                    == Ok::<WorkflowInstanceState, Failure>(state),
                Err(error) => Self::or_default(bytes_of(value), default) matches Err(failure)
                    && failure.reported_by(error),
            },
    {
        match value {
            None => Ok(default),
            Some(bytes) => match read_str(bytes) {
                None => Err(malformed()),
                Some((name, _)) => Self::from_name(name.as_str()),
            },
        }
    }

    /// Every state is the state that its name names.
    pub proof fn lemma_name_names_state(self)
        ensures
            Self::of_name(self.name()) == Some(self),
    {
        reveal_strlit("CREATE_WORKFLOW_INSTANCE");
        reveal_strlit("WORKFLOW_INSTANCE_CREATED");
        reveal_strlit("WORKFLOW_INSTANCE_REJECTED");
        reveal_strlit("START_EVENT_OCCURRED");
        reveal_strlit("END_EVENT_OCCURRED");
        reveal_strlit("SEQUENCE_FLOW_TAKEN");
        reveal_strlit("ACTIVITY_READY");
        reveal_strlit("ACTIVITY_ACTIVATED");
        reveal_strlit("ACTIVITY_COMPLETING");
        reveal_strlit("ACTIVITY_COMPLETED");
        reveal_strlit("ACTIVITY_TERMINATED");
        reveal_strlit("WORKFLOW_INSTANCE_COMPLETED");
        reveal_strlit("CANCEL_WORKFLOW_INSTANCE");
        reveal_strlit("WORKFLOW_INSTANCE_CANCELED");
        reveal_strlit("CANCEL_WORKFLOW_INSTANCE_REJECTED");
        reveal_strlit("UPDATE_PAYLOAD");
        reveal_strlit("PAYLOAD_UPDATED");
        reveal_strlit("UPDATE_PAYLOAD_REJECTED");
        match self {
            WorkflowInstanceState::CreateWorkflowInstance => {},
            WorkflowInstanceState::WorkflowInstanceCreated => {
                assert("CREATE_WORKFLOW_INSTANCE"@.len() != "WORKFLOW_INSTANCE_CREATED"@.len());
            },
            WorkflowInstanceState::WorkflowInstanceRejected => {
                assert("CREATE_WORKFLOW_INSTANCE"@.len() != "WORKFLOW_INSTANCE_REJECTED"@.len());
                assert("WORKFLOW_INSTANCE_CREATED"@.len() != "WORKFLOW_INSTANCE_REJECTED"@.len());
            },
            WorkflowInstanceState::StartEventOccurred => {
                assert("CREATE_WORKFLOW_INSTANCE"@.len() != "START_EVENT_OCCURRED"@.len());
                assert("WORKFLOW_INSTANCE_CREATED"@.len() != "START_EVENT_OCCURRED"@.len());
                assert("WORKFLOW_INSTANCE_REJECTED"@.len() != "START_EVENT_OCCURRED"@.len());
            },
            WorkflowInstanceState::EndEventOccurred => {
                assert("CREATE_WORKFLOW_INSTANCE"@.len() != "END_EVENT_OCCURRED"@.len());
                assert("WORKFLOW_INSTANCE_CREATED"@.len() != "END_EVENT_OCCURRED"@.len());
                assert("WORKFLOW_INSTANCE_REJECTED"@.len() != "END_EVENT_OCCURRED"@.len());
                assert("START_EVENT_OCCURRED"@.len() != "END_EVENT_OCCURRED"@.len());
            },
            WorkflowInstanceState::SequenceFlowTaken => {
                assert("CREATE_WORKFLOW_INSTANCE"@.len() != "SEQUENCE_FLOW_TAKEN"@.len());
                assert("WORKFLOW_INSTANCE_CREATED"@.len() != "SEQUENCE_FLOW_TAKEN"@.len());
                assert("WORKFLOW_INSTANCE_REJECTED"@.len() != "SEQUENCE_FLOW_TAKEN"@.len());
                assert("START_EVENT_OCCURRED"@.len() != "SEQUENCE_FLOW_TAKEN"@.len());
                assert("END_EVENT_OCCURRED"@.len() != "SEQUENCE_FLOW_TAKEN"@.len());
            },
            WorkflowInstanceState::ActivityReady => {
                assert("CREATE_WORKFLOW_INSTANCE"@.len() != "ACTIVITY_READY"@.len());
                assert("WORKFLOW_INSTANCE_CREATED"@.len() != "ACTIVITY_READY"@.len());
                assert("WORKFLOW_INSTANCE_REJECTED"@.len() != "ACTIVITY_READY"@.len());
                assert("START_EVENT_OCCURRED"@.len() != "ACTIVITY_READY"@.len());
                assert("END_EVENT_OCCURRED"@.len() != "ACTIVITY_READY"@.len());
                assert("SEQUENCE_FLOW_TAKEN"@.len() != "ACTIVITY_READY"@.len());
            },
            WorkflowInstanceState::ActivityActivated => {
                assert("CREATE_WORKFLOW_INSTANCE"@.len() != "ACTIVITY_ACTIVATED"@.len());
                assert("WORKFLOW_INSTANCE_CREATED"@.len() != "ACTIVITY_ACTIVATED"@.len());
                assert("WORKFLOW_INSTANCE_REJECTED"@.len() != "ACTIVITY_ACTIVATED"@.len());
                assert("START_EVENT_OCCURRED"@.len() != "ACTIVITY_ACTIVATED"@.len());
                assert("END_EVENT_OCCURRED"@[0] != "ACTIVITY_ACTIVATED"@[0]);
                assert("SEQUENCE_FLOW_TAKEN"@.len() != "ACTIVITY_ACTIVATED"@.len());
                assert("ACTIVITY_READY"@.len() != "ACTIVITY_ACTIVATED"@.len());
            },
            WorkflowInstanceState::ActivityCompleting => {
                assert("CREATE_WORKFLOW_INSTANCE"@.len() != "ACTIVITY_COMPLETING"@.len());
                assert("WORKFLOW_INSTANCE_CREATED"@.len() != "ACTIVITY_COMPLETING"@.len());
                assert("WORKFLOW_INSTANCE_REJECTED"@.len() != "ACTIVITY_COMPLETING"@.len());
                assert("START_EVENT_OCCURRED"@.len() != "ACTIVITY_COMPLETING"@.len());
                assert("END_EVENT_OCCURRED"@.len() != "ACTIVITY_COMPLETING"@.len());
                assert("SEQUENCE_FLOW_TAKEN"@[0] != "ACTIVITY_COMPLETING"@[0]);
                assert("ACTIVITY_READY"@.len() != "ACTIVITY_COMPLETING"@.len());
                assert("ACTIVITY_ACTIVATED"@.len() != "ACTIVITY_COMPLETING"@.len());
            },
            WorkflowInstanceState::ActivityCompleted => {
                assert("CREATE_WORKFLOW_INSTANCE"@.len() != "ACTIVITY_COMPLETED"@.len());
                assert("WORKFLOW_INSTANCE_CREATED"@.len() != "ACTIVITY_COMPLETED"@.len());
                assert("WORKFLOW_INSTANCE_REJECTED"@.len() != "ACTIVITY_COMPLETED"@.len());
                assert("START_EVENT_OCCURRED"@.len() != "ACTIVITY_COMPLETED"@.len());
                assert("END_EVENT_OCCURRED"@[0] != "ACTIVITY_COMPLETED"@[0]);
                assert("SEQUENCE_FLOW_TAKEN"@.len() != "ACTIVITY_COMPLETED"@.len());
                assert("ACTIVITY_READY"@.len() != "ACTIVITY_COMPLETED"@.len());
                assert("ACTIVITY_ACTIVATED"@[9] != "ACTIVITY_COMPLETED"@[9]);
                assert("ACTIVITY_COMPLETING"@.len() != "ACTIVITY_COMPLETED"@.len());
            },
            WorkflowInstanceState::ActivityTerminated => {
                assert("CREATE_WORKFLOW_INSTANCE"@.len() != "ACTIVITY_TERMINATED"@.len());
                assert("WORKFLOW_INSTANCE_CREATED"@.len() != "ACTIVITY_TERMINATED"@.len());
                assert("WORKFLOW_INSTANCE_REJECTED"@.len() != "ACTIVITY_TERMINATED"@.len());
                assert("START_EVENT_OCCURRED"@.len() != "ACTIVITY_TERMINATED"@.len());
                assert("END_EVENT_OCCURRED"@.len() != "ACTIVITY_TERMINATED"@.len());
                assert("SEQUENCE_FLOW_TAKEN"@[0] != "ACTIVITY_TERMINATED"@[0]);
                assert("ACTIVITY_READY"@.len() != "ACTIVITY_TERMINATED"@.len());
                assert("ACTIVITY_ACTIVATED"@.len() != "ACTIVITY_TERMINATED"@.len());
                assert("ACTIVITY_COMPLETING"@[9] != "ACTIVITY_TERMINATED"@[9]);
                assert("ACTIVITY_COMPLETED"@.len() != "ACTIVITY_TERMINATED"@.len());
            },
            WorkflowInstanceState::WorkflowInstanceCompleted => {
                assert("CREATE_WORKFLOW_INSTANCE"@.len() != "WORKFLOW_INSTANCE_COMPLETED"@.len());
                assert("WORKFLOW_INSTANCE_CREATED"@.len() != "WORKFLOW_INSTANCE_COMPLETED"@.len());
                assert("WORKFLOW_INSTANCE_REJECTED"@.len() != "WORKFLOW_INSTANCE_COMPLETED"@.len());
                assert("START_EVENT_OCCURRED"@.len() != "WORKFLOW_INSTANCE_COMPLETED"@.len());
                assert("END_EVENT_OCCURRED"@.len() != "WORKFLOW_INSTANCE_COMPLETED"@.len());
                assert("SEQUENCE_FLOW_TAKEN"@.len() != "WORKFLOW_INSTANCE_COMPLETED"@.len());
                assert("ACTIVITY_READY"@.len() != "WORKFLOW_INSTANCE_COMPLETED"@.len());
                assert("ACTIVITY_ACTIVATED"@.len() != "WORKFLOW_INSTANCE_COMPLETED"@.len());
                assert("ACTIVITY_COMPLETING"@.len() != "WORKFLOW_INSTANCE_COMPLETED"@.len());
                assert("ACTIVITY_COMPLETED"@.len() != "WORKFLOW_INSTANCE_COMPLETED"@.len());
                assert("ACTIVITY_TERMINATED"@.len() != "WORKFLOW_INSTANCE_COMPLETED"@.len());
            },
            WorkflowInstanceState::CancelWorkflowInstance => {
                assert("CREATE_WORKFLOW_INSTANCE"@[1] != "CANCEL_WORKFLOW_INSTANCE"@[1]);
                assert("WORKFLOW_INSTANCE_CREATED"@.len() != "CANCEL_WORKFLOW_INSTANCE"@.len());
                assert("WORKFLOW_INSTANCE_REJECTED"@.len() != "CANCEL_WORKFLOW_INSTANCE"@.len());
                assert("START_EVENT_OCCURRED"@.len() != "CANCEL_WORKFLOW_INSTANCE"@.len());
                assert("END_EVENT_OCCURRED"@.len() != "CANCEL_WORKFLOW_INSTANCE"@.len());
                assert("SEQUENCE_FLOW_TAKEN"@.len() != "CANCEL_WORKFLOW_INSTANCE"@.len());
                assert("ACTIVITY_READY"@.len() != "CANCEL_WORKFLOW_INSTANCE"@.len());
                assert("ACTIVITY_ACTIVATED"@.len() != "CANCEL_WORKFLOW_INSTANCE"@.len());
                assert("ACTIVITY_COMPLETING"@.len() != "CANCEL_WORKFLOW_INSTANCE"@.len());
                assert("ACTIVITY_COMPLETED"@.len() != "CANCEL_WORKFLOW_INSTANCE"@.len());
                assert("ACTIVITY_TERMINATED"@.len() != "CANCEL_WORKFLOW_INSTANCE"@.len());
                assert("WORKFLOW_INSTANCE_COMPLETED"@.len() != "CANCEL_WORKFLOW_INSTANCE"@.len());
            },
            WorkflowInstanceState::WorkflowInstanceCanceled => {
                assert("CREATE_WORKFLOW_INSTANCE"@.len() != "WORKFLOW_INSTANCE_CANCELED"@.len());
                assert("WORKFLOW_INSTANCE_CREATED"@.len() != "WORKFLOW_INSTANCE_CANCELED"@.len());
                assert("WORKFLOW_INSTANCE_REJECTED"@[18] != "WORKFLOW_INSTANCE_CANCELED"@[18]);
                assert("START_EVENT_OCCURRED"@.len() != "WORKFLOW_INSTANCE_CANCELED"@.len());
                assert("END_EVENT_OCCURRED"@.len() != "WORKFLOW_INSTANCE_CANCELED"@.len());
                assert("SEQUENCE_FLOW_TAKEN"@.len() != "WORKFLOW_INSTANCE_CANCELED"@.len());
                assert("ACTIVITY_READY"@.len() != "WORKFLOW_INSTANCE_CANCELED"@.len());
                assert("ACTIVITY_ACTIVATED"@.len() != "WORKFLOW_INSTANCE_CANCELED"@.len());
                assert("ACTIVITY_COMPLETING"@.len() != "WORKFLOW_INSTANCE_CANCELED"@.len());
                assert("ACTIVITY_COMPLETED"@.len() != "WORKFLOW_INSTANCE_CANCELED"@.len());
                assert("ACTIVITY_TERMINATED"@.len() != "WORKFLOW_INSTANCE_CANCELED"@.len());
                assert("WORKFLOW_INSTANCE_COMPLETED"@.len() != "WORKFLOW_INSTANCE_CANCELED"@.len());
                assert("CANCEL_WORKFLOW_INSTANCE"@.len() != "WORKFLOW_INSTANCE_CANCELED"@.len());
            },
            WorkflowInstanceState::CancelWorkflowInstanceRejected => {
                assert("CREATE_WORKFLOW_INSTANCE"@.len() !=
                    "CANCEL_WORKFLOW_INSTANCE_REJECTED"@.len());
                assert("WORKFLOW_INSTANCE_CREATED"@.len() !=
                    "CANCEL_WORKFLOW_INSTANCE_REJECTED"@.len());
                assert("WORKFLOW_INSTANCE_REJECTED"@.len() !=
                    "CANCEL_WORKFLOW_INSTANCE_REJECTED"@.len());
                assert("START_EVENT_OCCURRED"@.len() != "CANCEL_WORKFLOW_INSTANCE_REJECTED"@.len());
                assert("END_EVENT_OCCURRED"@.len() != "CANCEL_WORKFLOW_INSTANCE_REJECTED"@.len());
                assert("SEQUENCE_FLOW_TAKEN"@.len() != "CANCEL_WORKFLOW_INSTANCE_REJECTED"@.len());
                assert("ACTIVITY_READY"@.len() != "CANCEL_WORKFLOW_INSTANCE_REJECTED"@.len());
                assert("ACTIVITY_ACTIVATED"@.len() != "CANCEL_WORKFLOW_INSTANCE_REJECTED"@.len());
                assert("ACTIVITY_COMPLETING"@.len() != "CANCEL_WORKFLOW_INSTANCE_REJECTED"@.len());
                assert("ACTIVITY_COMPLETED"@.len() != "CANCEL_WORKFLOW_INSTANCE_REJECTED"@.len());
                assert("ACTIVITY_TERMINATED"@.len() != "CANCEL_WORKFLOW_INSTANCE_REJECTED"@.len());
                assert("WORKFLOW_INSTANCE_COMPLETED"@.len() !=
                    "CANCEL_WORKFLOW_INSTANCE_REJECTED"@.len());
                assert("CANCEL_WORKFLOW_INSTANCE"@.len() !=
                    "CANCEL_WORKFLOW_INSTANCE_REJECTED"@.len());
                assert("WORKFLOW_INSTANCE_CANCELED"@.len() !=
                    "CANCEL_WORKFLOW_INSTANCE_REJECTED"@.len());
            },
            WorkflowInstanceState::UpdatePayload => {
                assert("CREATE_WORKFLOW_INSTANCE"@.len() != "UPDATE_PAYLOAD"@.len());
                assert("WORKFLOW_INSTANCE_CREATED"@.len() != "UPDATE_PAYLOAD"@.len());
                assert("WORKFLOW_INSTANCE_REJECTED"@.len() != "UPDATE_PAYLOAD"@.len());
                assert("START_EVENT_OCCURRED"@.len() != "UPDATE_PAYLOAD"@.len());
                assert("END_EVENT_OCCURRED"@.len() != "UPDATE_PAYLOAD"@.len());
                assert("SEQUENCE_FLOW_TAKEN"@.len() != "UPDATE_PAYLOAD"@.len());
                assert("ACTIVITY_READY"@[0] != "UPDATE_PAYLOAD"@[0]);
                assert("ACTIVITY_ACTIVATED"@.len() != "UPDATE_PAYLOAD"@.len());
                assert("ACTIVITY_COMPLETING"@.len() != "UPDATE_PAYLOAD"@.len());
                assert("ACTIVITY_COMPLETED"@.len() != "UPDATE_PAYLOAD"@.len());
                assert("ACTIVITY_TERMINATED"@.len() != "UPDATE_PAYLOAD"@.len());
                assert("WORKFLOW_INSTANCE_COMPLETED"@.len() != "UPDATE_PAYLOAD"@.len());
                assert("CANCEL_WORKFLOW_INSTANCE"@.len() != "UPDATE_PAYLOAD"@.len());
                assert("WORKFLOW_INSTANCE_CANCELED"@.len() != "UPDATE_PAYLOAD"@.len());
                assert("CANCEL_WORKFLOW_INSTANCE_REJECTED"@.len() != "UPDATE_PAYLOAD"@.len());
            },
            WorkflowInstanceState::PayloadUpdated => {
                assert("CREATE_WORKFLOW_INSTANCE"@.len() != "PAYLOAD_UPDATED"@.len());
                assert("WORKFLOW_INSTANCE_CREATED"@.len() != "PAYLOAD_UPDATED"@.len());
                assert("WORKFLOW_INSTANCE_REJECTED"@.len() != "PAYLOAD_UPDATED"@.len());
                assert("START_EVENT_OCCURRED"@.len() != "PAYLOAD_UPDATED"@.len());
                assert("END_EVENT_OCCURRED"@.len() != "PAYLOAD_UPDATED"@.len());
                assert("SEQUENCE_FLOW_TAKEN"@.len() != "PAYLOAD_UPDATED"@.len());
                assert("ACTIVITY_READY"@.len() != "PAYLOAD_UPDATED"@.len());
                assert("ACTIVITY_ACTIVATED"@.len() != "PAYLOAD_UPDATED"@.len());
                assert("ACTIVITY_COMPLETING"@.len() != "PAYLOAD_UPDATED"@.len());
                assert("ACTIVITY_COMPLETED"@.len() != "PAYLOAD_UPDATED"@.len());
                assert("ACTIVITY_TERMINATED"@.len() != "PAYLOAD_UPDATED"@.len());
                assert("WORKFLOW_INSTANCE_COMPLETED"@.len() != "PAYLOAD_UPDATED"@.len());
                assert("CANCEL_WORKFLOW_INSTANCE"@.len() != "PAYLOAD_UPDATED"@.len());
                assert("WORKFLOW_INSTANCE_CANCELED"@.len() != "PAYLOAD_UPDATED"@.len());
                assert("CANCEL_WORKFLOW_INSTANCE_REJECTED"@.len() != "PAYLOAD_UPDATED"@.len());
                assert("UPDATE_PAYLOAD"@.len() != "PAYLOAD_UPDATED"@.len());
            },
            WorkflowInstanceState::UpdatePayloadRejected => {
                assert("CREATE_WORKFLOW_INSTANCE"@.len() != "UPDATE_PAYLOAD_REJECTED"@.len());
                assert("WORKFLOW_INSTANCE_CREATED"@.len() != "UPDATE_PAYLOAD_REJECTED"@.len());
                assert("WORKFLOW_INSTANCE_REJECTED"@.len() != "UPDATE_PAYLOAD_REJECTED"@.len());
                assert("START_EVENT_OCCURRED"@.len() != "UPDATE_PAYLOAD_REJECTED"@.len());
                assert("END_EVENT_OCCURRED"@.len() != "UPDATE_PAYLOAD_REJECTED"@.len());
                assert("SEQUENCE_FLOW_TAKEN"@.len() != "UPDATE_PAYLOAD_REJECTED"@.len());
                assert("ACTIVITY_READY"@.len() != "UPDATE_PAYLOAD_REJECTED"@.len());
                assert("ACTIVITY_ACTIVATED"@.len() != "UPDATE_PAYLOAD_REJECTED"@.len());
                assert("ACTIVITY_COMPLETING"@.len() != "UPDATE_PAYLOAD_REJECTED"@.len());
                assert("ACTIVITY_COMPLETED"@.len() != "UPDATE_PAYLOAD_REJECTED"@.len());
                assert("ACTIVITY_TERMINATED"@.len() != "UPDATE_PAYLOAD_REJECTED"@.len());
                assert("WORKFLOW_INSTANCE_COMPLETED"@.len() != "UPDATE_PAYLOAD_REJECTED"@.len());
                assert("CANCEL_WORKFLOW_INSTANCE"@.len() != "UPDATE_PAYLOAD_REJECTED"@.len());
                assert("WORKFLOW_INSTANCE_CANCELED"@.len() != "UPDATE_PAYLOAD_REJECTED"@.len());
                assert("CANCEL_WORKFLOW_INSTANCE_REJECTED"@.len() !=
                    "UPDATE_PAYLOAD_REJECTED"@.len());
                assert("UPDATE_PAYLOAD"@.len() != "UPDATE_PAYLOAD_REJECTED"@.len());
                assert("PAYLOAD_UPDATED"@.len() != "UPDATE_PAYLOAD_REJECTED"@.len());
            },
        }
    }
}

impl Default for WorkflowInstanceState {
    fn default() -> (state: WorkflowInstanceState)
        ensures
            state == WorkflowInstanceState::CreateWorkflowInstance,
    {
        WorkflowInstanceState::CreateWorkflowInstance
    }
}

/// A workflow instance, as the broker records it.
#[derive(Debug, PartialEq, Eq, Clone)]
pub struct WorkflowInstanceEvent {
    pub state: WorkflowInstanceState,
    pub bpmn_process_id: String,
    pub version: i32,
    pub workflow_key: i64,
    pub workflow_instance_key: i64,
    pub activity_id: String,
    pub payload: Vec<u8>,
}

/// What a `WorkflowInstanceEvent` says.
pub struct WorkflowInstanceEventView {
    pub state: WorkflowInstanceState,
    pub bpmn_process_id: Seq<char>,
    pub version: i32,
    pub workflow_key: i64,
    pub workflow_instance_key: i64,
    pub activity_id: Seq<char>,
    pub payload: Seq<u8>,
}

impl View for WorkflowInstanceEvent {
    type V = WorkflowInstanceEventView;

    open spec fn view(&self) -> WorkflowInstanceEventView {
        WorkflowInstanceEventView {
            state: self.state,
            bpmn_process_id: self.bpmn_process_id@,
            version: self.version,
            workflow_key: self.workflow_key,
            workflow_instance_key: self.workflow_instance_key,
            activity_id: self.activity_id@,
            payload: self.payload@,
        }
    }
}

impl WorkflowInstanceEvent {
    /// What the object says when every field has its default.
    pub open spec fn default_view() -> WorkflowInstanceEventView {
        WorkflowInstanceEventView {
            state: WorkflowInstanceState::CreateWorkflowInstance,
            bpmn_process_id: Seq::empty(),
            version: -1i32,
            workflow_key: -1i64,
            workflow_instance_key: -1i64,
            activity_id: Seq::empty(),
            payload: seq![NIL],
        }
    }

    /// What the fields of a map say. A field that is missing has its
    /// default, and fields of other names are not looked at.
    pub open spec fn of_fields(fields: Seq<Field>) -> Result<WorkflowInstanceEventView, Failure> {
        let state = WorkflowInstanceState::or_default(field(fields, "state"@),
            WorkflowInstanceState::CreateWorkflowInstance);
        let bpmn_process_id = text_or_empty(field(fields, "bpmnProcessId"@));
        let version = integer_or(
            field(fields, "version"@),
            -1,
            i32::MIN as int,
            i32::MAX as int,
        );
        let workflow_key = integer_or(
            field(fields, "workflowKey"@),
            -1,
            i64::MIN as int,
            i64::MAX as int,
        );
        let workflow_instance_key = integer_or(
            field(fields, "workflowInstanceKey"@),
            -1,
            i64::MIN as int,
            i64::MAX as int,
        );
        let activity_id = text_or_empty(field(fields, "activityId"@));
        let payload = blob_or(field(fields, "payload"@), seq![NIL]);
        if state is Err {
            Err(state->Err_0)
        } else if bpmn_process_id is Err {
            Err(bpmn_process_id->Err_0)
        } else if version is Err {
            Err(version->Err_0)
        } else if workflow_key is Err {
            Err(workflow_key->Err_0)
        } else if workflow_instance_key is Err {
            Err(workflow_instance_key->Err_0)
        } else if activity_id is Err {
            Err(activity_id->Err_0)
        } else if payload is Err {
            Err(payload->Err_0)
        } else {
            Ok(
                WorkflowInstanceEventView {
                    state: state->Ok_0,
                    bpmn_process_id: bpmn_process_id->Ok_0,
                    version: version->Ok_0 as i32,
                    workflow_key: workflow_key->Ok_0 as i64,
                    workflow_instance_key: workflow_instance_key->Ok_0 as i64,
                    activity_id: activity_id->Ok_0,
                    payload: payload->Ok_0,
                },
            )
        }
    }

    /// The object of an optional field: the default where the field is
    /// missing, a failure where its value is no such object.
    pub open spec fn or_default(value: Option<Seq<u8>>)
        -> Result<WorkflowInstanceEventView, Failure> {
        match value {
            None => Ok(Self::default_view()),
            Some(bytes) => Self::parse_payload(bytes),
        }
    }

    /// Reads the object of an optional field.
    pub fn read(value: Option<&[u8]>) -> (r: Result<WorkflowInstanceEvent, Error>)
        ensures
            match r {
                Ok(object) => Self::or_default(bytes_of(value))
                    == Ok::<WorkflowInstanceEventView, Failure>(object@),
                Err(error) => Self::or_default(bytes_of(value)) matches Err(failure)
                    && failure.reported_by(error),
            },
    {
        match value {
            None => Ok(WorkflowInstanceEvent::default()),
            Some(bytes) => WorkflowInstanceEvent::from_payload(bytes),
        }
    }
}

impl Default for WorkflowInstanceEvent {
    fn default() -> (object: WorkflowInstanceEvent)
        ensures
            object@ == WorkflowInstanceEvent::default_view(),
    {
        let mut payload: Vec<u8> = Vec::new();
        payload.push(NIL);
        let object = WorkflowInstanceEvent {
            state: WorkflowInstanceState::CreateWorkflowInstance,
            bpmn_process_id: String::new(),
            version: -1i32,
            workflow_key: -1i64,
            workflow_instance_key: -1i64,
            activity_id: String::new(),
            payload,
        };
        proof {
            assert(object.payload@ =~= seq![NIL]);
        }
        object
    }
}

impl WorkflowInstanceEvent {
    /// The payload that says `view`.
    pub open spec fn payload_of(view: WorkflowInstanceEventView) -> Seq<u8> {
        rmp_map_len(7)
            + rmp_str("state"@) + rmp_str(view.state.name())
            + rmp_str("bpmnProcessId"@) + rmp_str(view.bpmn_process_id)
            + rmp_str("version"@) + rmp_sint(view.version as i64)
            + rmp_str("workflowKey"@) + rmp_sint(view.workflow_key as i64)
            + rmp_str("workflowInstanceKey"@) + rmp_sint(view.workflow_instance_key as i64)
            + rmp_str("activityId"@) + rmp_str(view.activity_id)
            + rmp_str("payload"@) + rmp_bin(view.payload)
    }
}

impl ToData for WorkflowInstanceEvent {
    open spec fn payload_bytes(&self) -> Seq<u8> {
        WorkflowInstanceEvent::payload_of(self@)
    }

    open spec fn encodable(&self) -> bool {
        true
    }

    fn to_payload(&self, out: &mut Vec<u8>) -> (r: Result<(), Error>) {
        write_map_len(out, 7);
        write_str(out, "state");
        write_str(out, self.state.as_str());
        write_str(out, "bpmnProcessId");
        write_str(out, self.bpmn_process_id.as_str());
        write_str(out, "version");
        write_sint(out, self.version as i64);
        write_str(out, "workflowKey");
        write_sint(out, self.workflow_key as i64);
        write_str(out, "workflowInstanceKey");
        write_sint(out, self.workflow_instance_key as i64);
        write_str(out, "activityId");
        write_str(out, self.activity_id.as_str());
        write_str(out, "payload");
        write_bin(out, self.payload.as_slice());
        proof {
            assert(out@ =~= old(out)@ + self.payload_bytes());
        }
        Ok(())
    }
}

impl FromData for WorkflowInstanceEvent {
    open spec fn parse_payload(data: Seq<u8>) -> Result<WorkflowInstanceEventView, Failure> {
        match parse_map(data) {
            None => Err(Failure::Malformed),
            Some(fields) => Self::of_fields(fields),
        }
    }

    fn from_payload(data: &[u8]) -> (r: Result<WorkflowInstanceEvent, Error>) {
        let map = match MapReader::read(data) {
            Some(map) => map,
            None => {
                return Err(malformed());
            },
        };
        let state = match WorkflowInstanceState::read(map.get("state"),
            WorkflowInstanceState::CreateWorkflowInstance) {
            Ok(state) => state,
            Err(error) => {
                return Err(error);
            },
        };
        let bpmn_process_id = match get_text(map.get("bpmnProcessId")) {
            Ok(bpmn_process_id) => bpmn_process_id,
            Err(error) => {
                return Err(error);
            },
        };
        let version = match get_integer(
            map.get("version"),
            -1,
            i32::MIN as i128,
            i32::MAX as i128,
        ) {
            Ok(version) => version,
            Err(error) => {
                return Err(error);
            },
        };
        let workflow_key = match get_integer(
            map.get("workflowKey"),
            -1,
            i64::MIN as i128,
            i64::MAX as i128,
        ) {
            Ok(workflow_key) => workflow_key,
            Err(error) => {
                return Err(error);
            },
        };
        let workflow_instance_key = match get_integer(
            map.get("workflowInstanceKey"),
            -1,
            i64::MIN as i128,
            i64::MAX as i128,
        ) {
            Ok(workflow_instance_key) => workflow_instance_key,
            Err(error) => {
                return Err(error);
            },
        };
        let activity_id = match get_text(map.get("activityId")) {
            Ok(activity_id) => activity_id,
            Err(error) => {
                return Err(error);
            },
        };
        let mut payload_default: Vec<u8> = Vec::new();
        payload_default.push(NIL);
        proof {
            assert(payload_default@ =~= seq![NIL]);
        }
        let payload = match get_blob(map.get("payload"), payload_default.as_slice()) {
            Ok(payload) => payload,
            Err(error) => {
                return Err(error);
            },
        };
        Ok(
            WorkflowInstanceEvent {
                state,
                bpmn_process_id,
                version: version as i32,
                workflow_key: workflow_key as i64,
                workflow_instance_key: workflow_instance_key as i64,
                activity_id,
                payload,
            },
        )
    }
}

/// A workflow instance, under its other name.
pub type WorkInstanceEvent = WorkflowInstanceEvent;

} // verus!
