use unterflow_protocol::frame::decode_request_response;
use unterflow_protocol::frame::request_response;
use unterflow_protocol::io::FromData;
use unterflow_protocol::io::ToData;
use unterflow_protocol::msgpack::message::CloseSubscription;
use unterflow_protocol::msgpack::message::DeploymentEvent;
use unterflow_protocol::msgpack::message::DeploymentState;
use unterflow_protocol::msgpack::message::TaskSubscription;
use unterflow_protocol::msgpack::message::WorkflowInstanceEvent;
use unterflow_protocol::msgpack::message::WorkflowInstanceState;
use unterflow_protocol::msgpack::topic::TopicSubscriberEvent;
use unterflow_protocol::msgpack::topic::TopicSubscriberState;
use unterflow_protocol::sbe::decode_message;
use unterflow_protocol::sbe::encode_message;
use unterflow_protocol::sbe::ControlMessageRequest;
use unterflow_protocol::sbe::ControlMessageResponse;
use unterflow_protocol::sbe::ControlMessageType;
use unterflow_protocol::sbe::EventType;
use unterflow_protocol::sbe::ExecuteCommandRequest;
use unterflow_protocol::sbe::ExecuteCommandResponse;
use unterflow_protocol::EventMetadata;

fn control_request_of(frame: &[u8]) -> (u64, ControlMessageRequest) {
    assert_eq!(0, frame.len() % 8);
    let frame = decode_request_response(frame).unwrap();
    assert_eq!(0, frame.data_frame_header.version);
    assert_eq!(0, frame.data_frame_header.flags);
    assert_eq!(0, frame.data_frame_header.stream_id);
    let mut message = frame.message;
    let request = decode_message::<ControlMessageRequest>(&mut message).unwrap();
    assert!(message.is_empty());
    (frame.request_response_header.request_id, request)
}

fn control_response_with<D: ToData>(request_id: u64, data: &D) -> Vec<u8> {
    let response = ControlMessageResponse {
        data: data.to_data().unwrap(),
    };
    let mut message = vec![];
    encode_message(&response, &mut message).unwrap();
    request_response(0, 0, 0, request_id, &message).unwrap()
}

fn subscription() -> TaskSubscription {
    TaskSubscription::new("default-topic", 0, "foo", "test", 300_000, 0, 32)
}

#[test]
fn open_task_subscription_request() {
    let request =
        unterflow_protocol::open_task_subscription_request(258, 0, &subscription()).unwrap();
    let (request_id, request) = control_request_of(&request);
    assert_eq!(258, request_id);
    assert_eq!(ControlMessageType::AddTaskSubscription, request.message_type);
    assert_eq!(0, request.partition_id);
    assert_eq!(subscription(), TaskSubscription::from_data(&request).unwrap());
}

#[test]
fn open_task_subscription_response() {
    let mut opened = subscription();
    opened.set_subscriber_key(4_294_967_297);
    let response = control_response_with(258, &opened);
    let read = unterflow_protocol::task_subscription_response(&response).unwrap();
    assert_eq!(opened, read);
    assert_eq!(4_294_967_297, read.subscriber_key());
}

#[test]
fn increase_task_subscription_credits_request() {
    let request =
        unterflow_protocol::increase_task_subscription_credits_request(7, 3, &subscription())
            .unwrap();
    let (request_id, request) = control_request_of(&request);
    assert_eq!(7, request_id);
    assert_eq!(
        ControlMessageType::IncreaseTaskSubscriptionCredits,
        request.message_type
    );
    assert_eq!(3, request.partition_id);
    assert_eq!(32, TaskSubscription::from_data(&request).unwrap().credits);
}

#[test]
fn close_task_subscription_request() {
    let close = CloseSubscription::new("default-topic".to_string(), 0, 4_294_967_297);
    let request = unterflow_protocol::close_task_subscription_request(259, 0, &close).unwrap();
    let (request_id, request) = control_request_of(&request);
    assert_eq!(259, request_id);
    assert_eq!(ControlMessageType::RemoveTaskSubscription, request.message_type);
    assert_eq!(close, CloseSubscription::from_data(&request).unwrap());
}

#[test]
fn close_task_subscription_response() {
    let close = CloseSubscription::new("default-topic".to_string(), 0, 4_294_967_297);
    let response = control_response_with(259, &close);
    assert_eq!(
        close,
        unterflow_protocol::close_subscription_response(&response).unwrap()
    );
}

#[test]
fn open_topic_subscription_request() {
    let subscriber = TopicSubscriberEvent::new(0, "test", TopicSubscriberState::Subscribe, 32, false);
    let request = unterflow_protocol::open_topic_subscription_request(260, 0, &subscriber).unwrap();
    let frame = decode_request_response(&request).unwrap();
    assert_eq!(260, frame.request_response_header.request_id);
    let mut message = frame.message;
    let command = decode_message::<ExecuteCommandRequest>(&mut message).unwrap();
    assert_eq!(EventType::SubscriberEvent, command.event_type);
    assert_eq!(0, command.partition_id);
    assert_eq!(subscriber, TopicSubscriberEvent::from_data(&command).unwrap());
}

#[test]
fn open_topic_subscription_response() {
    let subscribed =
        TopicSubscriberEvent::new(0, "test", TopicSubscriberState::Subscribed, 32, false);
    let response = ExecuteCommandResponse {
        partition_id: 0,
        position: 4_294_968_320,
        key: 4_294_968_320,
        topic_name: "default-topic".to_string(),
        event: subscribed.to_data().unwrap(),
    };
    let mut message = vec![];
    encode_message(&response, &mut message).unwrap();
    let frame = request_response(0, 0, 0, 260, &message).unwrap();

    let read = unterflow_protocol::topic_subscription_response(&frame).unwrap();
    assert_eq!(260, read.request_id);
    assert_eq!(
        EventMetadata {
            partition_id: 0,
            position: 4_294_968_320,
            key: 4_294_968_320,
        },
        read.metadata
    );
    assert_eq!(subscribed, read.event);
}

#[test]
fn close_topic_subscription_request() {
    let close = CloseSubscription::new("default-topic".to_string(), 0, 4_294_968_320);
    let request = unterflow_protocol::close_topic_subscription_request(261, 0, &close).unwrap();
    let (request_id, request) = control_request_of(&request);
    assert_eq!(261, request_id);
    assert_eq!(
        ControlMessageType::RemoveTopicSubscription,
        request.message_type
    );
    assert_eq!(close, CloseSubscription::from_data(&request).unwrap());
}

#[test]
fn close_topic_subscription_response() {
    let close = CloseSubscription::new("default-topic".to_string(), 0, 4_294_968_320);
    let response = control_response_with(261, &close);
    assert_eq!(
        close,
        unterflow_protocol::close_subscription_response(&response).unwrap()
    );
}

#[test]
fn create_deployment_request() {
    let event = DeploymentEvent {
        state: DeploymentState::CreateDeployment,
        deployed_workflows: vec![],
        bpmn_xml: b"<definitions/>".to_vec(),
    };
    let request =
        unterflow_protocol::command_request(262, 0, EventType::DeploymentEvent, &event).unwrap();
    let frame = decode_request_response(&request).unwrap();
    let mut message = frame.message;
    let command = decode_message::<ExecuteCommandRequest>(&mut message).unwrap();
    assert_eq!(EventType::DeploymentEvent, command.event_type);
    assert_eq!(event, DeploymentEvent::from_data(&command).unwrap());
}

#[test]
fn create_workflow_instance_response() {
    let event = WorkflowInstanceEvent {
        state: WorkflowInstanceState::WorkflowInstanceCreated,
        bpmn_process_id: "process".to_string(),
        version: 1,
        workflow_key: 4_294_967_400,
        workflow_instance_key: 4_294_967_500,
        activity_id: String::new(),
        payload: vec![0x81, 0xa3, b'f', b'o', b'o', 0xa3, b'b', b'a', b'r'],
    };
    let response = ExecuteCommandResponse {
        partition_id: 0,
        position: 4_294_967_500,
        key: 4_294_967_500,
        topic_name: "default-topic".to_string(),
        event: event.to_data().unwrap(),
    };
    let mut message = vec![];
    encode_message(&response, &mut message).unwrap();
    let frame = request_response(0, 0, 0, 263, &message).unwrap();
    let read =
        unterflow_protocol::command_response::<WorkflowInstanceEvent>(&frame).unwrap();
    assert_eq!(263, read.request_id);
    assert_eq!(event, read.event);
}

#[test]
fn create_deployment_response() {
    let event = DeploymentEvent {
        state: DeploymentState::DeploymentCreated,
        deployed_workflows: vec![unterflow_protocol::msgpack::message::DeployedWorkflow {
            bpmn_process_id: "process".to_string(),
            version: 1,
        }],
        bpmn_xml: b"<definitions/>".to_vec(),
    };
    let response = ExecuteCommandResponse {
        partition_id: 0,
        position: 4_294_967_600,
        key: 4_294_967_600,
        topic_name: "default-topic".to_string(),
        event: event.to_data().unwrap(),
    };
    let mut message = vec![];
    encode_message(&response, &mut message).unwrap();
    let frame = request_response(0, 0, 0, 262, &message).unwrap();
    let read = unterflow_protocol::command_response::<DeploymentEvent>(&frame).unwrap();
    assert_eq!(262, read.request_id);
    assert_eq!(DeploymentState::DeploymentCreated, read.event.state);
    assert_eq!(1, read.event.deployed_workflows.len());
    assert_eq!(event, read.event);
}

#[test]
fn create_workflow_instance_request() {
    let event = WorkflowInstanceEvent {
        state: WorkflowInstanceState::CreateWorkflowInstance,
        bpmn_process_id: "process".to_string(),
        version: -1,
        workflow_key: -1,
        workflow_instance_key: -1,
        activity_id: String::new(),
        payload: vec![0x81, 0xa3, b'f', b'o', b'o', 0xa3, b'b', b'a', b'r'],
    };
    let request =
        unterflow_protocol::command_request(263, 0, EventType::WorkflowInstanceEvent, &event)
            .unwrap();
    let frame = decode_request_response(&request).unwrap();
    assert_eq!(263, frame.request_response_header.request_id);
    let mut message = frame.message;
    let command = decode_message::<ExecuteCommandRequest>(&mut message).unwrap();
    assert_eq!(EventType::WorkflowInstanceEvent, command.event_type);
    assert_eq!(event, WorkflowInstanceEvent::from_data(&command).unwrap());
}

#[test]
fn create_task_response() {
    let mut expected = unterflow_protocol::msgpack::task::TaskEvent::new(
        unterflow_protocol::msgpack::task::TaskState::Created,
        "foo",
        3,
    );
    expected.set_payload(vec![129, 167, 112, 97, 121, 108, 111, 97, 100, 123]);
    expected.add_custom_header("k1", "a");
    expected.add_custom_header("k2", "b");
    let response = ExecuteCommandResponse {
        partition_id: 0,
        position: 4_294_967_400,
        key: 4_294_967_400,
        topic_name: "default-topic".to_string(),
        event: expected.to_data().unwrap(),
    };
    let mut message = vec![];
    encode_message(&response, &mut message).unwrap();
    let buffer = request_response(0, 0, 1, 257, &message).unwrap();

    let frame = decode_request_response(&buffer).unwrap();
    assert_eq!(1, frame.data_frame_header.stream_id);
    assert_eq!(257, frame.request_response_header.request_id);
    assert_eq!(buffer.len() as u64, frame.data_frame_header.aligned_length());

    let task = unterflow_protocol::create_task_response(&buffer).unwrap();
    assert_eq!(expected, task.event);
    assert_eq!(4_294_967_400, task.metadata.key);
}

#[test]
fn topology_response_manual() {
    let topology = unterflow_protocol::msgpack::topology::TopologyResponse {
        topic_leaders: vec![unterflow_protocol::msgpack::topology::TopicLeader::new(
            "0.0.0.0".into(),
            51_015,
            "default-topic".into(),
            0,
        )],
        brokers: vec![unterflow_protocol::msgpack::topology::SocketAddress::new(
            "0.0.0.0".into(),
            51_015,
        )],
    };
    let buffer = control_response_with(256, &topology);
    let dump_length = buffer.len();

    let frame = decode_request_response(&buffer).unwrap();
    assert_eq!(dump_length as u64, frame.data_frame_header.aligned_length());
    assert_eq!(256, frame.request_response_header.request_id);
    let mut reader = frame.message;
    let response = decode_message::<ControlMessageResponse>(&mut reader).unwrap();
    assert_eq!(0, reader.len());
    let read = unterflow_protocol::msgpack::topology::TopologyResponse::from_data(&response)
        .unwrap();
    assert_eq!(topology.topic_leaders, read.topic_leaders);
    assert_eq!(topology.brokers, read.brokers);
    assert_eq!(
        dump_length,
        12 + frame.data_frame_header.length() + frame.data_frame_header.padding() as usize
    );
}
