use std::collections::BTreeMap;
use unterflow_protocol::error::Error;
use unterflow_protocol::io::Data;
use unterflow_protocol::io::FromData;
use unterflow_protocol::io::ToData;
use unterflow_protocol::msgpack::deserialize;
use unterflow_protocol::msgpack::message::CloseSubscription;
use unterflow_protocol::msgpack::message::DeployedWorkflow;
use unterflow_protocol::msgpack::message::DeploymentEvent;
use unterflow_protocol::msgpack::message::DeploymentState;
use unterflow_protocol::msgpack::message::TaskSubscription;
use unterflow_protocol::msgpack::message::TopologyRequest;
use unterflow_protocol::msgpack::message::WorkflowInstanceEvent;
use unterflow_protocol::msgpack::message::WorkflowInstanceState;
use unterflow_protocol::msgpack::read_array;
use unterflow_protocol::msgpack::read_str;
use unterflow_protocol::msgpack::serialize;
use unterflow_protocol::msgpack::task::TaskEvent;
use unterflow_protocol::msgpack::task::TaskHeaders;
use unterflow_protocol::msgpack::task::TaskState;
use unterflow_protocol::msgpack::topic::TopicEvent;
use unterflow_protocol::msgpack::topic::TopicState;
use unterflow_protocol::msgpack::topic::TopicSubscriberEvent;
use unterflow_protocol::msgpack::topic::TopicSubscriberState;
use unterflow_protocol::msgpack::topology::Broker;
use unterflow_protocol::msgpack::topology::SocketAddress;
use unterflow_protocol::msgpack::topology::TopicLeader;
use unterflow_protocol::msgpack::topology::TopologyResponse;
use unterflow_protocol::msgpack::MapReader;
use unterflow_protocol::msgpack::EMPTY_ARRAY;
use unterflow_protocol::msgpack::EMPTY_MAP;
use unterflow_protocol::msgpack::NIL;

/// A string of fewer than 32 bytes in MessagePack.
fn text(value: &str) -> Vec<u8> {
    assert!(value.len() < 32);
    let mut bytes = vec![0xa0 | value.len() as u8];
    bytes.extend(value.as_bytes());
    bytes
}

fn concat(parts: &[Vec<u8>]) -> Vec<u8> {
    parts.iter().flat_map(|part| part.iter().copied()).collect()
}

#[test]
fn constants() {
    assert_eq!(0x80, EMPTY_MAP);
    assert_eq!(0x90, EMPTY_ARRAY);
    assert_eq!(0xc0, NIL);
    assert_eq!(vec![EMPTY_MAP], rmp_serde::to_vec(&BTreeMap::<String, String>::new()).unwrap());
    assert_eq!(vec![EMPTY_ARRAY], rmp_serde::to_vec(&Vec::<u8>::new()).unwrap());
    assert_eq!(vec![NIL], rmp_serde::to_vec(&Option::<u8>::None).unwrap());
}

#[test]
fn topology_request_is_the_empty_map() {
    assert_eq!(vec![0x80], serialize(&TopologyRequest {}).unwrap());
    assert_eq!(Data::from(vec![0x80]), TopologyRequest {}.to_data().unwrap());
    assert_eq!(TopologyRequest {}, deserialize::<TopologyRequest>(&[0x80]).unwrap());
    assert!(deserialize::<TopologyRequest>(&[0x90]).is_err());
}

#[test]
fn topic_event_payload() {
    let event = TopicEvent {
        state: TopicState::Create,
        name: "foo".to_string(),
        partitions: 300,
    };
    let expected = concat(&[
        vec![0x83],
        text("state"),
        text("CREATE"),
        text("name"),
        text("foo"),
        text("partitions"),
        vec![0xcd, 0x01, 0x2c],
    ]);
    let payload = serialize(&event).unwrap();
    assert_eq!(expected, payload);
    assert_eq!(event, deserialize::<TopicEvent>(&payload).unwrap());
}

#[test]
fn task_event_payload() {
    let mut event = TaskEvent::new(TaskState::Create, "foo", 3);
    event.add_custom_header("k1", "a");
    event.add_custom_header("k2", "b");
    event.set_payload(vec![129, 167, 112, 97, 121, 108, 111, 97, 100, 123]);

    let expected = concat(&[
        vec![0x88],
        text("state"),
        text("CREATE"),
        text("lockTime"),
        vec![0xd3, 0x80, 0, 0, 0, 0, 0, 0, 0],
        text("lockOwner"),
        text(""),
        text("retries"),
        vec![3],
        text("type"),
        text("foo"),
        text("headers"),
        vec![0x86],
        text("workflowInstanceKey"),
        vec![0xff],
        text("bpmnProcessId"),
        text(""),
        text("workflowDefinitionVersion"),
        vec![0xff],
        text("workflowKey"),
        vec![0xff],
        text("activityId"),
        text(""),
        text("activityInstanceKey"),
        vec![0xff],
        text("customHeaders"),
        vec![0x82],
        text("k1"),
        text("a"),
        text("k2"),
        text("b"),
        text("payload"),
        vec![0xc4, 10, 129, 167, 112, 97, 121, 108, 111, 97, 100, 123],
    ]);
    let payload = serialize(&event).unwrap();
    assert_eq!(expected, payload);
    assert_eq!(event, deserialize::<TaskEvent>(&payload).unwrap());
}

#[test]
fn task_event_defaults_apply_to_missing_fields() {
    let event = deserialize::<TaskEvent>(&[0x80]).unwrap();
    assert_eq!(TaskEvent::default(), event);
    assert_eq!(TaskState::Create, event.state);
    assert_eq!(i64::MIN, event.lock_time);
    assert_eq!("", event.lock_owner);
    assert_eq!(-1, event.retries);
    assert_eq!("", event.task_type);
    assert_eq!(TaskHeaders::default(), event.headers);
    assert_eq!(-1, event.headers.workflow_instance_key);
    assert_eq!(-1, event.headers.workflow_definition_version);
    assert_eq!(-1, event.headers.workflow_key);
    assert_eq!(-1, event.headers.activity_instance_key);
    assert!(event.custom_headers.is_empty());
    assert_eq!(&vec![0xc0], event.payload());

    let payload = concat(&[
        vec![0x82],
        text("state"),
        text("LOCKED"),
        text("lockTime"),
        vec![0xcf, 0, 0, 1, 93, 218, 182, 9, 0],
    ]);
    let event = deserialize::<TaskEvent>(&payload).unwrap();
    assert_eq!(TaskState::Locked, event.state);
    assert_eq!(1_502_612_949_248, event.lock_time);
    assert_eq!(-1, event.retries);
}

#[test]
fn unknown_fields_are_passed_over() {
    let payload = concat(&[
        vec![0x84],
        text("later"),
        vec![0x92, 0x01, 0x81],
        text("k"),
        vec![0xcb, 0x40, 0x09, 0x21, 0xfb, 0x54, 0x44, 0x2d, 0x18],
        text("name"),
        text("t"),
        text("nothing"),
        vec![0xc0],
        text("partitions"),
        vec![7],
    ]);
    assert_eq!(
        TopicEvent {
            state: TopicState::Create,
            name: "t".to_string(),
            partitions: 7,
        },
        deserialize::<TopicEvent>(&payload).unwrap()
    );
}

#[test]
fn the_first_of_two_fields_of_one_name_counts() {
    let payload = concat(&[
        vec![0x82],
        text("name"),
        text("first"),
        text("name"),
        text("second"),
    ]);
    assert_eq!("first", deserialize::<TopicEvent>(&payload).unwrap().name);
}

#[test]
fn unknown_state_is_reported_with_its_name() {
    let payload = concat(&[vec![0x81], text("state"), text("CREATING")]);
    assert_eq!(
        Error::UnknownState("CREATING".to_string()),
        deserialize::<TopicEvent>(&payload).unwrap_err()
    );
    // a state of another event kind is unknown too
    let payload = concat(&[vec![0x81], text("state"), text("LOCKED")]);
    assert_eq!(
        Error::UnknownState("LOCKED".to_string()),
        deserialize::<TopicEvent>(&payload).unwrap_err()
    );
    assert_eq!(
        TaskState::Locked,
        deserialize::<TaskEvent>(&payload).unwrap().state
    );
    assert_eq!(
        Error::UnknownState("LOCKED".to_string()),
        deserialize::<TopicSubscriberEvent>(&payload).unwrap_err()
    );
    assert_eq!(
        Error::UnknownState("LOCKED".to_string()),
        deserialize::<DeploymentEvent>(&payload).unwrap_err()
    );
    assert_eq!(
        Error::UnknownState("LOCKED".to_string()),
        deserialize::<WorkflowInstanceEvent>(&payload).unwrap_err()
    );
}

#[test]
fn malformed_payloads_are_decode_errors() {
    let not_a_map: Vec<Vec<u8>> = vec![
        vec![],
        vec![0xc0],
        vec![0x90],
        // a map of one entry without the entry
        vec![0x81],
        // a key that is no string
        vec![0x81, 0x01, 0x01],
        // a value that is cut short
        concat(&[vec![0x81], text("name"), vec![0xa3, b'a']]),
    ];
    for payload in not_a_map {
        assert!(matches!(
            deserialize::<TopicEvent>(&payload).unwrap_err(),
            Error::DecodeError(_)
        ));
    }
    let wrong_kind: Vec<Vec<u8>> = vec![
        concat(&[vec![0x81], text("name"), vec![0x01]]),
        concat(&[vec![0x81], text("state"), vec![0xc0]]),
        concat(&[vec![0x81], text("partitions"), text("7")]),
        // below and above the range of a u32
        concat(&[vec![0x81], text("partitions"), vec![0xff]]),
        concat(&[vec![0x81], text("partitions"), vec![0xcf, 0, 0, 0, 1, 0, 0, 0, 0]]),
    ];
    for payload in wrong_kind {
        assert!(matches!(
            deserialize::<TopicEvent>(&payload).unwrap_err(),
            Error::DecodeError(_)
        ));
    }
    let ok = concat(&[vec![0x81], text("partitions"), vec![0xce, 255, 255, 255, 255]]);
    assert_eq!(u32::MAX, deserialize::<TopicEvent>(&ok).unwrap().partitions);
}

#[test]
fn integers_are_read_in_every_form() {
    let forms: Vec<(Vec<u8>, i64)> = vec![
        (vec![0x7f], 127),
        (vec![0xe0], -32),
        (vec![0xcc, 200], 200),
        (vec![0xcd, 1, 0], 256),
        (vec![0xce, 0, 1, 0, 0], 65536),
        (vec![0xcf, 0, 0, 0, 1, 0, 0, 0, 0], 4_294_967_296),
        (vec![0xd0, 0x80], -128),
        (vec![0xd1, 0xff, 0x00], -256),
        (vec![0xd2, 0xff, 0xff, 0, 0], -65536),
        (vec![0xd3, 0xff, 0xff, 0xff, 0xfe, 0, 0, 0, 0], -8_589_934_592),
    ];
    for (bytes, value) in forms {
        let payload = concat(&[vec![0x81], text("workflowKey"), bytes]);
        assert_eq!(value, deserialize::<TaskHeaders>(&payload).unwrap().workflow_key);
    }
    // what rmp_serde writes for a map of integers is read alike
    let mut map = BTreeMap::new();
    map.insert("workflowKey", 5i64);
    map.insert("activityInstanceKey", 70_000i64);
    map.insert("workflowInstanceKey", -70_000i64);
    let payload = rmp_serde::to_vec(&map).unwrap();
    let headers = deserialize::<TaskHeaders>(&payload).unwrap();
    assert_eq!(5, headers.workflow_key);
    assert_eq!(70_000, headers.activity_instance_key);
    assert_eq!(-70_000, headers.workflow_instance_key);
    assert_eq!(-1, headers.workflow_definition_version);
}

#[test]
fn integers_are_written_in_the_shortest_form() {
    let mut headers = TaskHeaders::default();
    headers.workflow_instance_key = 1;
    headers.workflow_definition_version = 300;
    headers.workflow_key = -33;
    headers.activity_instance_key = i64::MAX;
    let expected = concat(&[
        vec![0x86],
        text("workflowInstanceKey"),
        rmp_serde::to_vec(&1i64).unwrap(),
        text("bpmnProcessId"),
        rmp_serde::to_vec("").unwrap(),
        text("workflowDefinitionVersion"),
        rmp_serde::to_vec(&300i64).unwrap(),
        text("workflowKey"),
        rmp_serde::to_vec(&-33i64).unwrap(),
        text("activityId"),
        rmp_serde::to_vec("").unwrap(),
        text("activityInstanceKey"),
        rmp_serde::to_vec(&i64::MAX).unwrap(),
    ]);
    let payload = serialize(&headers).unwrap();
    assert_eq!(expected, payload);
    assert_eq!(
        &[0x01u8][..],
        &payload[1 + 20..1 + 21]
    );
    assert_eq!(headers, deserialize::<TaskHeaders>(&payload).unwrap());
}

#[test]
fn custom_headers_keep_their_order_and_replace_in_place() {
    let mut event = TaskEvent::default();
    event.add_custom_header("b", "1");
    event.add_custom_header("a", "2");
    event.add_custom_header("b", "3");
    assert_eq!(
        vec![
            ("b".to_string(), "3".to_string()),
            ("a".to_string(), "2".to_string())
        ],
        event.custom_headers
    );
    let payload = serialize(&event).unwrap();
    assert_eq!(event, deserialize::<TaskEvent>(&payload).unwrap());

    // a string map of rmp_serde is read as custom headers
    let mut map = BTreeMap::new();
    map.insert("k1", "a");
    map.insert("k2", "b");
    let payload = concat(&[
        vec![0x81],
        text("customHeaders"),
        rmp_serde::to_vec(&map).unwrap(),
    ]);
    assert_eq!(
        vec![
            ("k1".to_string(), "a".to_string()),
            ("k2".to_string(), "b".to_string())
        ],
        deserialize::<TaskEvent>(&payload).unwrap().custom_headers
    );
    // custom headers must be strings
    let payload = concat(&[
        vec![0x81],
        text("customHeaders"),
        vec![0x81],
        text("k1"),
        vec![1],
    ]);
    assert!(matches!(
        deserialize::<TaskEvent>(&payload).unwrap_err(),
        Error::DecodeError(_)
    ));
}

#[test]
fn topic_subscriber_event_payload() {
    let event = TopicSubscriberEvent::new(-1, "sub", TopicSubscriberState::Subscribed, 32, true);
    let expected = concat(&[
        vec![0x85],
        text("state"),
        text("SUBSCRIBED"),
        text("name"),
        text("sub"),
        text("prefetchCapacity"),
        vec![32],
        text("startPosition"),
        vec![0xff],
        text("forceStart"),
        vec![0xc3],
    ]);
    let payload = serialize(&event).unwrap();
    assert_eq!(expected, payload);
    assert_eq!(event, deserialize::<TopicSubscriberEvent>(&payload).unwrap());

    let default = deserialize::<TopicSubscriberEvent>(&[0x80]).unwrap();
    assert_eq!(TopicSubscriberState::Subscribe, default.state);
    assert_eq!(-1, default.start_position);
    assert_eq!(0, default.prefetch_capacity);
    assert!(!default.force_start);

    let wrong = concat(&[vec![0x81], text("forceStart"), vec![1]]);
    assert!(deserialize::<TopicSubscriberEvent>(&wrong).is_err());
    let no = concat(&[vec![0x81], text("forceStart"), vec![0xc2]]);
    assert!(!deserialize::<TopicSubscriberEvent>(&no).unwrap().force_start);
}

#[test]
fn task_subscription_payload() {
    let mut subscription =
        TaskSubscription::new("default-topic", 0, "foo", "test", 300_000, 0, 32);
    assert_eq!(0, subscription.subscriber_key());
    subscription.set_subscriber_key(4_294_967_297);
    assert_eq!(4_294_967_297, subscription.subscriber_key());

    let expected = concat(&[
        vec![0x87],
        text("topicName"),
        text("default-topic"),
        text("partitionId"),
        vec![0],
        text("subscriberKey"),
        vec![0xcf, 0, 0, 0, 1, 0, 0, 0, 1],
        text("taskType"),
        text("foo"),
        text("lockDuration"),
        vec![0xce, 0, 0x04, 0x93, 0xe0],
        text("lockOwner"),
        text("test"),
        text("credits"),
        vec![32],
    ]);
    let payload = serialize(&subscription).unwrap();
    assert_eq!(expected, payload);
    assert_eq!(subscription, deserialize::<TaskSubscription>(&payload).unwrap());

    let for_topic = TaskSubscription::for_topic("default-topic".to_string(), 2);
    assert_eq!("default-topic", for_topic.topic_name);
    assert_eq!(2, for_topic.partition_id);
    assert_eq!("", for_topic.task_type);
    assert_eq!(0, for_topic.credits);
}

#[test]
fn close_subscription_payload() {
    let request = CloseSubscription::new("default-topic".to_string(), 1, 9);
    let expected = concat(&[
        vec![0x83],
        text("topicName"),
        text("default-topic"),
        text("partitionId"),
        vec![1],
        text("subscriberKey"),
        vec![9],
    ]);
    let payload = serialize(&request).unwrap();
    assert_eq!(expected, payload);
    assert_eq!(request, deserialize::<CloseSubscription>(&payload).unwrap());
}

#[test]
fn topology_response_payload() {
    let topology = TopologyResponse {
        topic_leaders: vec![TopicLeader::new(
            "0.0.0.0".to_string(),
            51_015,
            "internal-system".to_string(),
            0,
        )],
        brokers: vec![
            Broker::new("0.0.0.0".to_string(), 51_015),
            SocketAddress::new("10.0.0.1".to_string(), 51_016),
        ],
    };
    let expected = concat(&[
        vec![0x82],
        text("topicLeaders"),
        vec![0x91, 0x84],
        text("host"),
        text("0.0.0.0"),
        text("port"),
        vec![0xcd, 0xc7, 0x47],
        text("topicName"),
        text("internal-system"),
        text("partitionId"),
        vec![0],
        text("brokers"),
        vec![0x92, 0x82],
        text("host"),
        text("0.0.0.0"),
        text("port"),
        vec![0xcd, 0xc7, 0x47],
        vec![0x82],
        text("host"),
        text("10.0.0.1"),
        text("port"),
        vec![0xcd, 0xc7, 0x48],
    ]);
    let payload = serialize(&topology).unwrap();
    assert_eq!(expected, payload);
    let read = deserialize::<TopologyResponse>(&payload).unwrap();
    assert_eq!(topology, read);
    assert_eq!(1, read.topic_leaders().len());
    assert_eq!(2, read.brokers().len());
    assert_eq!("internal-system", read.topic_leaders()[0].topic_name);

    let empty = deserialize::<TopologyResponse>(&[0x80]).unwrap();
    assert!(empty.topic_leaders().is_empty());
    assert!(empty.brokers().is_empty());

    let no_list = concat(&[vec![0x81], text("brokers"), vec![0x80]]);
    assert!(deserialize::<TopologyResponse>(&no_list).is_err());
    let no_object = concat(&[vec![0x81], text("brokers"), vec![0x91, 0x01]]);
    assert!(deserialize::<TopologyResponse>(&no_object).is_err());
}

#[test]
fn deployment_event_payload() {
    let event = DeploymentEvent {
        state: DeploymentState::DeploymentCreated,
        deployed_workflows: vec![DeployedWorkflow {
            bpmn_process_id: "process".to_string(),
            version: 2,
        }],
        bpmn_xml: b"<xml/>".to_vec(),
    };
    let expected = concat(&[
        vec![0x83],
        text("state"),
        text("DEPLOYMENT_CREATED"),
        text("deployedWorkflows"),
        vec![0x91, 0x82],
        text("bpmnProcessId"),
        text("process"),
        text("version"),
        vec![2],
        text("bpmnXml"),
        vec![0xc4, 6],
        b"<xml/>".to_vec(),
    ]);
    let payload = serialize(&event).unwrap();
    assert_eq!(expected, payload);
    assert_eq!(event, deserialize::<DeploymentEvent>(&payload).unwrap());

    let default = deserialize::<DeploymentEvent>(&[0x80]).unwrap();
    assert_eq!(DeploymentState::CreateDeployment, default.state);
    assert!(default.deployed_workflows.is_empty());
    assert!(default.bpmn_xml.is_empty());
}

#[test]
fn workflow_instance_event_payload() {
    let event = WorkflowInstanceEvent {
        state: WorkflowInstanceState::WorkflowInstanceCreated,
        bpmn_process_id: "process".to_string(),
        version: 1,
        workflow_key: 4_294_967_400,
        workflow_instance_key: 4_294_967_500,
        activity_id: String::new(),
        payload: vec![0x81, 0xa1, b'a', 1],
    };
    let payload = serialize(&event).unwrap();
    assert_eq!(0x87, payload[0]);
    assert_eq!(event, deserialize::<WorkflowInstanceEvent>(&payload).unwrap());

    let default = deserialize::<WorkflowInstanceEvent>(&[0x80]).unwrap();
    assert_eq!(WorkflowInstanceState::CreateWorkflowInstance, default.state);
    assert_eq!(vec![0xc0], default.payload);
    assert_eq!(-1, default.version);
}

#[test]
fn blob_must_be_whole() {
    let short = concat(&[vec![0x81], text("payload"), vec![0xc4, 3, 1, 2]]);
    assert!(matches!(
        deserialize::<TaskEvent>(&short).unwrap_err(),
        Error::DecodeError(_)
    ));
    let not_a_blob = concat(&[vec![0x81], text("payload"), text("abc")]);
    assert!(deserialize::<TaskEvent>(&not_a_blob).is_err());
    let long = vec![7u8; 300];
    let mut event = TaskEvent::default();
    event.set_payload(long.clone());
    let payload = serialize(&event).unwrap();
    assert_eq!(&long, deserialize::<TaskEvent>(&payload).unwrap().payload());
}

#[test]
fn state_vocabulary() {
    let task = [
        "CREATE",
        "CREATED",
        "LOCK",
        "LOCKED",
        "LOCK_REJECTED",
        "COMPLETE",
        "COMPLETED",
        "COMPLETE_REJECTED",
        "EXPIRE_LOCK",
        "LOCK_EXPIRED",
        "LOCK_EXPIRATION_REJECTED",
        "FAIL",
        "FAILED",
        "FAIL_REJECTED",
        "UPDATE_RETRIES",
        "RETRIES_UPDATED",
        "UPDATE_RETRIES_REJECTED",
        "CANCEL",
        "CANCELED",
        "CANCEL_REJECTED",
    ];
    for name in task {
        assert_eq!(name, TaskState::from_name(name).unwrap().as_str());
    }
    assert_eq!(TaskState::LockExpirationRejected, TaskState::from_name("LOCK_EXPIRATION_REJECTED").unwrap());
    assert_eq!(
        Error::UnknownState("create".to_string()),
        TaskState::from_name("create").unwrap_err()
    );
    for name in ["CREATE", "CREATED", "CREATE_REJECTED"] {
        assert_eq!(name, TopicState::from_name(name).unwrap().as_str());
    }
    assert!(TopicState::from_name("LOCK").is_err());
    for name in ["SUBSCRIBE", "SUBSCRIBED"] {
        assert_eq!(name, TopicSubscriberState::from_name(name).unwrap().as_str());
    }
    for name in ["CREATE_DEPLOYMENT", "DEPLOYMENT_CREATED", "DEPLOYMENT_REJECTED"] {
        assert_eq!(name, DeploymentState::from_name(name).unwrap().as_str());
    }
    let workflow_instance = [
        "CREATE_WORKFLOW_INSTANCE",
        "WORKFLOW_INSTANCE_CREATED",
        "WORKFLOW_INSTANCE_REJECTED",
        "START_EVENT_OCCURRED",
        "END_EVENT_OCCURRED",
        "SEQUENCE_FLOW_TAKEN",
        "ACTIVITY_READY",
        "ACTIVITY_ACTIVATED",
        "ACTIVITY_COMPLETING",
        "ACTIVITY_COMPLETED",
        "ACTIVITY_TERMINATED",
        "WORKFLOW_INSTANCE_COMPLETED",
        "CANCEL_WORKFLOW_INSTANCE",
        "WORKFLOW_INSTANCE_CANCELED",
        "CANCEL_WORKFLOW_INSTANCE_REJECTED",
        "UPDATE_PAYLOAD",
        "PAYLOAD_UPDATED",
        "UPDATE_PAYLOAD_REJECTED",
    ];
    for name in workflow_instance {
        assert_eq!(name, WorkflowInstanceState::from_name(name).unwrap().as_str());
    }
    assert_eq!(TaskState::Create, TaskState::default());
    assert_eq!(TopicState::Create, TopicState::default());
}

#[test]
fn map_reader_splits_a_map_into_fields() {
    let payload = concat(&[
        vec![0x82],
        text("a"),
        vec![0x92, 1, 2],
        text("b"),
        text("c"),
        vec![0xee],
    ]);
    let map = MapReader::read(&payload).unwrap();
    assert_eq!(2, map.len());
    assert_eq!(Some(&[0x92u8, 1, 2][..]), map.get("a"));
    assert_eq!(Some(&[0xa1u8, b'c'][..]), map.get("b"));
    assert_eq!(None, map.get("c"));
    let (key, value) = map.at(1);
    assert_eq!("b", key);
    assert_eq!(&[0xa1u8, b'c'][..], value);

    assert_eq!(
        Some(vec![&[1u8][..], &[2u8][..]]),
        read_array(map.get("a").unwrap())
    );
    assert_eq!(None, read_array(map.get("b").unwrap()));
    assert_eq!(Some(("c".to_string(), 2)), read_str(map.get("b").unwrap()));
    assert_eq!(None, read_str(&[0xa2, b'x']));
    assert_eq!(None, read_str(&[0xa2, 0xc3, 0x28]));
    let long = "x".repeat(40);
    let mut bytes = rmp_serde::to_vec(&long).unwrap();
    assert_eq!(0xd9, bytes[0]);
    bytes.push(1);
    assert_eq!(Some((long, 42)), read_str(&bytes));
}

#[test]
fn from_data_reads_the_payload_of_a_message() {
    let data = Data::from(concat(&[vec![0x81], text("name"), text("t")]));
    assert_eq!("t", TopicEvent::from_data(&data).unwrap().name);
    assert_eq!(
        Data::from(concat(&[
            vec![0x83],
            text("state"),
            text("CREATED"),
            text("name"),
            text(""),
            text("partitions"),
            vec![0],
        ])),
        TopicEvent {
            state: TopicState::Created,
            name: String::new(),
            partitions: 0,
        }
        .to_data()
        .unwrap()
    );
}
