//! The topology of a cluster.

use crate::error::Error;
use crate::error::Failure;
use crate::io::FromData;
use crate::io::ToData;
use crate::msgpack::bytes_of;
use crate::msgpack::field;
use crate::msgpack::get_integer;
use crate::msgpack::get_list;
use crate::msgpack::get_text;
use crate::msgpack::integer_or;
use crate::msgpack::list_encodable;
use crate::msgpack::list_or_empty;
use crate::msgpack::list_payload;
use crate::msgpack::malformed;
use crate::msgpack::parse_map;
use crate::msgpack::rmp_map_len;
use crate::msgpack::rmp_str;
use crate::msgpack::rmp_uint;
use crate::msgpack::text_or_empty;
use crate::msgpack::views;
use crate::msgpack::write_list;
use crate::msgpack::write_map_len;
use crate::msgpack::write_str;
use crate::msgpack::write_uint;
use crate::msgpack::Field;
use crate::msgpack::MapReader;
use vstd::prelude::*;

verus! {

/// The broker that leads a partition of a topic.
#[derive(Debug, PartialEq, Eq, Clone)]
pub struct TopicLeader {
    pub host: String,
    pub port: u32,
    pub topic_name: String,
    pub partition_id: u16,
}

/// What a `TopicLeader` says.
pub struct TopicLeaderView {
    pub host: Seq<char>,
    pub port: u32,
    pub topic_name: Seq<char>,
    pub partition_id: u16,
}

impl View for TopicLeader {
    type V = TopicLeaderView;

    open spec fn view(&self) -> TopicLeaderView {
        TopicLeaderView {
            host: self.host@,
            port: self.port,
            topic_name: self.topic_name@,
            partition_id: self.partition_id,
        }
    }
}

impl TopicLeader {
    /// What the object says when every field has its default.
    pub open spec fn default_view() -> TopicLeaderView {
        TopicLeaderView {
            host: Seq::empty(),
            port: 0u32,
            topic_name: Seq::empty(),
            partition_id: 0u16,
        }
    }

    /// What the fields of a map say. A field that is missing has its
    /// default, and fields of other names are not looked at.
    pub open spec fn of_fields(fields: Seq<Field>) -> Result<TopicLeaderView, Failure> {
        let host = text_or_empty(field(fields, "host"@));
        let port = integer_or(
            field(fields, "port"@),
            0,
            u32::MIN as int,
            u32::MAX as int,
        );
        let topic_name = text_or_empty(field(fields, "topicName"@));
        let partition_id = integer_or(
            field(fields, "partitionId"@),
            0,
            u16::MIN as int,
            u16::MAX as int,
        );
        if host is Err {
            Err(host->Err_0)
        } else if port is Err {
            Err(port->Err_0)
        } else if topic_name is Err {
            Err(topic_name->Err_0)
        } else if partition_id is Err {
            Err(partition_id->Err_0)
        } else {
            Ok(
                TopicLeaderView {
                    host: host->Ok_0,
                    port: port->Ok_0 as u32,
                    topic_name: topic_name->Ok_0,
                    partition_id: partition_id->Ok_0 as u16,
                },
            )
        }
    }

    /// The object of an optional field: the default where the field is
    /// missing, a failure where its value is no such object.
    pub open spec fn or_default(value: Option<Seq<u8>>) -> Result<TopicLeaderView, Failure> {
        match value {
            None => Ok(Self::default_view()),
            Some(bytes) => Self::parse_payload(bytes),
        }
    }

    /// Reads the object of an optional field.
    pub fn read(value: Option<&[u8]>) -> (r: Result<TopicLeader, Error>)
        ensures
            match r {
                Ok(object) => Self::or_default(bytes_of(value))
                    == Ok::<TopicLeaderView, Failure>(object@),
                Err(error) => Self::or_default(bytes_of(value)) matches Err(failure)
                    && failure.reported_by(error),
            },
    {
        match value {
            None => Ok(TopicLeader::default()),
            Some(bytes) => TopicLeader::from_payload(bytes),
        }
    }
}

impl Default for TopicLeader {
    fn default() -> (object: TopicLeader)
        ensures
            object@ == TopicLeader::default_view(),
    {
        let object = TopicLeader {
            host: String::new(),
            port: 0u32,
            topic_name: String::new(),
            partition_id: 0u16,
        };
        proof {
        }
        object
    }
}

impl TopicLeader {
    /// The payload that says `view`.
    pub open spec fn payload_of(view: TopicLeaderView) -> Seq<u8> {
        rmp_map_len(4)
            + rmp_str("host"@) + rmp_str(view.host)
            + rmp_str("port"@) + rmp_uint(view.port as u64)
            + rmp_str("topicName"@) + rmp_str(view.topic_name)
            + rmp_str("partitionId"@) + rmp_uint(view.partition_id as u64)
    }
}

impl ToData for TopicLeader {
    open spec fn payload_bytes(&self) -> Seq<u8> {
        TopicLeader::payload_of(self@)
    }

    open spec fn encodable(&self) -> bool {
        true
    }

    fn to_payload(&self, out: &mut Vec<u8>) -> (r: Result<(), Error>) {
        write_map_len(out, 4);
        write_str(out, "host");
        write_str(out, self.host.as_str());
        write_str(out, "port");
        write_uint(out, self.port as u64);
        write_str(out, "topicName");
        write_str(out, self.topic_name.as_str());
        write_str(out, "partitionId");
        write_uint(out, self.partition_id as u64);
        proof {
            assert(out@ =~= old(out)@ + self.payload_bytes());
        }
        Ok(())
    }
}

impl FromData for TopicLeader {
    open spec fn parse_payload(data: Seq<u8>) -> Result<TopicLeaderView, Failure> {
        match parse_map(data) {
            None => Err(Failure::Malformed),
            Some(fields) => Self::of_fields(fields),
        }
    }

    fn from_payload(data: &[u8]) -> (r: Result<TopicLeader, Error>) {
        let map = match MapReader::read(data) {
            Some(map) => map,
            None => {
                return Err(malformed());
            },
        };
        let host = match get_text(map.get("host")) {
            Ok(host) => host,
            Err(error) => {
                return Err(error);
            },
        };
        let port = match get_integer(
            map.get("port"),
            0,
            u32::MIN as i128,
            u32::MAX as i128,
        ) {
            Ok(port) => port,
            Err(error) => {
                return Err(error);
            },
        };
        let topic_name = match get_text(map.get("topicName")) {
            Ok(topic_name) => topic_name,
            Err(error) => {
                return Err(error);
            },
        };
        let partition_id = match get_integer(
            map.get("partitionId"),
            0,
            u16::MIN as i128,
            u16::MAX as i128,
        ) {
            Ok(partition_id) => partition_id,
            Err(error) => {
                return Err(error);
            },
        };
        Ok(
            TopicLeader {
                host,
                port: port as u32,
                topic_name,
                partition_id: partition_id as u16,
            },
        )
    }
}

impl TopicLeader {
    pub fn new(host: String, port: u32, topic_name: String, partition_id: u16) -> (leader:
        TopicLeader)
        ensures
            leader@ == (TopicLeaderView {
                host: host@,
                port,
                topic_name: topic_name@,
                partition_id,
            }),
    {
        TopicLeader { host, port, topic_name, partition_id }
    }
}

/// The address of a broker.
#[derive(Debug, PartialEq, Eq, Clone)]
pub struct Broker {
    pub host: String,
    pub port: u32,
}

/// What a `Broker` says.
pub struct BrokerView {
    pub host: Seq<char>,
    pub port: u32,
}

impl View for Broker {
    type V = BrokerView;

    open spec fn view(&self) -> BrokerView {
        BrokerView {
            host: self.host@,
            port: self.port,
        }
    }
}

impl Broker {
    /// What the object says when every field has its default.
    pub open spec fn default_view() -> BrokerView {
        BrokerView {
            host: Seq::empty(),
            port: 0u32,
        }
    }

    /// What the fields of a map say. A field that is missing has its
    /// default, and fields of other names are not looked at.
    pub open spec fn of_fields(fields: Seq<Field>) -> Result<BrokerView, Failure> {
        let host = text_or_empty(field(fields, "host"@));
        let port = integer_or(
            field(fields, "port"@),
            0,
            u32::MIN as int,
            u32::MAX as int,
        );
        if host is Err {
            Err(host->Err_0)
        } else if port is Err {
            Err(port->Err_0)
        } else {
            Ok(
                BrokerView {
                    host: host->Ok_0,
                    port: port->Ok_0 as u32,
                },
            )
        }
    }

    /// The object of an optional field: the default where the field is
    /// missing, a failure where its value is no such object.
    pub open spec fn or_default(value: Option<Seq<u8>>) -> Result<BrokerView, Failure> {
        match value {
            None => Ok(Self::default_view()),
            Some(bytes) => Self::parse_payload(bytes),
        }
    }

    /// Reads the object of an optional field.
    pub fn read(value: Option<&[u8]>) -> (r: Result<Broker, Error>)
        ensures
            match r {
                Ok(object) => Self::or_default(bytes_of(value))
                    == Ok::<BrokerView, Failure>(object@),
                Err(error) => Self::or_default(bytes_of(value)) matches Err(failure)
                    && failure.reported_by(error),
            },
    {
        match value {
            None => Ok(Broker::default()),
            Some(bytes) => Broker::from_payload(bytes),
        }
    }
}

impl Default for Broker {
    fn default() -> (object: Broker)
        ensures
            object@ == Broker::default_view(),
    {
        let object = Broker {
            host: String::new(),
            port: 0u32,
        };
        proof {
        }
        object
    }
}

impl Broker {
    /// The payload that says `view`.
    pub open spec fn payload_of(view: BrokerView) -> Seq<u8> {
        rmp_map_len(2)
            + rmp_str("host"@) + rmp_str(view.host)
            + rmp_str("port"@) + rmp_uint(view.port as u64)
    }
}

impl ToData for Broker {
    open spec fn payload_bytes(&self) -> Seq<u8> {
        Broker::payload_of(self@)
    }

    open spec fn encodable(&self) -> bool {
        true
    }

    fn to_payload(&self, out: &mut Vec<u8>) -> (r: Result<(), Error>) {
        write_map_len(out, 2);
        write_str(out, "host");
        write_str(out, self.host.as_str());
        write_str(out, "port");
        write_uint(out, self.port as u64);
        proof {
            assert(out@ =~= old(out)@ + self.payload_bytes());
        }
        Ok(())
    }
}

impl FromData for Broker {
    open spec fn parse_payload(data: Seq<u8>) -> Result<BrokerView, Failure> {
        match parse_map(data) {
            None => Err(Failure::Malformed),
            Some(fields) => Self::of_fields(fields),
        }
    }

    fn from_payload(data: &[u8]) -> (r: Result<Broker, Error>) {
        let map = match MapReader::read(data) {
            Some(map) => map,
            None => {
                return Err(malformed());
            },
        };
        let host = match get_text(map.get("host")) {
            Ok(host) => host,
            Err(error) => {
                return Err(error);
            },
        };
        let port = match get_integer(
            map.get("port"),
            0,
            u32::MIN as i128,
            u32::MAX as i128,
        ) {
            Ok(port) => port,
            Err(error) => {
                return Err(error);
            },
        };
        Ok(
            Broker {
                host,
                port: port as u32,
            },
        )
    }
}

/// The address of a broker, under its other name.
pub type SocketAddress = Broker;

impl Broker {
    pub fn new(host: String, port: u32) -> (address: Broker)
        ensures
            address@ == (BrokerView { host: host@, port }),
    {
        Broker { host, port }
    }
}

/// The brokers of a cluster and the partitions that each of them leads.
#[derive(Debug, PartialEq, Eq, Clone)]
pub struct TopologyResponse {
    pub topic_leaders: Vec<TopicLeader>,
    pub brokers: Vec<Broker>,
}

/// What a `TopologyResponse` says.
pub struct TopologyResponseView {
    pub topic_leaders: Seq<TopicLeaderView>,
    pub brokers: Seq<BrokerView>,
}

impl View for TopologyResponse {
    type V = TopologyResponseView;

    open spec fn view(&self) -> TopologyResponseView {
        TopologyResponseView {
            topic_leaders: views(self.topic_leaders@),
            brokers: views(self.brokers@),
        }
    }
}

impl TopologyResponse {
    /// What the object says when every field has its default.
    pub open spec fn default_view() -> TopologyResponseView {
        TopologyResponseView {
            topic_leaders: Seq::empty(),
            brokers: Seq::empty(),
        }
    }

    /// What the fields of a map say. A field that is missing has its
    /// default, and fields of other names are not looked at.
    pub open spec fn of_fields(fields: Seq<Field>) -> Result<TopologyResponseView, Failure> {
        let topic_leaders = list_or_empty::<TopicLeader>(field(fields, "topicLeaders"@));
        let brokers = list_or_empty::<Broker>(field(fields, "brokers"@));
        if topic_leaders is Err {
            Err(topic_leaders->Err_0)
        } else if brokers is Err {
            Err(brokers->Err_0)
        } else {
            Ok(
                TopologyResponseView {
                    topic_leaders: topic_leaders->Ok_0,
                    brokers: brokers->Ok_0,
                },
            )
        }
    }

    /// The object of an optional field: the default where the field is
    /// missing, a failure where its value is no such object.
    pub open spec fn or_default(value: Option<Seq<u8>>) -> Result<TopologyResponseView, Failure> {
        match value {
            None => Ok(Self::default_view()),
            Some(bytes) => Self::parse_payload(bytes),
        }
    }

    /// Reads the object of an optional field.
    pub fn read(value: Option<&[u8]>) -> (r: Result<TopologyResponse, Error>)
        ensures
            match r {
                Ok(object) => Self::or_default(bytes_of(value))
                    == Ok::<TopologyResponseView, Failure>(object@),
                Err(error) => Self::or_default(bytes_of(value)) matches Err(failure)
                    && failure.reported_by(error),
            },
    {
        match value {
            None => Ok(TopologyResponse::default()),
            Some(bytes) => TopologyResponse::from_payload(bytes),
        }
    }
}

impl Default for TopologyResponse {
    fn default() -> (object: TopologyResponse)
        ensures
            object@ == TopologyResponse::default_view(),
    {
        let object = TopologyResponse {
            topic_leaders: Vec::new(),
            brokers: Vec::new(),
        };
        proof {
            assert(views(object.topic_leaders@) =~= Seq::empty());
            assert(views(object.brokers@) =~= Seq::empty());
        }
        object
    }
}

impl ToData for TopologyResponse {
    open spec fn payload_bytes(&self) -> Seq<u8> {
        rmp_map_len(2)
            + rmp_str("topicLeaders"@) + list_payload(self.topic_leaders@)
            + rmp_str("brokers"@) + list_payload(self.brokers@)
    }

    open spec fn encodable(&self) -> bool {
        list_encodable(self.topic_leaders@) && list_encodable(self.brokers@)
    }

    fn to_payload(&self, out: &mut Vec<u8>) -> (r: Result<(), Error>) {
        write_map_len(out, 2);
        write_str(out, "topicLeaders");
        match write_list(out, &self.topic_leaders) {
            Ok(()) => {},
            Err(error) => {
                return Err(error);
            },
        }
        write_str(out, "brokers");
        match write_list(out, &self.brokers) {
            Ok(()) => {},
            Err(error) => {
                return Err(error);
            },
        }
        proof {
            assert(out@ =~= old(out)@ + self.payload_bytes());
        }
        Ok(())
    }
}

impl FromData for TopologyResponse {
    open spec fn parse_payload(data: Seq<u8>) -> Result<TopologyResponseView, Failure> {
        match parse_map(data) {
            None => Err(Failure::Malformed),
            Some(fields) => Self::of_fields(fields),
        }
    }

    fn from_payload(data: &[u8]) -> (r: Result<TopologyResponse, Error>) {
        let map = match MapReader::read(data) {
            Some(map) => map,
            None => {
                return Err(malformed());
            },
        };
        let topic_leaders = match get_list::<TopicLeader>(map.get("topicLeaders")) {
            Ok(topic_leaders) => topic_leaders,
            Err(error) => {
                return Err(error);
            },
        };
        let brokers = match get_list::<Broker>(map.get("brokers")) {
            Ok(brokers) => brokers,
            Err(error) => {
                return Err(error);
            },
        };
        Ok(
            TopologyResponse {
                topic_leaders,
                brokers,
            },
        )
    }
}

impl TopologyResponse {
    pub fn topic_leaders(&self) -> (leaders: &Vec<TopicLeader>)
        ensures
            *leaders == self.topic_leaders,
    {
        &self.topic_leaders
    }

    pub fn brokers(&self) -> (brokers: &Vec<Broker>)
        ensures
            *brokers == self.brokers,
    {
        &self.brokers
    }
}

} // verus!
