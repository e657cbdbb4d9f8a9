//! Topics and their subscribers.

use crate::error::Error;
use crate::error::Failure;
use crate::io::FromData;
use crate::io::ToData;
use crate::msgpack::bytes_of;
use crate::msgpack::field;
use crate::msgpack::get_integer;
use crate::msgpack::get_text;
use crate::msgpack::get_truth;
use crate::msgpack::integer_or;
use crate::msgpack::malformed;
use crate::msgpack::parse_map;
use crate::msgpack::parse_str;
use crate::msgpack::read_str;
use crate::msgpack::rmp_bool;
use crate::msgpack::rmp_map_len;
use crate::msgpack::rmp_sint;
use crate::msgpack::rmp_str;
use crate::msgpack::rmp_uint;
use crate::msgpack::text_or_empty;
use crate::msgpack::truth_or;
use crate::msgpack::write_bool;
use crate::msgpack::write_map_len;
use crate::msgpack::write_sint;
use crate::msgpack::write_str;
use crate::msgpack::write_uint;
use crate::msgpack::Field;
use crate::msgpack::MapReader;
use vstd::prelude::*;

verus! {

/// The states of a topic.
#[derive(Debug, PartialEq, Eq, Clone, Copy, Structural)]
pub enum TopicState {
    Create,
    Created,
    CreateRejected,
}

impl TopicState {
    /// The name of the state on the wire.
    pub open spec fn name(&self) -> Seq<char> {
        match *self {
            TopicState::Create => "CREATE"@,
            TopicState::Created => "CREATED"@,
            TopicState::CreateRejected => "CREATE_REJECTED"@,
        }
    }

    /// The state that `name` names.
    pub open spec fn of_name(name: Seq<char>) -> Option<TopicState> {
        if name == "CREATE"@ {
            Some(TopicState::Create)
        } else if name == "CREATED"@ {
            Some(TopicState::Created)
        } else if name == "CREATE_REJECTED"@ {
            Some(TopicState::CreateRejected)
        } else {
            None
        }
    }

    /// The name of the state on the wire.
    pub fn as_str(&self) -> (name: &'static str)
        ensures
            name@ == self.name(),
    {
        match *self {
            TopicState::Create => "CREATE",
            TopicState::Created => "CREATED",
            TopicState::CreateRejected => "CREATE_REJECTED",
        }
    }

    /// The state that `name` names.
    ///
    /// Fails with `UnknownState`, which holds `name`, when `name` is not in
    /// the vocabulary.
    pub fn from_name(name: &str) -> (r: Result<TopicState, Error>)
        ensures
            match r {
                Ok(state) => Self::of_name(name@) == Some(state),
                Err(error) => Self::of_name(name@) is None && Failure::UnknownState(
                    name@,
                ).reported_by(error),
            },
    {
        let text = String::from_str(name);
        if text == String::from_str("CREATE") {
            Ok(TopicState::Create)
        } else if text == String::from_str("CREATED") {
            Ok(TopicState::Created)
        } else if text == String::from_str("CREATE_REJECTED") {
            Ok(TopicState::CreateRejected)
        } else {
            Err(Error::UnknownState(text))
        }
    }

    /// The state of an optional field: the default where the field is
    /// missing, a failure where its value is no string or no name of a state.
    pub open spec fn or_default(value: Option<Seq<u8>>, default: TopicState)
        -> Result<TopicState, Failure> {
        match value {
            None => Ok(default),
            Some(bytes) => match parse_str(bytes) {
                None => Err(Failure::Malformed),
                Some((name, _)) => match Self::of_name(name) {
                    Some(state) => Ok(state),
                    None => Err(Failure::UnknownState(name)),
                },
            },
        }
    }

    /// Reads the state of an optional field.
    pub fn read(value: Option<&[u8]>, default: TopicState) -> (r: Result<TopicState, Error>)
        ensures
            match r {
                Ok(state) => Self::or_default(bytes_of(value), default)
                    == Ok::<TopicState, Failure>(state),
                Err(error) => Self::or_default(bytes_of(value), default) matches Err(failure)
                    && failure.reported_by(error),
            },
    {
        match value {
            None => Ok(default),
            Some(bytes) => match read_str(bytes) {
                None => Err(malformed()),
                Some((name, _)) => Self::from_name(name.as_str()),
            },
        }
    }

    /// Every state is the state that its name names.
    pub proof fn lemma_name_names_state(self)
        ensures
            Self::of_name(self.name()) == Some(self),
    {
        reveal_strlit("CREATE");
        reveal_strlit("CREATED");
        reveal_strlit("CREATE_REJECTED");
        match self {
            TopicState::Create => {},
            TopicState::Created => {
                assert("CREATE"@.len() != "CREATED"@.len());
            },
            TopicState::CreateRejected => {
                assert("CREATE"@.len() != "CREATE_REJECTED"@.len());
                assert("CREATED"@.len() != "CREATE_REJECTED"@.len());
            },
        }
    }
}

impl Default for TopicState {
    fn default() -> (state: TopicState)
        ensures
            state == TopicState::Create,
    {
        TopicState::Create
    }
}

/// A topic that is created, as the broker records it.
#[derive(Debug, PartialEq, Eq, Clone)]
pub struct TopicEvent {
    pub state: TopicState,
    pub name: String,
    pub partitions: u32,
}

/// What a `TopicEvent` says.
pub struct TopicEventView {
    pub state: TopicState,
    pub name: Seq<char>,
    pub partitions: u32,
}

impl View for TopicEvent {
    type V = TopicEventView;

    open spec fn view(&self) -> TopicEventView {
        TopicEventView {
            state: self.state,
            name: self.name@,
            partitions: self.partitions,
        }
    }
}

impl TopicEvent {
    /// What the object says when every field has its default.
    pub open spec fn default_view() -> TopicEventView {
        TopicEventView {
            state: TopicState::Create,
            name: Seq::empty(),
            partitions: 0u32,
        }
    }

    /// What the fields of a map say. A field that is missing has its
    /// default, and fields of other names are not looked at.
    pub open spec fn of_fields(fields: Seq<Field>) -> Result<TopicEventView, Failure> {
        let state = TopicState::or_default(field(fields, "state"@), TopicState::Create);
        let name = text_or_empty(field(fields, "name"@));
        let partitions = integer_or(
            field(fields, "partitions"@),
            0,
            u32::MIN as int,
            u32::MAX as int,
        );
        if state is Err {
            Err(state->Err_0)
        } else if name is Err {
            Err(name->Err_0)
        } else if partitions is Err {
            Err(partitions->Err_0)
        } else {
            Ok(
                TopicEventView {
                    state: state->Ok_0,
                    name: name->Ok_0,
                    partitions: partitions->Ok_0 as u32,
                },
            )
        }
    }

    /// The object of an optional field: the default where the field is
    /// missing, a failure where its value is no such object.
    pub open spec fn or_default(value: Option<Seq<u8>>) -> Result<TopicEventView, Failure> {
        match value {
            None => Ok(Self::default_view()),
            Some(bytes) => Self::parse_payload(bytes),
        }
    }

    /// Reads the object of an optional field.
    pub fn read(value: Option<&[u8]>) -> (r: Result<TopicEvent, Error>)
        ensures
            match r {
                Ok(object) => Self::or_default(bytes_of(value))
                    == Ok::<TopicEventView, Failure>(object@),
                Err(error) => Self::or_default(bytes_of(value)) matches Err(failure)
                    && failure.reported_by(error),
            },
    {
        match value {
            None => Ok(TopicEvent::default()),
            Some(bytes) => TopicEvent::from_payload(bytes),
        }
    }
}

impl Default for TopicEvent {
    fn default() -> (object: TopicEvent)
        ensures
            object@ == TopicEvent::default_view(),
    {
        let object = TopicEvent {
            state: TopicState::Create,
            name: String::new(),
            partitions: 0u32,
        };
        proof {
        }
        object
    }
}

impl TopicEvent {
    /// The payload that says `view`.
    pub open spec fn payload_of(view: TopicEventView) -> Seq<u8> {
        rmp_map_len(3)
            + rmp_str("state"@) + rmp_str(view.state.name())
            + rmp_str("name"@) + rmp_str(view.name)
            + rmp_str("partitions"@) + rmp_uint(view.partitions as u64)
    }
}

impl ToData for TopicEvent {
    open spec fn payload_bytes(&self) -> Seq<u8> {
        TopicEvent::payload_of(self@)
    }

    open spec fn encodable(&self) -> bool {
        true
    }

    fn to_payload(&self, out: &mut Vec<u8>) -> (r: Result<(), Error>) {
        write_map_len(out, 3);
        write_str(out, "state");
        write_str(out, self.state.as_str());
        write_str(out, "name");
        write_str(out, self.name.as_str());
        write_str(out, "partitions");
        write_uint(out, self.partitions as u64);
        proof {
            assert(out@ =~= old(out)@ + self.payload_bytes());
        }
        Ok(())
    }
}

impl FromData for TopicEvent {
    open spec fn parse_payload(data: Seq<u8>) -> Result<TopicEventView, Failure> {
        match parse_map(data) {
            None => Err(Failure::Malformed),
            Some(fields) => Self::of_fields(fields),
        }
    }

    fn from_payload(data: &[u8]) -> (r: Result<TopicEvent, Error>) {
        let map = match MapReader::read(data) {
            Some(map) => map,
            None => {
                return Err(malformed());
            },
        };
        let state = match TopicState::read(map.get("state"), TopicState::Create) {
            Ok(state) => state,
            Err(error) => {
                return Err(error);
            },
        };
        let name = match get_text(map.get("name")) {
            Ok(name) => name,
            Err(error) => {
                return Err(error);
            },
        };
        let partitions = match get_integer(
            map.get("partitions"),
            0,
            u32::MIN as i128,
            u32::MAX as i128,
        ) {
            Ok(partitions) => partitions,
            Err(error) => {
                return Err(error);
            },
        };
        Ok(
            TopicEvent {
                state,
                name,
                partitions: partitions as u32,
            },
        )
    }
}

/// The states of a subscriber to a topic.
#[derive(Debug, PartialEq, Eq, Clone, Copy, Structural)]
pub enum TopicSubscriberState {
    Subscribe,
    Subscribed,
}

impl TopicSubscriberState {
    /// The name of the state on the wire.
    pub open spec fn name(&self) -> Seq<char> {
        match *self {
            TopicSubscriberState::Subscribe => "SUBSCRIBE"@,
            TopicSubscriberState::Subscribed => "SUBSCRIBED"@,
        }
    }

    /// The state that `name` names.
    pub open spec fn of_name(name: Seq<char>) -> Option<TopicSubscriberState> {
        if name == "SUBSCRIBE"@ {
            Some(TopicSubscriberState::Subscribe)
        } else if name == "SUBSCRIBED"@ {
            Some(TopicSubscriberState::Subscribed)
        } else {
            None
        }
    }

    /// The name of the state on the wire.
    pub fn as_str(&self) -> (name: &'static str)
        ensures
            name@ == self.name(),
    {
        match *self {
            TopicSubscriberState::Subscribe => "SUBSCRIBE",
            TopicSubscriberState::Subscribed => "SUBSCRIBED",
        }
    }

    /// The state that `name` names.
    ///
    /// Fails with `UnknownState`, which holds `name`, when `name` is not in
    /// the vocabulary.
    pub fn from_name(name: &str) -> (r: Result<TopicSubscriberState, Error>)
        ensures
            match r {
                Ok(state) => Self::of_name(name@) == Some(state),
                Err(error) => Self::of_name(name@) is None && Failure::UnknownState(
                    name@,
                ).reported_by(error),
            },
    {
        let text = String::from_str(name);
        if text == String::from_str("SUBSCRIBE") {
            Ok(TopicSubscriberState::Subscribe)
        } else if text == String::from_str("SUBSCRIBED") {
            Ok(TopicSubscriberState::Subscribed)
        } else {
            Err(Error::UnknownState(text))
        }
    }

    /// The state of an optional field: the default where the field is
    /// missing, a failure where its value is no string or no name of a state.
    pub open spec fn or_default(value: Option<Seq<u8>>, default: TopicSubscriberState)
        -> Result<TopicSubscriberState, Failure> {
        match value {
            None => Ok(default),
            Some(bytes) => match parse_str(bytes) {
                None => Err(Failure::Malformed),
                Some((name, _)) => match Self::of_name(name) {
                    Some(state) => Ok(state),
                    None => Err(Failure::UnknownState(name)),
                },
            },
        }
    }

    /// Reads the state of an optional field.
    pub fn read(value: Option<&[u8]>, default: TopicSubscriberState)
        -> (r: Result<TopicSubscriberState, Error>)
        ensures
            match r {
                Ok(state) => Self::or_default(bytes_of(value), default)
                    == Ok::<TopicSubscriberState, Failure>(state),
                Err(error) => Self::or_default(bytes_of(value), default) matches Err(failure)
                    && failure.reported_by(error),
            },
    {
        match value {
            None => Ok(default),
            Some(bytes) => match read_str(bytes) {
                None => Err(malformed()),
                Some((name, _)) => Self::from_name(name.as_str()),
            },
        }
    }

    /// Every state is the state that its name names.
    pub proof fn lemma_name_names_state(self)
        ensures
            Self::of_name(self.name()) == Some(self),
    {
        reveal_strlit("SUBSCRIBE");
        reveal_strlit("SUBSCRIBED");
        match self {
            TopicSubscriberState::Subscribe => {},
            TopicSubscriberState::Subscribed => {
                assert("SUBSCRIBE"@.len() != "SUBSCRIBED"@.len());
            },
        }
    }
}

impl Default for TopicSubscriberState {
    fn default() -> (state: TopicSubscriberState)
        ensures
            state == TopicSubscriberState::Subscribe,
    {
        TopicSubscriberState::Subscribe
    }
}

/// A subscriber to a topic, as the broker records it.
#[derive(Debug, PartialEq, Eq, Clone)]
pub struct TopicSubscriberEvent {
    pub state: TopicSubscriberState,
    pub name: String,
    pub prefetch_capacity: u32,
    pub start_position: i64,
    pub force_start: bool,
}

/// What a `TopicSubscriberEvent` says.
pub struct TopicSubscriberEventView {
    pub state: TopicSubscriberState,
    pub name: Seq<char>,
    pub prefetch_capacity: u32,
    pub start_position: i64,
    pub force_start: bool,
}

impl View for TopicSubscriberEvent {
    type V = TopicSubscriberEventView;

    open spec fn view(&self) -> TopicSubscriberEventView {
        TopicSubscriberEventView {
            state: self.state,
            name: self.name@,
            prefetch_capacity: self.prefetch_capacity,
            start_position: self.start_position,
            force_start: self.force_start,
        }
    }
}

impl TopicSubscriberEvent {
    /// What the object says when every field has its default.
    pub open spec fn default_view() -> TopicSubscriberEventView {
        TopicSubscriberEventView {
            state: TopicSubscriberState::Subscribe,
            name: Seq::empty(),
            prefetch_capacity: 0u32,
            start_position: -1i64,
            force_start: false,
        }
    }

    /// What the fields of a map say. A field that is missing has its
    /// default, and fields of other names are not looked at.
    pub open spec fn of_fields(fields: Seq<Field>) -> Result<TopicSubscriberEventView, Failure> {
        let state = TopicSubscriberState::or_default(field(fields, "state"@),
            TopicSubscriberState::Subscribe);
        let name = text_or_empty(field(fields, "name"@));
        let prefetch_capacity = integer_or(
            field(fields, "prefetchCapacity"@),
            0,
            u32::MIN as int,
            u32::MAX as int,
        );
        let start_position = integer_or(
            field(fields, "startPosition"@),
            -1,
            i64::MIN as int,
            i64::MAX as int,
        );
        let force_start = truth_or(field(fields, "forceStart"@), false);
        if state is Err {
            Err(state->Err_0)
        } else if name is Err {
            Err(name->Err_0)
        } else if prefetch_capacity is Err {
            Err(prefetch_capacity->Err_0)
        } else if start_position is Err {
            Err(start_position->Err_0)
        } else if force_start is Err {
            Err(force_start->Err_0)
        } else {
            Ok(
                TopicSubscriberEventView {
                    state: state->Ok_0,
                    name: name->Ok_0,
                    prefetch_capacity: prefetch_capacity->Ok_0 as u32,
                    start_position: start_position->Ok_0 as i64,
                    force_start: force_start->Ok_0,
                },
            )
        }
    }

    /// The object of an optional field: the default where the field is
    /// missing, a failure where its value is no such object.
    pub open spec fn or_default(value: Option<Seq<u8>>)
        -> Result<TopicSubscriberEventView, Failure> {
        match value {
            None => Ok(Self::default_view()),
            Some(bytes) => Self::parse_payload(bytes),
        }
    }

    /// Reads the object of an optional field.
    pub fn read(value: Option<&[u8]>) -> (r: Result<TopicSubscriberEvent, Error>)
        ensures
            match r {
                Ok(object) => Self::or_default(bytes_of(value))
                    == Ok::<TopicSubscriberEventView, Failure>(object@),
                Err(error) => Self::or_default(bytes_of(value)) matches Err(failure)
                    && failure.reported_by(error),
            },
    {
        match value {
            None => Ok(TopicSubscriberEvent::default()),
            Some(bytes) => TopicSubscriberEvent::from_payload(bytes),
        }
    }
}

impl Default for TopicSubscriberEvent {
    fn default() -> (object: TopicSubscriberEvent)
        ensures
            object@ == TopicSubscriberEvent::default_view(),
    {
        let object = TopicSubscriberEvent {
            state: TopicSubscriberState::Subscribe,
            name: String::new(),
            prefetch_capacity: 0u32,
            start_position: -1i64,
            force_start: false,
        };
        proof {
        }
        object
    }
}

impl TopicSubscriberEvent {
    /// The payload that says `view`.
    pub open spec fn payload_of(view: TopicSubscriberEventView) -> Seq<u8> {
        rmp_map_len(5)
            + rmp_str("state"@) + rmp_str(view.state.name())
            + rmp_str("name"@) + rmp_str(view.name)
            + rmp_str("prefetchCapacity"@) + rmp_uint(view.prefetch_capacity as u64)
            + rmp_str("startPosition"@) + rmp_sint(view.start_position as i64)
            + rmp_str("forceStart"@) + rmp_bool(view.force_start)
    }
}

impl ToData for TopicSubscriberEvent {
    open spec fn payload_bytes(&self) -> Seq<u8> {
        TopicSubscriberEvent::payload_of(self@)
    }

    open spec fn encodable(&self) -> bool {
        true
    }

    fn to_payload(&self, out: &mut Vec<u8>) -> (r: Result<(), Error>) {
        write_map_len(out, 5);
        write_str(out, "state");
        write_str(out, self.state.as_str());
        write_str(out, "name");
        write_str(out, self.name.as_str());
        write_str(out, "prefetchCapacity");
        write_uint(out, self.prefetch_capacity as u64);
        write_str(out, "startPosition");
        write_sint(out, self.start_position as i64);
        write_str(out, "forceStart");
        write_bool(out, self.force_start);
        proof {
            assert(out@ =~= old(out)@ + self.payload_bytes());
        }
        Ok(())
    }
}

impl FromData for TopicSubscriberEvent {
    open spec fn parse_payload(data: Seq<u8>) -> Result<TopicSubscriberEventView, Failure> {
        match parse_map(data) {
            None => Err(Failure::Malformed),
            Some(fields) => Self::of_fields(fields),
        }
    }

    fn from_payload(data: &[u8]) -> (r: Result<TopicSubscriberEvent, Error>) {
        let map = match MapReader::read(data) {
            Some(map) => map,
            None => {
                return Err(malformed());
            },
        };
        let state = match TopicSubscriberState::read(map.get("state"),
            TopicSubscriberState::Subscribe) {
            Ok(state) => state,
            Err(error) => {
                return Err(error);
            },
        };
        let name = match get_text(map.get("name")) {
            Ok(name) => name,
            Err(error) => {
                return Err(error);
            },
        };
        let prefetch_capacity = match get_integer(
            map.get("prefetchCapacity"),
            0,
            u32::MIN as i128,
            u32::MAX as i128,
        ) {
            Ok(prefetch_capacity) => prefetch_capacity,
            Err(error) => {
                return Err(error);
            },
        };
        let start_position = match get_integer(
            map.get("startPosition"),
            -1,
            i64::MIN as i128,
            i64::MAX as i128,
        ) {
            Ok(start_position) => start_position,
            Err(error) => {
                return Err(error);
            },
        };
        let force_start = match get_truth(map.get("forceStart"), false) {
            Ok(force_start) => force_start,
            Err(error) => {
                return Err(error);
            },
        };
        Ok(
            TopicSubscriberEvent {
                state,
                name,
                prefetch_capacity: prefetch_capacity as u32,
                start_position: start_position as i64,
                force_start,
            },
        )
    }
}

impl TopicSubscriberEvent {
    /// A subscriber with the given name and state that starts at
    /// `start_position`.
    pub fn new(
        start_position: i64,
        name: &str,
        state: TopicSubscriberState,
        prefetch_capacity: u32,
        force_start: bool,
    ) -> (subscriber: TopicSubscriberEvent)
        ensures
            subscriber@ == (TopicSubscriberEventView {
                state,
                name: name@,
                prefetch_capacity,
                start_position,
                force_start,
            }),
    {
        TopicSubscriberEvent {
            state,
            name: String::from_str(name),
            prefetch_capacity,
            start_position,
            force_start,
        }
    }
}

} // verus!
