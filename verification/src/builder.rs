//! Builders to help building requests.
//!
//! Every top-level builder exposes at least method `build_package` which returns a
//! ready-to-send `Package`; the required properties must have been set before. The builders
//! support chaining.
//!
//! On `build_package` the contents are not cloned but are moved into the returned `Package`,
//! which leaves the moved properties of the builder unset.
//!
//! `UsernamePassword` can be used to authenticate specific requests. Specifying credentials for
//! every request is currently the only supported way to authenticate.
//!
//! A correlation id or event id can always be left unset, in which case a random version 4 UUID
//! is generated.
use vstd::prelude::*;
use vstd::slice::slice_to_vec;
use vstd::pervasive::unreached;
use vstd::string::StringExecFns;
use crate::auth::UsernamePassword;
use crate::package::Package;
use crate::read_direction::ReadDirection;
use crate::expected_version::{ExpectedVersion, expected_version_to_i32};
use crate::event_number::{EventNumber, event_number_to_i32};
use crate::log_position::{LogPosition, log_position_to_i64};
use crate::content_type::{ContentType, content_type_to_i32};
use crate::raw::{RawMessage, RawMessageModel};
use crate::raw::events::{NewEvent, NewEventModel};
use crate::raw::write::{WriteEvents, WriteEventsModel, DeleteStream, DeleteStreamModel};
use crate::raw::read::{
    ReadEvent, ReadEventModel, ReadStreamEvents, ReadStreamEventsModel, ReadAllEvents,
    ReadAllEventsModel,
};

verus! {

broadcast use vstd::array::group_array_axioms;

/// The marks of a random UUID: the version nibble (the high half of byte 6) is 4, and the two
/// high bits of byte 8 are `10` (the RFC 4122 variant).
pub open spec fn is_v4_uuid(id: Seq<u8>) -> bool {
    &&& id.len() == 16
    &&& id[6] / 16 == 4
    &&& id[8] / 64 == 2
}

/// `uuid::Uuid::new_v4`: a random version 4 UUID, as its 16 bytes. Claimed of it: the bytes
/// are random but for the version and variant bits, which it sets (`is_v4_uuid`); nothing
/// else is promised of them.
#[verifier::external_body]
fn random_uuid() -> (id: [u8; 16])
    ensures
        is_v4_uuid(id@),
{
    *uuid::Uuid::new_v4().as_bytes()
}

/// The package of `msg` with the given credentials, and the given correlation id or else a
/// random version 4 one.
fn build_package(msg: RawMessage, authentication: Option<UsernamePassword>, correlation_id: Option<[u8; 16]>) -> (p: Package)
    ensures
        p.message@ == msg@,
        p.authentication == authentication,
        correlation_id matches Some(c) ==> p.correlation_id == c,
        correlation_id is None ==> is_v4_uuid(p.correlation_id@),
{
    let id = match correlation_id {
        Some(c) => c,
        None => random_uuid(),
    };
    Package { authentication: authentication, correlation_id: id, message: msg }
}

/// Factory for creating builders.
pub struct Builder;

impl Builder {
    /// Simple builder for a Ping message, that has no other data.
    pub fn ping() -> (b: SimpleBuilder)
        ensures
            b@ == RawMessageModel::Ping,
    {
        SimpleBuilder(RawMessage::Ping)
    }

    /// Simple builder for an Authenticate message, that has no other data (credentials are passed
    /// to the `build_package` method).
    pub fn authenticate() -> (b: SimpleBuilder)
        ensures
            b@ == RawMessageModel::Authenticate,
    {
        SimpleBuilder(RawMessage::Authenticate)
    }

    /// Builder for `WriteEvents`, which allows writing multiple events to a stream, with expected
    /// current version of the stream.
    pub fn write_events() -> (b: WriteEventsBuilder)
        ensures
            b@ == write_events_builder_empty(),
    {
        WriteEventsBuilder::new()
    }

    /// Builder for `DeleteStream` which allows deleting a stream.
    pub fn delete_stream() -> (b: DeleteStreamBuilder)
        ensures
            b@ == delete_stream_builder_empty(),
    {
        DeleteStreamBuilder::new()
    }

    /// Builder for `ReadEvent` which allows reading a single event off a stream.
    pub fn read_event() -> (b: ReadEventBuilder)
        ensures
            b@ == read_event_builder_empty(),
    {
        ReadEventBuilder::new()
    }

    /// Builder for `ReadStreamEvents` which allows reading multiple events off a stream either
    /// forwards or backwards.
    pub fn read_stream_events() -> (b: ReadStreamEventsBuilder)
        ensures
            b@ == read_stream_events_builder_empty(),
    {
        ReadStreamEventsBuilder::new()
    }

    /// Builder for `ReadAllEvents` which allows reading off a stream of all events in the
    /// database.
    pub fn read_all_events() -> (b: ReadAllEventsBuilder)
        ensures
            b@ == read_all_events_builder_empty(),
    {
        ReadAllEventsBuilder::new()
    }
}

/// Builder for messages without any additional contents.
pub struct SimpleBuilder(RawMessage);

impl View for SimpleBuilder {
    type V = RawMessageModel;

    closed spec fn view(&self) -> RawMessageModel {
        self.0@
    }
}

impl SimpleBuilder {
    /// Returns a package which can be sent to the server.
    pub fn build_package(self, authentication: Option<UsernamePassword>, correlation_id: Option<[u8; 16]>) -> (p: Package)
        ensures
            p.message@ == self@,
            p.authentication == authentication,
            correlation_id matches Some(c) ==> p.correlation_id == c,
            correlation_id is None ==> is_v4_uuid(p.correlation_id@),
    {
        build_package(self.0, authentication, correlation_id)
    }
}

/// Builder for `WriteEvents` which allows writing multiple events to a stream.
pub struct WriteEventsBuilder {
    event_stream_id: Option<String>,
    expected_version: Option<ExpectedVersion>,
    require_master: Option<bool>,
    events: Vec<NewEvent>,
}

/// The properties set on a `WriteEventsBuilder`.
pub struct WriteEventsBuilderModel {
    pub event_stream_id: Option<Seq<char>>,
    pub expected_version: Option<ExpectedVersion>,
    pub require_master: Option<bool>,
    pub events: Seq<NewEventModel>,
}

impl View for WriteEventsBuilder {
    type V = WriteEventsBuilderModel;

    closed spec fn view(&self) -> WriteEventsBuilderModel {
        WriteEventsBuilderModel {
            event_stream_id: match self.event_stream_id {
                Some(s) => Some(s@),
                None => None,
            },
            expected_version: self.expected_version,
            require_master: self.require_master,
            events: self.events@.map_values(|e: NewEvent| e@),
        }
    }
}

/// A `WriteEventsBuilder` with nothing set.
pub open spec fn write_events_builder_empty() -> WriteEventsBuilderModel {
    WriteEventsBuilderModel {
        event_stream_id: None,
        expected_version: None,
        require_master: None,
        events: Seq::empty(),
    }
}

/// The request built: any version is expected and the master is not required unless set.
pub open spec fn write_events_of(b: WriteEventsBuilderModel) -> WriteEventsModel {
    WriteEventsModel {
        event_stream_id: b.event_stream_id->0,
        expected_version: expected_version_to_i32(
            match b.expected_version {
                Some(v) => v,
                None => ExpectedVersion::Any,
            },
        ),
        events: b.events,
        require_master: match b.require_master {
            Some(r) => r,
            None => false,
        },
    }
}

impl WriteEventsBuilder {
    /// A builder with nothing set.
    pub fn new() -> (b: WriteEventsBuilder)
        ensures
            b@ == write_events_builder_empty(),
    {
        let b = WriteEventsBuilder {
            event_stream_id: None,
            expected_version: None,
            require_master: None,
            events: Vec::new(),
        };
        assert(b@.events =~= Seq::<NewEventModel>::empty());
        b
    }

    /// Sets the stream to write to; the id must not be empty.
    pub fn stream_id(&mut self, id: &str) -> (r: &mut WriteEventsBuilder)
        requires
            id@.len() > 0,
        ensures
            (*r)@ == (WriteEventsBuilderModel { event_stream_id: Some(id@), ..old(self)@ }),
            *final(self) == *final(r),
    {
        self.event_stream_id = Some(String::from_str(id));
        self
    }

    /// Sets the expected version of the stream as an optimistic locking mechanism.
    pub fn expected_version(&mut self, version: ExpectedVersion) -> (r: &mut WriteEventsBuilder)
        ensures
            (*r)@ == (WriteEventsBuilderModel { expected_version: Some(version), ..old(self)@ }),
            *final(self) == *final(r),
    {
        self.expected_version = Some(version);
        self
    }

    /// Should the server only handle the request if it is the cluster master. Note that while
    /// only the master server can accept writes, other cluster members can forward requests to
    /// the master.
    ///
    /// Defaults to `false`.
    pub fn require_master(&mut self, require: bool) -> (r: &mut WriteEventsBuilder)
        ensures
            (*r)@ == (WriteEventsBuilderModel { require_master: Some(require), ..old(self)@ }),
            *final(self) == *final(r),
    {
        self.require_master = Some(require);
        self
    }

    /// Start creating a new event using `NewEventBuilder`.
    pub fn new_event(&mut self) -> (b: NewEventBuilder<'_>)
        ensures
            b@ == new_event_builder_empty(old(self)@),
            *final(self) == *final(b.parent_ref()),
    {
        NewEventBuilder {
            parent: self,
            event_id: None,
            event_type: None,
            data_content_type: None,
            metadata_content_type: None,
            data: None,
            metadata: None,
        }
    }

    fn push_event(&mut self, event: NewEvent) -> (r: &mut WriteEventsBuilder)
        ensures
            (*r)@ == (WriteEventsBuilderModel { events: old(self)@.events.push(event@), ..old(self)@ }),
            *final(self) == *final(r),
    {
        let ghost old_events = self.events@;
        self.events.push(event);
        assert(self.events@.map_values(|e: NewEvent| e@) =~= old_events.map_values(|e: NewEvent| e@).push(
            event@,
        ));
        self
    }

    fn build_command(&mut self) -> (c: WriteEvents)
        requires
            old(self)@.event_stream_id is Some,
        ensures
            c@ == write_events_of(old(self)@),
            final(self)@ == write_events_builder_empty(),
    {
        let id = match self.event_stream_id.take() {
            Some(id) => id,
            None => unreached(),
        };
        let version = match self.expected_version.take() {
            Some(v) => v,
            None => ExpectedVersion::Any,
        };
        let require_master = match self.require_master.take() {
            Some(r) => r,
            None => false,
        };
        let mut events: Vec<NewEvent> = Vec::new();
        std::mem::swap(&mut events, &mut self.events);
        assert(self@.events =~= Seq::<NewEventModel>::empty());
        WriteEvents {
            event_stream_id: id,
            expected_version: version.to_i32(),
            require_master: require_master,
            events: events,
        }
    }

    fn build_message(&mut self) -> (m: RawMessage)
        requires
            old(self)@.event_stream_id is Some,
        ensures
            m@ == RawMessageModel::WriteEvents(write_events_of(old(self)@)),
            final(self)@ == write_events_builder_empty(),
    {
        RawMessage::WriteEvents(self.build_command())
    }

    /// Builds the package; the stream id must have been set. The properties set are moved into
    /// the package, which leaves the builder empty.
    pub fn build_package(&mut self, authentication: Option<UsernamePassword>, correlation_id: Option<[u8; 16]>) -> (p: Package)
        requires
            old(self)@.event_stream_id is Some,
        ensures
            p.message@ == RawMessageModel::WriteEvents(write_events_of(old(self)@)),
            p.authentication == authentication,
            correlation_id matches Some(c) ==> p.correlation_id == c,
            correlation_id is None ==> is_v4_uuid(p.correlation_id@),
            final(self)@ == write_events_builder_empty(),
    {
        build_package(self.build_message(), authentication, correlation_id)
    }
}

/// Builder for specifying an event when using `WriteEventsBuilder`.
pub struct NewEventBuilder<'a> {
    parent: &'a mut WriteEventsBuilder,
    event_id: Option<[u8; 16]>,
    event_type: Option<String>,
    data_content_type: Option<ContentType>,
    metadata_content_type: Option<ContentType>,
    data: Option<Vec<u8>>,
    metadata: Option<Vec<u8>>,
}

/// The properties set on a `NewEventBuilder`, beside the builder it adds the event to.
pub struct NewEventBuilderModel {
    pub parent: WriteEventsBuilderModel,
    pub event_id: Option<Seq<u8>>,
    pub event_type: Option<Seq<char>>,
    pub data_content_type: Option<ContentType>,
    pub metadata_content_type: Option<ContentType>,
    pub data: Option<Seq<u8>>,
    pub metadata: Option<Seq<u8>>,
}

impl<'a> View for NewEventBuilder<'a> {
    type V = NewEventBuilderModel;

    closed spec fn view(&self) -> NewEventBuilderModel {
        NewEventBuilderModel {
            parent: (*self.parent)@,
            event_id: match self.event_id {
                Some(id) => Some(id@),
                None => None,
            },
            event_type: match self.event_type {
                Some(s) => Some(s@),
                None => None,
            },
            data_content_type: self.data_content_type,
            metadata_content_type: self.metadata_content_type,
            data: match self.data {
                Some(d) => Some(d@),
                None => None,
            },
            metadata: match self.metadata {
                Some(d) => Some(d@),
                None => None,
            },
        }
    }
}

/// A `NewEventBuilder` with nothing set, adding to a builder in the state `parent`.
pub open spec fn new_event_builder_empty(parent: WriteEventsBuilderModel) -> NewEventBuilderModel {
    NewEventBuilderModel {
        parent: parent,
        event_id: None,
        event_type: None,
        data_content_type: None,
        metadata_content_type: None,
        data: None,
        metadata: None,
    }
}

/// The event built with the identifier `id`: content types default to bytes.
pub open spec fn new_event_of(b: NewEventBuilderModel, id: Seq<u8>) -> NewEventModel {
    NewEventModel {
        event_id: id,
        event_type: b.event_type->0,
        data_content_type: content_type_to_i32(
            match b.data_content_type {
                Some(c) => c,
                None => ContentType::Bytes,
            },
        ),
        metadata_content_type: content_type_to_i32(
            match b.metadata_content_type {
                Some(c) => c,
                None => ContentType::Bytes,
            },
        ),
        data: b.data->0,
        metadata: b.metadata,
    }
}

impl<'a> NewEventBuilder<'a> {
    /// The builder that the event is added to.
    pub closed spec fn parent_ref(&self) -> &'a mut WriteEventsBuilder {
        self.parent
    }

    /// Sets the event identifier. If not specified a new random UUID will be generated.
    pub fn event_id(self, event_id: [u8; 16]) -> (b: NewEventBuilder<'a>)
        ensures
            b@ == (NewEventBuilderModel { event_id: Some(event_id@), ..self@ }),
            *final(b.parent_ref()) == *final(self.parent_ref()),
    {
        NewEventBuilder { event_id: Some(event_id), ..self }
    }

    /// Specifies the event type.
    pub fn event_type(self, ty: &str) -> (b: NewEventBuilder<'a>)
        ensures
            b@ == (NewEventBuilderModel { event_type: Some(ty@), ..self@ }),
            *final(b.parent_ref()) == *final(self.parent_ref()),
    {
        NewEventBuilder { event_type: Some(String::from_str(ty)), ..self }
    }

    /// Sets the data of the event.
    pub fn data(self, data: Vec<u8>) -> (b: NewEventBuilder<'a>)
        ensures
            b@ == (NewEventBuilderModel { data: Some(data@), ..self@ }),
            *final(b.parent_ref()) == *final(self.parent_ref()),
    {
        NewEventBuilder { data: Some(data), ..self }
    }

    /// Sets the content type of the event, defaults to `ContentType::Bytes`
    pub fn data_content_type(self, content_type: ContentType) -> (b: NewEventBuilder<'a>)
        ensures
            b@ == (NewEventBuilderModel { data_content_type: Some(content_type), ..self@ }),
            *final(b.parent_ref()) == *final(self.parent_ref()),
    {
        NewEventBuilder { data_content_type: Some(content_type), ..self }
    }

    /// Sets the metadata of the event.
    pub fn metadata(self, metadata: Vec<u8>) -> (b: NewEventBuilder<'a>)
        ensures
            b@ == (NewEventBuilderModel { metadata: Some(metadata@), ..self@ }),
            *final(b.parent_ref()) == *final(self.parent_ref()),
    {
        NewEventBuilder { metadata: Some(metadata), ..self }
    }

    /// Sets the content type of the metadata, defaults to `ContentType::Bytes`
    pub fn metadata_content_type(self, content_type: ContentType) -> (b: NewEventBuilder<'a>)
        ensures
            b@ == (NewEventBuilderModel { metadata_content_type: Some(content_type), ..self@ }),
            *final(b.parent_ref()) == *final(self.parent_ref()),
    {
        NewEventBuilder { metadata_content_type: Some(content_type), ..self }
    }

    /// Completes building a new event for `WriteEventsBuilder` by adding a new event to the
    /// builder and returning it. The event type and the data must have been set; without an
    /// event id a random one is generated.
    ///
    /// The server has a hard limit on the size of new events accepted, but this builder does no
    /// size validation. Expect attempting to write over about 16MiB events (data + metadata +
    /// on-disk framing) to fail.
    pub fn done(self) -> (r: &'a mut WriteEventsBuilder)
        requires
            self@.event_type is Some,
            self@.data is Some,
        ensures
            (*r)@ == (WriteEventsBuilderModel {
                events: self@.parent.events.push(new_event_of(self@, (*r)@.events.last().event_id)),
                ..self@.parent
            }),
            (*r)@.events.last().event_id.len() == 16,
            self@.event_id matches Some(id) ==> (*r)@.events.last().event_id == id,
            self@.event_id is None ==> is_v4_uuid((*r)@.events.last().event_id),
            *final(r) == *final(self.parent_ref()),
    {
        let id = match self.event_id {
            Some(id) => id,
            None => random_uuid(),
        };
        let event_type = match self.event_type {
            Some(t) => t,
            None => unreached(),
        };
        let data = match self.data {
            Some(d) => d,
            None => unreached(),
        };
        let data_content_type = match self.data_content_type {
            Some(c) => c,
            None => ContentType::Bytes,
        };
        let metadata_content_type = match self.metadata_content_type {
            Some(c) => c,
            None => ContentType::Bytes,
        };
        let event = NewEvent {
            event_id: slice_to_vec(id.as_slice()),
            event_type: event_type,
            data_content_type: data_content_type.to_i32(),
            metadata_content_type: metadata_content_type.to_i32(),
            data: data,
            metadata: self.metadata,
        };
        self.parent.push_event(event)
    }

    /// Cancels building this new event returning the `WriteEventsBuilder` unmodified.
    pub fn cancel(self) -> (r: &'a mut WriteEventsBuilder)
        ensures
            (*r)@ == self@.parent,
            *final(r) == *final(self.parent_ref()),
    {
        self.parent
    }
}

/// Builder for a single event read request `ReadEvent`.
pub struct ReadEventBuilder {
    event_stream_id: Option<String>,
    event_number: Option<EventNumber>,
    resolve_link_tos: Option<bool>,
    require_master: Option<bool>,
}

/// The properties set on a `ReadEventBuilder`.
pub struct ReadEventBuilderModel {
    pub event_stream_id: Option<Seq<char>>,
    pub event_number: Option<EventNumber>,
    pub resolve_link_tos: Option<bool>,
    pub require_master: Option<bool>,
}

impl View for ReadEventBuilder {
    type V = ReadEventBuilderModel;

    closed spec fn view(&self) -> ReadEventBuilderModel {
        ReadEventBuilderModel {
            event_stream_id: match self.event_stream_id {
                Some(s) => Some(s@),
                None => None,
            },
            event_number: self.event_number,
            resolve_link_tos: self.resolve_link_tos,
            require_master: self.require_master,
        }
    }
}

/// A `ReadEventBuilder` with nothing set.
pub open spec fn read_event_builder_empty() -> ReadEventBuilderModel {
    ReadEventBuilderModel {
        event_stream_id: None,
        event_number: None,
        resolve_link_tos: None,
        require_master: None,
    }
}

/// The request built: links are resolved and the master is not required unless set.
pub open spec fn read_event_of(b: ReadEventBuilderModel) -> ReadEventModel {
    ReadEventModel {
        event_stream_id: b.event_stream_id->0,
        event_number: event_number_to_i32(b.event_number->0),
        resolve_link_tos: match b.resolve_link_tos {
            Some(r) => r,
            None => true,
        },
        require_master: match b.require_master {
            Some(r) => r,
            None => false,
        },
    }
}

impl ReadEventBuilder {
    /// A builder with nothing set.
    pub fn new() -> (b: ReadEventBuilder)
        ensures
            b@ == read_event_builder_empty(),
    {
        ReadEventBuilder {
            event_stream_id: None,
            event_number: None,
            resolve_link_tos: None,
            require_master: None,
        }
    }

    /// Sets the stream to read from; the id must not be empty.
    pub fn stream_id(&mut self, id: &str) -> (r: &mut ReadEventBuilder)
        requires
            id@.len() > 0,
        ensures
            (*r)@ == (ReadEventBuilderModel { event_stream_id: Some(id@), ..old(self)@ }),
            *final(self) == *final(r),
    {
        self.event_stream_id = Some(String::from_str(id));
        self
    }

    /// Event number to be read.
    pub fn event_number(&mut self, number: EventNumber) -> (r: &mut ReadEventBuilder)
        ensures
            (*r)@ == (ReadEventBuilderModel { event_number: Some(number), ..old(self)@ }),
            *final(self) == *final(r),
    {
        self.event_number = Some(number);
        self
    }

    /// Whether or not the server should resolve links found in the stream to events of other
    /// streams. Defaults to `true`.
    pub fn resolve_link_tos(&mut self, resolve: bool) -> (r: &mut ReadEventBuilder)
        ensures
            (*r)@ == (ReadEventBuilderModel { resolve_link_tos: Some(resolve), ..old(self)@ }),
            *final(self) == *final(r),
    {
        self.resolve_link_tos = Some(resolve);
        self
    }

    /// Should the server only handle the request if it is the cluster master.
    ///
    /// Defaults to `false`.
    pub fn require_master(&mut self, require: bool) -> (r: &mut ReadEventBuilder)
        ensures
            (*r)@ == (ReadEventBuilderModel { require_master: Some(require), ..old(self)@ }),
            *final(self) == *final(r),
    {
        self.require_master = Some(require);
        self
    }

    fn build_command(&mut self) -> (c: ReadEvent)
        requires
            old(self)@.event_stream_id is Some,
            old(self)@.event_number is Some,
        ensures
            c@ == read_event_of(old(self)@),
            final(self)@ == read_event_builder_empty(),
    {
        let id = match self.event_stream_id.take() {
            Some(id) => id,
            None => unreached(),
        };
        let number = match self.event_number.take() {
            Some(n) => n,
            None => unreached(),
        };
        let resolve_link_tos = match self.resolve_link_tos.take() {
            Some(r) => r,
            None => true,
        };
        let require_master = match self.require_master.take() {
            Some(r) => r,
            None => false,
        };
        ReadEvent {
            event_stream_id: id,
            event_number: number.to_i32(),
            resolve_link_tos: resolve_link_tos,
            require_master: require_master,
        }
    }

    fn build_message(&mut self) -> (m: RawMessage)
        requires
            old(self)@.event_stream_id is Some,
            old(self)@.event_number is Some,
        ensures
            m@ == RawMessageModel::ReadEvent(read_event_of(old(self)@)),
            final(self)@ == read_event_builder_empty(),
    {
        RawMessage::ReadEvent(self.build_command())
    }

    /// Builds the package; the stream id and the event number must have been set. The
    /// properties set are moved into the package, which leaves the builder empty.
    pub fn build_package(&mut self, authentication: Option<UsernamePassword>, correlation_id: Option<[u8; 16]>) -> (p: Package)
        requires
            old(self)@.event_stream_id is Some,
            old(self)@.event_number is Some,
        ensures
            p.message@ == RawMessageModel::ReadEvent(read_event_of(old(self)@)),
            p.authentication == authentication,
            correlation_id matches Some(c) ==> p.correlation_id == c,
            correlation_id is None ==> is_v4_uuid(p.correlation_id@),
            final(self)@ == read_event_builder_empty(),
    {
        build_package(self.build_message(), authentication, correlation_id)
    }
}

/// Builds a package for reading multiple events from a stream in either `ReadDirection`.
pub struct ReadStreamEventsBuilder {
    direction: Option<ReadDirection>,
    event_stream_id: Option<String>,
    from_event_number: Option<EventNumber>,
    max_count: Option<u8>,
    resolve_link_tos: Option<bool>,
    require_master: Option<bool>,
}

/// The properties set on a `ReadStreamEventsBuilder`.
pub struct ReadStreamEventsBuilderModel {
    pub direction: Option<ReadDirection>,
    pub event_stream_id: Option<Seq<char>>,
    pub from_event_number: Option<EventNumber>,
    pub max_count: Option<u8>,
    pub resolve_link_tos: Option<bool>,
    pub require_master: Option<bool>,
}

impl View for ReadStreamEventsBuilder {
    type V = ReadStreamEventsBuilderModel;

    closed spec fn view(&self) -> ReadStreamEventsBuilderModel {
        ReadStreamEventsBuilderModel {
            direction: self.direction,
            event_stream_id: match self.event_stream_id {
                Some(s) => Some(s@),
                None => None,
            },
            from_event_number: self.from_event_number,
            max_count: self.max_count,
            resolve_link_tos: self.resolve_link_tos,
            require_master: self.require_master,
        }
    }
}

/// A `ReadStreamEventsBuilder` with nothing set.
pub open spec fn read_stream_events_builder_empty() -> ReadStreamEventsBuilderModel {
    ReadStreamEventsBuilderModel {
        direction: None,
        event_stream_id: None,
        from_event_number: None,
        max_count: None,
        resolve_link_tos: None,
        require_master: None,
    }
}

/// The request built: links resolved and no master required unless set.
pub open spec fn read_stream_events_of(b: ReadStreamEventsBuilderModel) -> ReadStreamEventsModel {
    ReadStreamEventsModel {
        event_stream_id: b.event_stream_id->0,
        from_event_number: event_number_to_i32(b.from_event_number->0),
        max_count: b.max_count->0 as i32,
        resolve_link_tos: match b.resolve_link_tos {
            Some(r) => r,
            None => true,
        },
        require_master: match b.require_master {
            Some(r) => r,
            None => false,
        },
    }
}

impl ReadStreamEventsBuilder {
    /// A builder with nothing set.
    pub fn new() -> (b: ReadStreamEventsBuilder)
        ensures
            b@ == read_stream_events_builder_empty(),
    {
        ReadStreamEventsBuilder {
            direction: None,
            event_stream_id: None,
            from_event_number: None,
            max_count: None,
            resolve_link_tos: None,
            require_master: None,
        }
    }

    /// Set the read direction (required).
    pub fn direction(&mut self, dir: ReadDirection) -> (r: &mut ReadStreamEventsBuilder)
        ensures
            (*r)@ == (ReadStreamEventsBuilderModel { direction: Some(dir), ..old(self)@ }),
            *final(self) == *final(r),
    {
        self.direction = Some(dir);
        self
    }

    /// Sets the maximum number of events to read (required), which must not be zero. `u8` is
    /// used as larger batches should be paged.
    pub fn max_count(&mut self, count: u8) -> (r: &mut ReadStreamEventsBuilder)
        requires
            count > 0,
        ensures
            (*r)@ == (ReadStreamEventsBuilderModel { max_count: Some(count), ..old(self)@ }),
            *final(self) == *final(r),
    {
        self.max_count = Some(count);
        self
    }

    /// Sets the stream to read from; the id must not be empty.
    pub fn stream_id(&mut self, id: &str) -> (r: &mut ReadStreamEventsBuilder)
        requires
            id@.len() > 0,
        ensures
            (*r)@ == (ReadStreamEventsBuilderModel { event_stream_id: Some(id@), ..old(self)@ }),
            *final(self) == *final(r),
    {
        self.event_stream_id = Some(String::from_str(id));
        self
    }

    /// Event number to read from to the given direction.
    pub fn from_event_number(&mut self, n: EventNumber) -> (r: &mut ReadStreamEventsBuilder)
        ensures
            (*r)@ == (ReadStreamEventsBuilderModel { from_event_number: Some(n), ..old(self)@ }),
            *final(self) == *final(r),
    {
        self.from_event_number = Some(n);
        self
    }

    /// Whether or not the server should resolve links found in the stream to events of other
    /// streams. Defaults to `true`.
    pub fn resolve_link_tos(&mut self, resolve: bool) -> (r: &mut ReadStreamEventsBuilder)
        ensures
            (*r)@ == (ReadStreamEventsBuilderModel { resolve_link_tos: Some(resolve), ..old(self)@ }),
            *final(self) == *final(r),
    {
        self.resolve_link_tos = Some(resolve);
        self
    }

    /// Should the server only handle the request if it is the cluster master.
    ///
    /// Defaults to `false`.
    pub fn require_master(&mut self, require: bool) -> (r: &mut ReadStreamEventsBuilder)
        ensures
            (*r)@ == (ReadStreamEventsBuilderModel { require_master: Some(require), ..old(self)@ }),
            *final(self) == *final(r),
    {
        self.require_master = Some(require);
        self
    }

    fn build_command(&mut self) -> (c: ReadStreamEvents)
        requires
            old(self)@.event_stream_id is Some,
            old(self)@.from_event_number is Some,
            old(self)@.max_count is Some,
        ensures
            c@ == read_stream_events_of(old(self)@),
            final(self)@ == (ReadStreamEventsBuilderModel {
                event_stream_id: None,
                from_event_number: None,
                ..old(self)@
            }),
    {
        let id = match self.event_stream_id.take() {
            Some(id) => id,
            None => unreached(),
        };
        let from = match self.from_event_number.take() {
            Some(n) => n,
            None => unreached(),
        };
        let max_count: i32 = match self.max_count {
            Some(c) => c as i32,
            None => unreached(),
        };
        let resolve_link_tos = match self.resolve_link_tos {
            Some(r) => r,
            None => true,
        };
        let require_master = match self.require_master {
            Some(r) => r,
            None => false,
        };
        ReadStreamEvents {
            event_stream_id: id,
            from_event_number: from.to_i32(),
            max_count: max_count,
            resolve_link_tos: resolve_link_tos,
            require_master: require_master,
        }
    }

    fn build_message(&mut self) -> (m: RawMessage)
        requires
            old(self)@.direction is Some,
            old(self)@.event_stream_id is Some,
            old(self)@.from_event_number is Some,
            old(self)@.max_count is Some,
        ensures
            m@ == RawMessageModel::ReadStreamEvents(
                old(self)@.direction->0,
                read_stream_events_of(old(self)@),
            ),
            final(self)@ == (ReadStreamEventsBuilderModel {
                event_stream_id: None,
                from_event_number: None,
                ..old(self)@
            }),
    {
        let dir = match self.direction {
            Some(d) => d,
            None => unreached(),
        };
        RawMessage::ReadStreamEvents(dir, self.build_command())
    }

    /// Builds the package; the direction, the stream id, the event number to read from and the
    /// maximum count must have been set. The stream id and the event number are moved into the package, which
    /// leaves them unset.
    pub fn build_package(&mut self, authentication: Option<UsernamePassword>, correlation_id: Option<[u8; 16]>) -> (p: Package)
        requires
            old(self)@.direction is Some,
            old(self)@.event_stream_id is Some,
            old(self)@.from_event_number is Some,
            old(self)@.max_count is Some,
        ensures
            p.message@ == RawMessageModel::ReadStreamEvents(
                old(self)@.direction->0,
                read_stream_events_of(old(self)@),
            ),
            p.authentication == authentication,
            correlation_id matches Some(c) ==> p.correlation_id == c,
            correlation_id is None ==> is_v4_uuid(p.correlation_id@),
            final(self)@ == (ReadStreamEventsBuilderModel {
                event_stream_id: None,
                from_event_number: None,
                ..old(self)@
            }),
    {
        build_package(self.build_message(), authentication, correlation_id)
    }
}

/// Builder for `ReadAllEvents`.
pub struct ReadAllEventsBuilder {
    direction: Option<ReadDirection>,
    commit_position: Option<LogPosition>,
    prepare_position: Option<LogPosition>,
    max_count: Option<u8>,
    resolve_link_tos: Option<bool>,
    require_master: Option<bool>,
}

/// The properties set on a `ReadAllEventsBuilder`.
pub struct ReadAllEventsBuilderModel {
    pub direction: Option<ReadDirection>,
    pub commit_position: Option<LogPosition>,
    pub prepare_position: Option<LogPosition>,
    pub max_count: Option<u8>,
    pub resolve_link_tos: Option<bool>,
    pub require_master: Option<bool>,
}

impl View for ReadAllEventsBuilder {
    type V = ReadAllEventsBuilderModel;

    closed spec fn view(&self) -> ReadAllEventsBuilderModel {
        ReadAllEventsBuilderModel {
            direction: self.direction,
            commit_position: self.commit_position,
            prepare_position: self.prepare_position,
            max_count: self.max_count,
            resolve_link_tos: self.resolve_link_tos,
            require_master: self.require_master,
        }
    }
}

/// A `ReadAllEventsBuilder` with nothing set.
pub open spec fn read_all_events_builder_empty() -> ReadAllEventsBuilderModel {
    ReadAllEventsBuilderModel {
        direction: None,
        commit_position: None,
        prepare_position: None,
        max_count: None,
        resolve_link_tos: None,
        require_master: None,
    }
}

/// The request built: links resolved and no master required unless set.
pub open spec fn read_all_events_of(b: ReadAllEventsBuilderModel) -> ReadAllEventsModel {
    ReadAllEventsModel {
        commit_position: log_position_to_i64(b.commit_position->0),
        prepare_position: log_position_to_i64(b.prepare_position->0),
        max_count: b.max_count->0 as i32,
        resolve_link_tos: match b.resolve_link_tos {
            Some(r) => r,
            None => true,
        },
        require_master: match b.require_master {
            Some(r) => r,
            None => false,
        },
    }
}

impl ReadAllEventsBuilder {
    /// A builder with nothing set.
    pub fn new() -> (b: ReadAllEventsBuilder)
        ensures
            b@ == read_all_events_builder_empty(),
    {
        ReadAllEventsBuilder {
            direction: None,
            commit_position: None,
            prepare_position: None,
            max_count: None,
            resolve_link_tos: None,
            require_master: None,
        }
    }

    /// Set the read direction (required).
    pub fn direction(&mut self, dir: ReadDirection) -> (r: &mut ReadAllEventsBuilder)
        ensures
            (*r)@ == (ReadAllEventsBuilderModel { direction: Some(dir), ..old(self)@ }),
            *final(self) == *final(r),
    {
        self.direction = Some(dir);
        self
    }

    /// Sets the positions to read from. These are easiest to acquire from previous responses,
    /// likely persisted somewhere between reads.
    pub fn positions(&mut self, commit: LogPosition, prepare: LogPosition) -> (r: &mut ReadAllEventsBuilder)
        ensures
            (*r)@ == (ReadAllEventsBuilderModel {
                commit_position: Some(commit),
                prepare_position: Some(prepare),
                ..old(self)@
            }),
            *final(self) == *final(r),
    {
        self.commit_position = Some(commit);
        self.prepare_position = Some(prepare);
        self
    }

    /// Sets the maximum number of events to read (required), which must not be zero.
    pub fn max_count(&mut self, count: u8) -> (r: &mut ReadAllEventsBuilder)
        requires
            count > 0,
        ensures
            (*r)@ == (ReadAllEventsBuilderModel { max_count: Some(count), ..old(self)@ }),
            *final(self) == *final(r),
    {
        self.max_count = Some(count);
        self
    }

    /// Whether or not the server should resolve links found in the stream to events of other
    /// streams. Defaults to `true`.
    pub fn resolve_link_tos(&mut self, resolve: bool) -> (r: &mut ReadAllEventsBuilder)
        ensures
            (*r)@ == (ReadAllEventsBuilderModel { resolve_link_tos: Some(resolve), ..old(self)@ }),
            *final(self) == *final(r),
    {
        self.resolve_link_tos = Some(resolve);
        self
    }

    /// Should the server only handle the request if it is the cluster master.
    ///
    /// Defaults to `false`.
    pub fn require_master(&mut self, require: bool) -> (r: &mut ReadAllEventsBuilder)
        ensures
            (*r)@ == (ReadAllEventsBuilderModel { require_master: Some(require), ..old(self)@ }),
            *final(self) == *final(r),
    {
        self.require_master = Some(require);
        self
    }

    fn build_message(&mut self) -> (m: RawMessage)
        requires
            old(self)@.direction is Some,
            old(self)@.commit_position is Some,
            old(self)@.prepare_position is Some,
            old(self)@.max_count is Some,
        ensures
            m@ == RawMessageModel::ReadAllEvents(
                old(self)@.direction->0,
                read_all_events_of(old(self)@),
            ),
            final(self)@ == (ReadAllEventsBuilderModel { direction: None, ..old(self)@ }),
    {
        let dir = match self.direction.take() {
            Some(d) => d,
            None => unreached(),
        };
        let commit = match self.commit_position {
            Some(p) => p,
            None => unreached(),
        };
        let prepare = match self.prepare_position {
            Some(p) => p,
            None => unreached(),
        };
        let max_count = match self.max_count {
            Some(c) => c,
            None => unreached(),
        };
        let resolve_link_tos = match self.resolve_link_tos {
            Some(r) => r,
            None => true,
        };
        let require_master = match self.require_master {
            Some(r) => r,
            None => false,
        };
        RawMessage::ReadAllEvents(
            dir,
            ReadAllEvents {
                commit_position: commit.to_i64(),
                prepare_position: prepare.to_i64(),
                max_count: max_count as i32,
                resolve_link_tos: resolve_link_tos,
                require_master: require_master,
            },
        )
    }

    /// Builds the package; the direction, the positions and the maximum count must have been
    /// set. The direction is moved into the package, which leaves it unset.
    pub fn build_package(&mut self, authentication: Option<UsernamePassword>, correlation_id: Option<[u8; 16]>) -> (p: Package)
        requires
            old(self)@.direction is Some,
            old(self)@.commit_position is Some,
            old(self)@.prepare_position is Some,
            old(self)@.max_count is Some,
        ensures
            p.message@ == RawMessageModel::ReadAllEvents(
                old(self)@.direction->0,
                read_all_events_of(old(self)@),
            ),
            p.authentication == authentication,
            correlation_id matches Some(c) ==> p.correlation_id == c,
            correlation_id is None ==> is_v4_uuid(p.correlation_id@),
            final(self)@ == (ReadAllEventsBuilderModel { direction: None, ..old(self)@ }),
    {
        build_package(self.build_message(), authentication, correlation_id)
    }
}

/// Builder for `DeleteStream`.
pub struct DeleteStreamBuilder {
    event_stream_id: Option<String>,
    expected_version: Option<ExpectedVersion>,
    require_master: Option<bool>,
    hard_delete: Option<bool>,
}

/// The properties set on a `DeleteStreamBuilder`.
pub struct DeleteStreamBuilderModel {
    pub event_stream_id: Option<Seq<char>>,
    pub expected_version: Option<ExpectedVersion>,
    pub require_master: Option<bool>,
    pub hard_delete: Option<bool>,
}

impl View for DeleteStreamBuilder {
    type V = DeleteStreamBuilderModel;

    closed spec fn view(&self) -> DeleteStreamBuilderModel {
        DeleteStreamBuilderModel {
            event_stream_id: match self.event_stream_id {
                Some(s) => Some(s@),
                None => None,
            },
            expected_version: self.expected_version,
            require_master: self.require_master,
            hard_delete: self.hard_delete,
        }
    }
}

/// A `DeleteStreamBuilder` with nothing set.
pub open spec fn delete_stream_builder_empty() -> DeleteStreamBuilderModel {
    DeleteStreamBuilderModel {
        event_stream_id: None,
        expected_version: None,
        require_master: None,
        hard_delete: None,
    }
}

/// The request built: no master required and a soft delete unless set.
pub open spec fn delete_stream_of(b: DeleteStreamBuilderModel) -> DeleteStreamModel {
    DeleteStreamModel {
        event_stream_id: b.event_stream_id->0,
        expected_version: expected_version_to_i32(b.expected_version->0),
        require_master: match b.require_master {
            Some(r) => r,
            None => false,
        },
        hard_delete: Some(
            match b.hard_delete {
                Some(h) => h,
                None => false,
            },
        ),
    }
}

impl DeleteStreamBuilder {
    /// A builder with nothing set.
    pub fn new() -> (b: DeleteStreamBuilder)
        ensures
            b@ == delete_stream_builder_empty(),
    {
        DeleteStreamBuilder {
            event_stream_id: None,
            expected_version: None,
            require_master: None,
            hard_delete: None,
        }
    }

    /// Sets the stream to delete; the id must not be empty.
    pub fn stream_id(&mut self, id: &str) -> (r: &mut DeleteStreamBuilder)
        requires
            id@.len() > 0,
        ensures
            (*r)@ == (DeleteStreamBuilderModel { event_stream_id: Some(id@), ..old(self)@ }),
            *final(self) == *final(r),
    {
        self.event_stream_id = Some(String::from_str(id));
        self
    }

    /// Sets the expected version of the stream as an optimistic locking mechanism.
    pub fn expected_version(&mut self, version: ExpectedVersion) -> (r: &mut DeleteStreamBuilder)
        ensures
            (*r)@ == (DeleteStreamBuilderModel { expected_version: Some(version), ..old(self)@ }),
            *final(self) == *final(r),
    {
        self.expected_version = Some(version);
        self
    }

    /// Should the server only handle the request if it is the cluster master.
    ///
    /// Defaults to `false`.
    pub fn require_master(&mut self, require: bool) -> (r: &mut DeleteStreamBuilder)
        ensures
            (*r)@ == (DeleteStreamBuilderModel { require_master: Some(require), ..old(self)@ }),
            *final(self) == *final(r),
    {
        self.require_master = Some(require);
        self
    }

    /// Set to `true` to actually delete data instead of just marking the stream as deleted.
    /// Data may be deleted in the next scavenge operation.
    ///
    /// Defaults to `false`.
    pub fn hard_delete(&mut self, hard_delete: bool) -> (r: &mut DeleteStreamBuilder)
        ensures
            (*r)@ == (DeleteStreamBuilderModel { hard_delete: Some(hard_delete), ..old(self)@ }),
            *final(self) == *final(r),
    {
        self.hard_delete = Some(hard_delete);
        self
    }

    fn build_message(&mut self) -> (m: RawMessage)
        requires
            old(self)@.event_stream_id is Some,
            old(self)@.expected_version is Some,
        ensures
            m@ == RawMessageModel::DeleteStream(delete_stream_of(old(self)@)),
            final(self)@ == (DeleteStreamBuilderModel {
                event_stream_id: None,
                expected_version: None,
                ..old(self)@
            }),
    {
        let id = match self.event_stream_id.take() {
            Some(id) => id,
            None => unreached(),
        };
        let version = match self.expected_version.take() {
            Some(v) => v,
            None => unreached(),
        };
        let require_master = match self.require_master {
            Some(r) => r,
            None => false,
        };
        let hard_delete = match self.hard_delete {
            Some(h) => h,
            None => false,
        };
        RawMessage::DeleteStream(
            DeleteStream {
                event_stream_id: id,
                expected_version: version.to_i32(),
                require_master: require_master,
                hard_delete: Some(hard_delete),
            },
        )
    }

    /// Builds the package; the stream id and the expected version must have been set. Both are
    /// moved into the package, which leaves them unset.
    pub fn build_package(&mut self, authentication: Option<UsernamePassword>, correlation_id: Option<[u8; 16]>) -> (p: Package)
        requires
            old(self)@.event_stream_id is Some,
            old(self)@.expected_version is Some,
        ensures
            p.message@ == RawMessageModel::DeleteStream(delete_stream_of(old(self)@)),
            p.authentication == authentication,
            correlation_id matches Some(c) ==> p.correlation_id == c,
            correlation_id is None ==> is_v4_uuid(p.correlation_id@),
            final(self)@ == (DeleteStreamBuilderModel {
                event_stream_id: None,
                expected_version: None,
                ..old(self)@
            }),
    {
        build_package(self.build_message(), authentication, correlation_id)
    }
}

/// A write request holds the stream id and the events that were added, in order; the expected
/// version that was set, else any version; the master requirement that was set, else none.
pub proof fn lemma_write_events_built(b: WriteEventsBuilderModel)
    requires
        b.event_stream_id is Some,
    ensures
        write_events_of(b).event_stream_id == b.event_stream_id->0,
        write_events_of(b).events == b.events,
        b.expected_version is None ==> write_events_of(b).expected_version == -2,
        b.expected_version matches Some(v) ==> write_events_of(b).expected_version
            == expected_version_to_i32(v),
        b.require_master is None ==> write_events_of(b).require_master == false,
        b.require_master matches Some(x) ==> write_events_of(b).require_master == x,
{
}

/// A new event holds the id it is given, the type, data and metadata that were set, and the
/// content types that were set, else bytes (0).
pub proof fn lemma_new_event_built(b: NewEventBuilderModel, id: Seq<u8>)
    requires
        b.event_type is Some,
        b.data is Some,
    ensures
        new_event_of(b, id).event_id == id,
        new_event_of(b, id).event_type == b.event_type->0,
        new_event_of(b, id).data == b.data->0,
        new_event_of(b, id).metadata == b.metadata,
        b.data_content_type is None ==> new_event_of(b, id).data_content_type == 0,
        b.data_content_type matches Some(c) ==> new_event_of(b, id).data_content_type
            == content_type_to_i32(c),
        b.metadata_content_type is None ==> new_event_of(b, id).metadata_content_type == 0,
        b.metadata_content_type matches Some(c) ==> new_event_of(b, id).metadata_content_type
            == content_type_to_i32(c),
{
}

/// A single event read holds the stream id and event number that were set; links are
/// resolved unless that was turned off, and no master is required unless that was asked for.
pub proof fn lemma_read_event_built(b: ReadEventBuilderModel)
    requires
        b.event_stream_id is Some,
        b.event_number is Some,
    ensures
        read_event_of(b).event_stream_id == b.event_stream_id->0,
        read_event_of(b).event_number == event_number_to_i32(b.event_number->0),
        b.resolve_link_tos is None ==> read_event_of(b).resolve_link_tos == true,
        b.resolve_link_tos matches Some(x) ==> read_event_of(b).resolve_link_tos == x,
        b.require_master is None ==> read_event_of(b).require_master == false,
        b.require_master matches Some(x) ==> read_event_of(b).require_master == x,
{
}

/// A stream read holds the stream id, start and count that were set; links are resolved
/// unless that was turned off, and no master is required unless that was asked for.
pub proof fn lemma_read_stream_events_built(b: ReadStreamEventsBuilderModel)
    requires
        b.event_stream_id is Some,
        b.from_event_number is Some,
        b.max_count is Some,
    ensures
        read_stream_events_of(b).event_stream_id == b.event_stream_id->0,
        read_stream_events_of(b).from_event_number == event_number_to_i32(b.from_event_number->0),
        read_stream_events_of(b).max_count == b.max_count->0,
        b.resolve_link_tos is None ==> read_stream_events_of(b).resolve_link_tos == true,
        b.resolve_link_tos matches Some(x) ==> read_stream_events_of(b).resolve_link_tos == x,
        b.require_master is None ==> read_stream_events_of(b).require_master == false,
        b.require_master matches Some(x) ==> read_stream_events_of(b).require_master == x,
{
}

/// A read of all events holds the positions and count that were set; links are resolved
/// unless that was turned off, and no master is required unless that was asked for.
pub proof fn lemma_read_all_events_built(b: ReadAllEventsBuilderModel)
    requires
        b.commit_position is Some,
        b.prepare_position is Some,
        b.max_count is Some,
    ensures
        read_all_events_of(b).commit_position == log_position_to_i64(b.commit_position->0),
        read_all_events_of(b).prepare_position == log_position_to_i64(b.prepare_position->0),
        read_all_events_of(b).max_count == b.max_count->0,
        b.resolve_link_tos is None ==> read_all_events_of(b).resolve_link_tos == true,
        b.resolve_link_tos matches Some(x) ==> read_all_events_of(b).resolve_link_tos == x,
        b.require_master is None ==> read_all_events_of(b).require_master == false,
        b.require_master matches Some(x) ==> read_all_events_of(b).require_master == x,
{
}

/// A delete request holds the stream id and expected version that were set; no master is
/// required unless that was asked for, and the delete is soft (`Some(false)`) unless a hard
/// delete was asked for.
pub proof fn lemma_delete_stream_built(b: DeleteStreamBuilderModel)
    requires
        b.event_stream_id is Some,
        b.expected_version is Some,
    ensures
        delete_stream_of(b).event_stream_id == b.event_stream_id->0,
        delete_stream_of(b).expected_version == expected_version_to_i32(b.expected_version->0),
        b.require_master is None ==> delete_stream_of(b).require_master == false,
        b.require_master matches Some(x) ==> delete_stream_of(b).require_master == x,
        b.hard_delete is None ==> delete_stream_of(b).hard_delete == Some(false),
        b.hard_delete matches Some(h) ==> delete_stream_of(b).hard_delete == Some(h),
{
}

} // verus!
