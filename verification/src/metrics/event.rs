//! Records of the events that occur while tasks and services run.

use crate::data::time::Timestamp;
use crate::id;
use crate::metrics::kind::MetricsEventKind;
use crate::service_type::ServiceType;
use crate::service_uri::Uri;
use crate::task::TaskId;
use vstd::prelude::*;

verus! {

/// Event record identifier: a UUID, held by its 128 bits.
#[derive(Debug, Clone, Copy, PartialEq, Eq, Structural)]
pub struct EventId {
    id: u128,
}

impl View for EventId {
    type V = u128;

    closed spec fn view(&self) -> u128 {
        self.id
    }
}

impl EventId {
    /// A random identifier.
    pub fn new() -> (r: EventId)
        ensures
            id::is_random_uuid(r@),
    {
        EventId { id: id::random_id() }
    }

    /// The identifier of the UUID with these 128 bits.
    pub fn from(uuid: u128) -> (r: EventId)
        ensures
            r@ == uuid,
    {
        EventId { id: uuid }
    }

    /// Reads an identifier from the text of a UUID.
    pub fn parse_str(uuid: &str) -> (r: Result<EventId, ()>)
        ensures
            match r {
                Ok(t) => id::uuid_parse(uuid@) == Some(t@),
                Err(_) => id::uuid_parse(uuid@) is None,
            },
    {
        match id::parse_id(uuid) {
            Some(v) => Ok(EventId { id: v }),
            None => Err(()),
        }
    }

    /// The identifier of the UUID whose 16 bytes, the most significant first, are `bytes`.
    pub fn from_slice(bytes: &[u8]) -> (r: Result<EventId, ()>)
        ensures
            r is Ok <==> bytes@.len() == 16,
            r matches Ok(t) ==> t@ == id::big_endian(bytes@),
    {
        match id::id_from_slice(bytes) {
            Some(v) => Ok(EventId { id: v }),
            None => Err(()),
        }
    }

    /// The hyphenated lowercase text of the identifier.
    pub fn to_text(&self) -> (r: String)
        ensures
            r@ == id::hyphenated(self@),
    {
        id::format_id(self.id)
    }
}

impl Default for EventId {
    fn default() -> (r: EventId)
        ensures
            r@ == 0,
    {
        EventId { id: 0 }
    }
}

/// An event that has occurred: the start of a task, the start of a service, ...
#[derive(Debug)]
pub struct EventRecord {
    event_id: EventId,
    task_id: TaskId,
    task_name: String,
    service_type: ServiceType,
    uri: Uri,
    event: MetricsEventKind,
    timestamp: Timestamp,
}

impl EventRecord {
    /// The record of an event of a task (its service type is the no-op one).
    pub fn with_task(
        task_id: TaskId,
        task_name: String,
        uri: Uri,
        event: MetricsEventKind,
        timestamp: Timestamp,
    ) -> (r: EventRecord)
        ensures
            r.spec_task_id() == task_id,
            r.spec_task_name() == task_name@,
            r.spec_service_type().full_name_view() == "builtin.noop"@,
            r.spec_uri() == uri@,
            r.spec_event() == event,
            r.spec_timestamp() == timestamp@,
    {
        EventRecord {
            event_id: EventId::new(),
            task_id,
            task_name,
            service_type: ServiceType::noop(),
            uri,
            event,
            timestamp,
        }
    }

    /// The record of an event of a service.
    pub fn with_service(
        task_id: TaskId,
        task_name: String,
        service_type: ServiceType,
        uri: Uri,
        event: MetricsEventKind,
        timestamp: Timestamp,
    ) -> (r: EventRecord)
        ensures
            r.spec_task_id() == task_id,
            r.spec_task_name() == task_name@,
            r.spec_service_type() == service_type,
            r.spec_uri() == uri@,
            r.spec_event() == event,
            r.spec_timestamp() == timestamp@,
    {
        EventRecord { event_id: EventId::new(), task_id, task_name, service_type, uri, event, timestamp }
    }

    pub closed spec fn spec_event_id(&self) -> EventId {
        self.event_id
    }

    pub closed spec fn spec_task_id(&self) -> TaskId {
        self.task_id
    }

    pub closed spec fn spec_task_name(&self) -> Seq<char> {
        self.task_name@
    }

    pub closed spec fn spec_service_type(&self) -> ServiceType {
        self.service_type
    }

    pub closed spec fn spec_uri(&self) -> Seq<char> {
        self.uri@
    }

    pub closed spec fn spec_event(&self) -> MetricsEventKind {
        self.event
    }

    pub closed spec fn spec_timestamp(&self) -> (i64, u32) {
        self.timestamp@
    }

    pub fn event_id(&self) -> (r: EventId)
        ensures
            r == self.spec_event_id(),
    {
        self.event_id
    }

    pub fn task_id(&self) -> (r: TaskId)
        ensures
            r == self.spec_task_id(),
    {
        self.task_id
    }

    pub fn task_name(&self) -> (r: &str)
        ensures
            r@ == self.spec_task_name(),
    {
        self.task_name.as_str()
    }

    pub fn service_type(&self) -> (r: &ServiceType)
        ensures
            *r == self.spec_service_type(),
    {
        &self.service_type
    }

    pub fn uri(&self) -> (r: &Uri)
        ensures
            r@ == self.spec_uri(),
    {
        &self.uri
    }

    pub fn event(&self) -> (r: &MetricsEventKind)
        ensures
            *r == self.spec_event(),
    {
        &self.event
    }

    pub fn timestamp(&self) -> (r: &Timestamp)
        ensures
            r@ == self.spec_timestamp(),
    {
        &self.timestamp
    }
}

/// What a record holds: its identifier, the task's identifier and name, the service type,
/// the URI, the event and its time.
pub type RecordView = (EventId, TaskId, Seq<char>, ServiceType, Seq<char>, MetricsEventKind, (i64, u32));

impl View for EventRecord {
    type V = RecordView;

    open spec fn view(&self) -> RecordView {
        (
            self.spec_event_id(),
            self.spec_task_id(),
            self.spec_task_name(),
            self.spec_service_type(),
            self.spec_uri(),
            self.spec_event(),
            self.spec_timestamp(),
        )
    }
}

impl Clone for EventRecord {
    fn clone(&self) -> (r: EventRecord)
        ensures
            r@ == self@,
    {
        EventRecord {
            event_id: self.event_id,
            task_id: self.task_id,
            task_name: self.task_name.clone(),
            service_type: self.service_type.clone(),
            uri: self.uri.clone(),
            event: self.event.clone(),
            timestamp: self.timestamp,
        }
    }
}

/// The events of a task, in the order they occurred.
#[derive(Debug)]
pub struct MetricsEvents {
    raw: Vec<EventRecord>,
}

impl MetricsEvents {
    /// The recorded events, in order.
    pub closed spec fn spec_records(&self) -> Seq<RecordView> {
        Seq::new(self.raw@.len(), |i: int| self.raw@[i]@)
    }

    pub fn new() -> (r: MetricsEvents)
        ensures
            r.spec_records().len() == 0,
    {
        MetricsEvents { raw: Vec::new() }
    }

    /// Records an event after the others.
    pub fn push(&mut self, r: EventRecord)
        ensures
            final(self).spec_records() == old(self).spec_records().push(r@),
    {
        self.raw.push(r);
        proof {
            assert(self.spec_records() =~= old(self).spec_records().push(r@));
        }
    }

    /// Records the events of `records` after the others, in their order.
    pub fn extend(&mut self, records: Vec<EventRecord>)
        ensures
            final(self).spec_records() == old(self).spec_records() + Seq::new(
                records@.len(),
                |i: int| records@[i]@,
            ),
    {
        let mut records = records;
        let ghost added = Seq::new(records@.len(), |i: int| records@[i]@);
        self.raw.append(&mut records);
        proof {
            assert(self.spec_records() =~= old(self).spec_records() + added);
        }
    }

    /// A copy of the records, in order.
    pub fn records(&self) -> (r: Vec<EventRecord>)
        ensures
            r@.len() == self.spec_records().len(),
            forall|i: int| 0 <= i < r@.len() ==> (#[trigger] r@[i])@ == self.spec_records()[i],
    {
        let mut out: Vec<EventRecord> = Vec::new();
        let n = self.raw.len();
        let mut i: usize = 0;
        while i < n
            invariant
                n == self.raw@.len(),
                i <= n,
                out@.len() == i,
                forall|j: int| 0 <= j < i ==> (#[trigger] out@[j])@ == self.raw@[j]@,
            decreases n - i,
        {
            out.push(self.raw[i].clone());
            i = i + 1;
        }
        out
    }
}

} // verus!
