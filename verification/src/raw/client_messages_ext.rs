//! Conversions between owned and borrowed messages. The messages of this library own their
//! data, so a message is already owned, and a borrowed one is a copy with the same contents.
use vstd::prelude::*;
use crate::raw::events::ResolvedIndexedEventModel;
use crate::adapted::read_event::read_event_success_as_raw;
use crate::raw::write::WriteEvents;
use crate::raw::write::WriteEventsCompleted;
use crate::raw::events::NewEvent;
use crate::raw::not_handled::MasterInfo;
use crate::raw::read::ReadEvent;
use crate::raw::read::ReadEventCompleted;
use crate::raw::events::ResolvedIndexedEvent;
use crate::raw::events::EventRecord;
use crate::raw::read::ReadStreamEvents;
use crate::raw::events::ResolvedEvent;
use crate::raw::not_handled::NotHandled;
use crate::raw::read::ReadStreamEventsCompleted;
use crate::raw::read::ReadAllEventsCompleted;

verus! {

/// Owning (and borrowing) a `WriteEvents`.
pub trait WriteEventsExt: Sized + View {
    /// This instance, owning all its data.
    fn into_owned(self) -> (r: Self)
        ensures
            r@ == self@,
    ;
}

impl WriteEventsExt for WriteEvents {
    fn into_owned(self) -> (r: Self) {
        self
    }
}

/// Owning (and borrowing) a `WriteEventsCompleted`.
pub trait WriteEventsCompletedExt: Sized + View {
    /// This instance, owning all its data.
    fn into_owned(self) -> (r: Self)
        ensures
            r@ == self@,
    ;
}

impl WriteEventsCompletedExt for WriteEventsCompleted {
    fn into_owned(self) -> (r: Self) {
        self
    }
}

/// Owning (and borrowing) a `NewEvent`.
pub trait NewEventExt: Sized + View {
    /// This instance, owning all its data.
    fn into_owned(self) -> (r: Self)
        ensures
            r@ == self@,
    ;
}

impl NewEventExt for NewEvent {
    fn into_owned(self) -> (r: Self) {
        self
    }
}

/// Owning (and borrowing) a `MasterInfo`.
pub trait MasterInfoExt: Sized + View {
    /// This instance, owning all its data.
    fn into_owned(self) -> (r: Self)
        ensures
            r@ == self@,
    ;
}

impl MasterInfoExt for MasterInfo {
    fn into_owned(self) -> (r: Self) {
        self
    }
}

/// Owning (and borrowing) a `ReadEvent`.
pub trait ReadEventExt: Sized + View {
    /// This instance, owning all its data.
    fn into_owned(self) -> (r: Self)
        ensures
            r@ == self@,
    ;
}

impl ReadEventExt for ReadEvent {
    fn into_owned(self) -> (r: Self) {
        self
    }
}

/// Owning (and borrowing) a `ReadEventCompleted`.
pub trait ReadEventCompletedExt: Sized + View {
    /// This instance, owning all its data.
    fn into_owned(self) -> (r: Self)
        ensures
            r@ == self@,
    ;
}

impl ReadEventCompletedExt for ReadEventCompleted {
    fn into_owned(self) -> (r: Self) {
        self
    }
}

/// Owning (and borrowing) a `ResolvedIndexedEvent`.
pub trait ResolvedIndexedEventExt: Sized + View<V = ResolvedIndexedEventModel> {
    /// This instance, owning all its data.
    fn into_owned(self) -> (r: Self)
        ensures
            r@ == self@,
    ;

    /// An instance with the same contents, which leaves `self` in place.
    fn borrowed(&self) -> (r: Self)
        ensures
            r@ == self@,
    ;

    /// The wire message that a successful read of this event is sent as.
    fn as_read_event_completed(&self) -> (m: ReadEventCompleted)
        ensures
            m@ == read_event_success_as_raw(self@),
    ;
}

impl ResolvedIndexedEventExt for ResolvedIndexedEvent {
    fn into_owned(self) -> (r: Self) {
        self
    }

    fn borrowed(&self) -> (r: Self) {
        self.copy()
    }

    fn as_read_event_completed(&self) -> (m: ReadEventCompleted) {
        self.as_raw()
    }
}

/// Owning (and borrowing) a `EventRecord`.
pub trait EventRecordExt: Sized + View {
    /// This instance, owning all its data.
    fn into_owned(self) -> (r: Self)
        ensures
            r@ == self@,
    ;

    /// An instance with the same contents, which leaves `self` in place.
    fn borrowed(&self) -> (r: Self)
        ensures
            r@ == self@,
    ;
}

impl EventRecordExt for EventRecord {
    fn into_owned(self) -> (r: Self) {
        self
    }

    fn borrowed(&self) -> (r: Self) {
        self.copy()
    }
}

/// Owning (and borrowing) a `ReadStreamEvents`.
pub trait ReadStreamEventsExt: Sized + View {
    /// This instance, owning all its data.
    fn into_owned(self) -> (r: Self)
        ensures
            r@ == self@,
    ;
}

impl ReadStreamEventsExt for ReadStreamEvents {
    fn into_owned(self) -> (r: Self) {
        self
    }
}

/// Owning (and borrowing) a `ResolvedEvent`.
pub trait ResolvedEventExt: Sized + View {
    /// This instance, owning all its data.
    fn into_owned(self) -> (r: Self)
        ensures
            r@ == self@,
    ;

    /// An instance with the same contents, which leaves `self` in place.
    fn borrowed(&self) -> (r: Self)
        ensures
            r@ == self@,
    ;
}

impl ResolvedEventExt for ResolvedEvent {
    fn into_owned(self) -> (r: Self) {
        self
    }

    fn borrowed(&self) -> (r: Self) {
        self.copy()
    }
}

/// Owning (and borrowing) a `NotHandled`.
pub trait NotHandledExt: Sized + View {
    /// This instance, owning all its data.
    fn into_owned(self) -> (r: Self)
        ensures
            r@ == self@,
    ;

    /// An instance with the same contents, which leaves `self` in place.
    fn borrowed(&self) -> (r: Self)
        ensures
            r@ == self@,
    ;
}

impl NotHandledExt for NotHandled {
    fn into_owned(self) -> (r: Self) {
        self
    }

    fn borrowed(&self) -> (r: Self) {
        self.copy()
    }
}

/// Owning (and borrowing) a `ReadStreamEventsCompleted`.
pub trait ReadStreamEventsCompletedExt: Sized + View {
    /// This instance, owning all its data.
    fn into_owned(self) -> (r: Self)
        ensures
            r@ == self@,
    ;

    /// An instance with the same contents, which leaves `self` in place.
    fn borrowed(&self) -> (r: Self)
        ensures
            r@ == self@,
    ;
}

impl ReadStreamEventsCompletedExt for ReadStreamEventsCompleted {
    fn into_owned(self) -> (r: Self) {
        self
    }

    fn borrowed(&self) -> (r: Self) {
        self.copy()
    }
}

/// Owning (and borrowing) a `ReadAllEventsCompleted`.
pub trait ReadAllEventsCompletedExt: Sized + View {
    /// This instance, owning all its data.
    fn into_owned(self) -> (r: Self)
        ensures
            r@ == self@,
    ;

    /// An instance with the same contents, which leaves `self` in place.
    fn borrowed(&self) -> (r: Self)
        ensures
            r@ == self@,
    ;
}

impl ReadAllEventsCompletedExt for ReadAllEventsCompleted {
    fn into_owned(self) -> (r: Self) {
        self
    }

    fn borrowed(&self) -> (r: Self) {
        self.copy()
    }
}

} // verus!
