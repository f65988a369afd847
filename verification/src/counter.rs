//! Counter tracks: named numeric time series that are written to a trace
//! directly, not through a thread's log.

use vstd::prelude::*;
use crate::packet::text_view;
use crate::packet::Unit;

verus! {

/// Units for counter tracks.
#[derive(Debug, Clone)]
pub enum CounterUnit {
    /// Unspecified unit.
    Unspecified,
    /// Time in nanoseconds.
    TimeNs,
    /// Generic count.
    Count,
    /// Size in bytes.
    SizeBytes,
    /// Custom unit with a name (e.g., "%", "fps", etc.).
    Custom(String),
}

impl CounterUnit {
    /// The built-in unit that a track descriptor names for this unit. A
    /// custom unit is described by its name alone.
    pub open spec fn proto_unit(self) -> Option<Unit> {
        Some(
            match self {
                CounterUnit::Unspecified => Unit::Unspecified,
                CounterUnit::TimeNs => Unit::TimeNs,
                CounterUnit::Count => Unit::Count,
                CounterUnit::SizeBytes => Unit::SizeBytes,
                CounterUnit::Custom(_) => Unit::Unspecified,
            },
        )
    }

    /// The unit name that a track descriptor carries: that of a custom
    /// unit.
    pub open spec fn proto_unit_name(self) -> Option<Seq<char>> {
        match self {
            CounterUnit::Custom(name) => Some(name@),
            _ => None,
        }
    }

    /// The built-in unit for a track descriptor.
    pub fn to_proto_unit(&self) -> (unit: Option<Unit>)
        ensures
            unit == self.proto_unit(),
    {
        Some(
            match self {
                CounterUnit::Unspecified => Unit::Unspecified,
                CounterUnit::TimeNs => Unit::TimeNs,
                CounterUnit::Count => Unit::Count,
                CounterUnit::SizeBytes => Unit::SizeBytes,
                CounterUnit::Custom(_) => Unit::Unspecified,
            },
        )
    }

    /// The unit name for a track descriptor.
    pub fn to_proto_unit_name(&self) -> (name: Option<String>)
        ensures
            text_view(name) == self.proto_unit_name(),
    {
        if let CounterUnit::Custom(name) = self {
            Some(name.clone())
        } else {
            None
        }
    }
}

/// A handle to a counter track that can be used to record counter values.
#[derive(Debug, Clone, Copy)]
pub struct CounterTrack {
    uuid: u64,
}

impl CounterTrack {
    /// The id of the track.
    pub closed spec fn id(self) -> u64 {
        self.uuid
    }

    /// The handle of the track `uuid`.
    pub(crate) fn of(uuid: u64) -> (track: CounterTrack)
        ensures
            track.id() == uuid,
    {
        CounterTrack { uuid }
    }

    /// The id of the track.
    pub fn uuid(&self) -> (uuid: u64)
        ensures
            uuid == self.id(),
    {
        self.uuid
    }
}

} // verus!
