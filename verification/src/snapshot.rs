//! The metric record types and the versioned snapshot container.
//!
//! A snapshot carries a capture timestamp, free-form metadata and three
//! record collections.  Two schema versions coexist on the wire: the older
//! one has no duration field.  The tagged union over the two offers
//! version-transparent accessors; the collection accessors drain their field
//! (move it out and leave it empty) so that projecting a large snapshot
//! copies nothing.  A second call to a drain accessor returns an empty
//! result: that is the documented move-out design, not an oversight.

use vstd::prelude::*;
use crate::metadata::Metadata;
use crate::time::{Duration, Timestamp};

verus! {

/// A monotonic counter reading.
#[derive(Clone, Debug)]
pub struct Counter {
    pub name: String,
    pub value: u64,
    pub metadata: Metadata,
}

/// An instantaneous level reading; may be negative.
#[derive(Clone, Debug)]
pub struct Gauge {
    pub name: String,
    pub value: i64,
    pub metadata: Metadata,
}

/// A bucketed distribution reading.  The value is the histogram crate's own
/// bucketed type, carried through opaquely: nothing here reads inside it.
#[derive(Debug)]
pub struct Histogram {
    pub name: String,
    pub value: histogram::Histogram,
    pub metadata: Metadata,
}

/// The older snapshot schema: no duration field.
#[derive(Debug)]
pub struct SnapshotV1 {
    pub systemtime: Timestamp,
    pub metadata: Metadata,
    pub counters: Vec<Counter>,
    pub gauges: Vec<Gauge>,
    pub histograms: Vec<Histogram>,
}

/// The current snapshot schema: also records the time elapsed since the
/// previous snapshot, which lets consumers compute rates.
#[derive(Debug)]
pub struct SnapshotV2 {
    pub systemtime: Timestamp,
    pub duration: Duration,
    pub metadata: Metadata,
    pub counters: Vec<Counter>,
    pub gauges: Vec<Gauge>,
    pub histograms: Vec<Histogram>,
}

/// A snapshot of metric readings, in either schema version.
#[derive(Debug)]
pub enum Snapshot {
    V1(SnapshotV1),
    V2(SnapshotV2),
}

impl Snapshot {
    /// The capture instant.
    pub open spec fn spec_systemtime(&self) -> Timestamp {
        match self {
            Snapshot::V1(s) => s.systemtime,
            Snapshot::V2(s) => s.systemtime,
        }
    }

    /// The elapsed duration: absent for the older schema.
    pub open spec fn spec_duration(&self) -> Option<Duration> {
        match self {
            Snapshot::V1(_) => None,
            Snapshot::V2(s) => Some(s.duration),
        }
    }

    /// The top-level metadata.
    pub open spec fn spec_metadata(&self) -> Metadata {
        match self {
            Snapshot::V1(s) => s.metadata,
            Snapshot::V2(s) => s.metadata,
        }
    }

    /// The counter records.
    pub open spec fn spec_counters(&self) -> Seq<Counter> {
        match self {
            Snapshot::V1(s) => s.counters@,
            Snapshot::V2(s) => s.counters@,
        }
    }

    /// The gauge records.
    pub open spec fn spec_gauges(&self) -> Seq<Gauge> {
        match self {
            Snapshot::V1(s) => s.gauges@,
            Snapshot::V2(s) => s.gauges@,
        }
    }

    /// The histogram records.
    pub open spec fn spec_histograms(&self) -> Seq<Histogram> {
        match self {
            Snapshot::V1(s) => s.histograms@,
            Snapshot::V2(s) => s.histograms@,
        }
    }

    /// True when both values are the same schema version.
    pub open spec fn same_version(&self, other: &Snapshot) -> bool {
        self is V1 <==> other is V1
    }

    /// The capture instant, for either schema version.  Non-destructive.
    pub fn systemtime(&self) -> (r: Timestamp)
        ensures
            r == self.spec_systemtime(),
    {
        match self {
            Snapshot::V1(s) => s.systemtime,
            Snapshot::V2(s) => s.systemtime,
        }
    }

    /// The elapsed duration: `None` for the older schema, which never
    /// recorded one — absence is not a zero duration.  Non-destructive.
    pub fn duration(&self) -> (r: Option<Duration>)
        ensures
            r == self.spec_duration(),
            self is V1 ==> r is None,
            self is V2 ==> r == Some(self.spec_duration()->Some_0),
    {
        match self {
            Snapshot::V1(_) => None,
            Snapshot::V2(s) => Some(s.duration),
        }
    }

    /// Drains and returns the top-level metadata, leaving an empty mapping
    /// behind; a second call returns an empty mapping.
    pub fn metadata(&mut self) -> (r: Metadata)
        ensures
            r == old(self).spec_metadata(),
            final(self).spec_metadata().pairs() == Seq::<(Seq<char>, Seq<char>)>::empty(),
            final(self).same_version(old(self)),
            final(self).spec_systemtime() == old(self).spec_systemtime(),
            final(self).spec_duration() == old(self).spec_duration(),
            final(self).spec_counters() == old(self).spec_counters(),
            final(self).spec_gauges() == old(self).spec_gauges(),
            final(self).spec_histograms() == old(self).spec_histograms(),
    {
        let mut tmp = Metadata::new();
        match self {
            Snapshot::V1(s) => core::mem::swap(&mut s.metadata, &mut tmp),
            Snapshot::V2(s) => core::mem::swap(&mut s.metadata, &mut tmp),
        }
        tmp
    }

    /// Drains and returns the counter records, leaving the collection
    /// empty; a second call returns an empty collection.
    pub fn counters(&mut self) -> (r: Vec<Counter>)
        ensures
            r@ == old(self).spec_counters(),
            final(self).spec_counters() == Seq::<Counter>::empty(),
            final(self).same_version(old(self)),
            final(self).spec_systemtime() == old(self).spec_systemtime(),
            final(self).spec_duration() == old(self).spec_duration(),
            final(self).spec_metadata() == old(self).spec_metadata(),
            final(self).spec_gauges() == old(self).spec_gauges(),
            final(self).spec_histograms() == old(self).spec_histograms(),
    {
        let mut tmp = Vec::new();
        match self {
            Snapshot::V1(s) => core::mem::swap(&mut s.counters, &mut tmp),
            Snapshot::V2(s) => core::mem::swap(&mut s.counters, &mut tmp),
        }
        proof {
            assert(self.spec_counters() =~= Seq::<Counter>::empty());
        }
        tmp
    }

    /// Drains and returns the gauge records, leaving the collection empty;
    /// a second call returns an empty collection.
    pub fn gauges(&mut self) -> (r: Vec<Gauge>)
        ensures
            r@ == old(self).spec_gauges(),
            final(self).spec_gauges() == Seq::<Gauge>::empty(),
            final(self).same_version(old(self)),
            final(self).spec_systemtime() == old(self).spec_systemtime(),
            final(self).spec_duration() == old(self).spec_duration(),
            final(self).spec_metadata() == old(self).spec_metadata(),
            final(self).spec_counters() == old(self).spec_counters(),
            final(self).spec_histograms() == old(self).spec_histograms(),
    {
        let mut tmp = Vec::new();
        match self {
            Snapshot::V1(s) => core::mem::swap(&mut s.gauges, &mut tmp),
            Snapshot::V2(s) => core::mem::swap(&mut s.gauges, &mut tmp),
        }
        proof {
            assert(self.spec_gauges() =~= Seq::<Gauge>::empty());
        }
        tmp
    }

    /// Drains and returns the histogram records, leaving the collection
    /// empty; a second call returns an empty collection.
    pub fn histograms(&mut self) -> (r: Vec<Histogram>)
        ensures
            r@ == old(self).spec_histograms(),
            final(self).spec_histograms() == Seq::<Histogram>::empty(),
            final(self).same_version(old(self)),
            final(self).spec_systemtime() == old(self).spec_systemtime(),
            final(self).spec_duration() == old(self).spec_duration(),
            final(self).spec_metadata() == old(self).spec_metadata(),
            final(self).spec_counters() == old(self).spec_counters(),
            final(self).spec_gauges() == old(self).spec_gauges(),
    {
        let mut tmp = Vec::new();
        match self {
            Snapshot::V1(s) => core::mem::swap(&mut s.histograms, &mut tmp),
            Snapshot::V2(s) => core::mem::swap(&mut s.histograms, &mut tmp),
        }
        proof {
            assert(self.spec_histograms() =~= Seq::<Histogram>::empty());
        }
        tmp
    }
}

} // verus!
