//! The hashed snapshot projection: a snapshot re-keyed by canonical metric
//! name for direct lookup.
//!
//! Projecting consumes the snapshot: each record collection is drained, every
//! record's canonical name is derived from its raw name and metadata, and the
//! records are stored under those names, later records overwriting earlier
//! ones whose names collide.  The capture instant becomes an unsigned
//! nanosecond count since the Unix epoch; an instant before the epoch is an
//! unrecoverable environment fault, never a wrapped count.

use vstd::prelude::*;
use crate::canonical::{canonical_name, canonicalize_metric_name};
use crate::recmap::RecordMap;
use crate::snapshot::{Counter, Gauge, Histogram, Snapshot};

verus! {

/// The canonical name of a counter record.
pub open spec fn counter_key(c: Counter) -> Seq<char> {
    canonical_name(c.name@, c.metadata.pairs())
}

/// The canonical name of a gauge record.
pub open spec fn gauge_key(g: Gauge) -> Seq<char> {
    canonical_name(g.name@, g.metadata.pairs())
}

/// The canonical name of a histogram record.
pub open spec fn histogram_key(h: Histogram) -> Seq<char> {
    canonical_name(h.name@, h.metadata.pairs())
}

/// The mapping that projecting a counter sequence produces: every record
/// keyed by its canonical name, later records overwriting earlier ones.
pub open spec fn hashed_counters(s: Seq<Counter>) -> Map<Seq<char>, Counter>
    decreases s.len(),
{
    if s.len() == 0 {
        Map::<Seq<char>, Counter>::empty()
    } else {
        hashed_counters(s.drop_last()).insert(counter_key(s.last()), s.last())
    }
}

/// The mapping that projecting a gauge sequence produces.
pub open spec fn hashed_gauges(s: Seq<Gauge>) -> Map<Seq<char>, Gauge>
    decreases s.len(),
{
    if s.len() == 0 {
        Map::<Seq<char>, Gauge>::empty()
    } else {
        hashed_gauges(s.drop_last()).insert(gauge_key(s.last()), s.last())
    }
}

/// The mapping that projecting a histogram sequence produces.
pub open spec fn hashed_histograms(s: Seq<Histogram>) -> Map<Seq<char>, Histogram>
    decreases s.len(),
{
    if s.len() == 0 {
        Map::<Seq<char>, Histogram>::empty()
    } else {
        hashed_histograms(s.drop_last()).insert(histogram_key(s.last()), s.last())
    }
}

/// A snapshot re-keyed by canonical metric name.
pub struct HashedSnapshot {
    /// Capture instant, in nanoseconds since the Unix epoch.
    pub ts: u64,
    /// Elapsed duration in nanoseconds, when the snapshot recorded one.
    pub duration: Option<u64>,
    pub counters: RecordMap<Counter>,
    pub gauges: RecordMap<Gauge>,
    pub histograms: RecordMap<Histogram>,
}

impl HashedSnapshot {
    /// Projects a snapshot, consuming it, and reports failure instead of
    /// wrapping: the result is `None` exactly when the capture instant
    /// predates the Unix epoch or a nanosecond count does not fit 64 bits.
    pub fn try_from_snapshot(snapshot: Snapshot) -> (r: Option<HashedSnapshot>)
        requires
            snapshot.spec_systemtime().wf(),
            snapshot.spec_duration() matches Some(d) ==> d.wf(),
        ensures
            r is Some <==> {
                &&& !snapshot.spec_systemtime().before_epoch()
                &&& snapshot.spec_systemtime().epoch_nanos() <= u64::MAX
                &&& (snapshot.spec_duration() matches Some(d) ==> d.as_nanos() <= u64::MAX)
            },
            r matches Some(h) ==> {
                &&& h.ts == snapshot.spec_systemtime().epoch_nanos()
                &&& (match snapshot.spec_duration() {
                    Some(d) => h.duration == Some(d.as_nanos() as u64),
                    None => h.duration is None,
                })
                &&& h.counters.as_map() == hashed_counters(snapshot.spec_counters())
                &&& h.gauges.as_map() == hashed_gauges(snapshot.spec_gauges())
                &&& h.histograms.as_map() == hashed_histograms(snapshot.spec_histograms())
            },
    {
        let mut snapshot = snapshot;
        let ts: u64 = match snapshot.systemtime().checked_epoch_nanos() {
            Some(n) => n,
            None => {
                return None;
            },
        };
        let duration: Option<u64> = match snapshot.duration() {
            Some(d) => match d.checked_nanos() {
                Some(n) => Some(n),
                None => {
                    return None;
                },
            },
            None => None,
        };
        let counters = hash_counters(snapshot.counters());
        let gauges = hash_gauges(snapshot.gauges());
        let histograms = hash_histograms(snapshot.histograms());
        Some(HashedSnapshot { ts, duration, counters, gauges, histograms })
    }

    /// Projects a snapshot, consuming it.  The caller owes a capture instant
    /// at or after the Unix epoch whose nanosecond count, like the
    /// duration's, fits 64 bits; a clock that predates the epoch is a fatal
    /// precondition violation, not a reportable error.
    pub fn from_snapshot(snapshot: Snapshot) -> (r: HashedSnapshot)
        requires
            snapshot.spec_systemtime().wf(),
            !snapshot.spec_systemtime().before_epoch(),
            snapshot.spec_systemtime().epoch_nanos() <= u64::MAX,
            snapshot.spec_duration() matches Some(d) ==> d.wf() && d.as_nanos() <= u64::MAX,
        ensures
            r.ts == snapshot.spec_systemtime().epoch_nanos(),
            match snapshot.spec_duration() {
                Some(d) => r.duration == Some(d.as_nanos() as u64),
                None => r.duration is None,
            },
            r.counters.as_map() == hashed_counters(snapshot.spec_counters()),
            r.gauges.as_map() == hashed_gauges(snapshot.spec_gauges()),
            r.histograms.as_map() == hashed_histograms(snapshot.spec_histograms()),
    {
        match Self::try_from_snapshot(snapshot) {
            Some(h) => h,
            None => vstd::pervasive::unreached(),
        }
    }
}

/// Re-keys a counter collection by canonical name, in input order.
fn hash_counters(records: Vec<Counter>) -> (r: RecordMap<Counter>)
    ensures
        r.as_map() == hashed_counters(records@),
{
    let ghost all = records@;
    let mut records = records;
    let n = records.len();
    proof {
        assert(all.len() == n);
    }
    let mut m = RecordMap::<Counter>::new();
    let mut i: usize = 0;
    proof {
        assert(all.take(0) =~= Seq::<Counter>::empty());
    }
    while records.len() > 0
        invariant
            i + records.len() == all.len(),
            all.len() <= usize::MAX,
            records@ =~= all.skip(i as int),
            m.as_map() == hashed_counters(all.take(i as int)),
        decreases records.len(),
    {
        let c = records.remove(0);
        proof {
            assert(c == all[i as int]);
        }
        let key = canonicalize_metric_name(c.name.as_str(), &c.metadata);
        m.insert(key, c);
        proof {
            assert(all.take(i as int + 1).drop_last() =~= all.take(i as int));
            assert(all.take(i as int + 1).last() == all[i as int]);
            assert(records@ =~= all.skip(i as int + 1));
        }
        i = i + 1;
    }
    proof {
        assert(all.take(all.len() as int) =~= all);
    }
    m
}

/// Re-keys a gauge collection by canonical name, in input order.
fn hash_gauges(records: Vec<Gauge>) -> (r: RecordMap<Gauge>)
    ensures
        r.as_map() == hashed_gauges(records@),
{
    let ghost all = records@;
    let mut records = records;
    let n = records.len();
    proof {
        assert(all.len() == n);
    }
    let mut m = RecordMap::<Gauge>::new();
    let mut i: usize = 0;
    proof {
        assert(all.take(0) =~= Seq::<Gauge>::empty());
    }
    while records.len() > 0
        invariant
            i + records.len() == all.len(),
            all.len() <= usize::MAX,
            records@ =~= all.skip(i as int),
            m.as_map() == hashed_gauges(all.take(i as int)),
        decreases records.len(),
    {
        let g = records.remove(0);
        proof {
            assert(g == all[i as int]);
        }
        let key = canonicalize_metric_name(g.name.as_str(), &g.metadata);
        m.insert(key, g);
        proof {
            assert(all.take(i as int + 1).drop_last() =~= all.take(i as int));
            assert(all.take(i as int + 1).last() == all[i as int]);
            assert(records@ =~= all.skip(i as int + 1));
        }
        i = i + 1;
    }
    proof {
        assert(all.take(all.len() as int) =~= all);
    }
    m
}

/// Re-keys a histogram collection by canonical name, in input order.
fn hash_histograms(records: Vec<Histogram>) -> (r: RecordMap<Histogram>)
    ensures
        r.as_map() == hashed_histograms(records@),
{
    let ghost all = records@;
    let mut records = records;
    let n = records.len();
    proof {
        assert(all.len() == n);
    }
    let mut m = RecordMap::<Histogram>::new();
    let mut i: usize = 0;
    proof {
        assert(all.take(0) =~= Seq::<Histogram>::empty());
    }
    while records.len() > 0
        invariant
            i + records.len() == all.len(),
            all.len() <= usize::MAX,
            records@ =~= all.skip(i as int),
            m.as_map() == hashed_histograms(all.take(i as int)),
        decreases records.len(),
    {
        let h = records.remove(0);
        proof {
            assert(h == all[i as int]);
        }
        let key = canonicalize_metric_name(h.name.as_str(), &h.metadata);
        m.insert(key, h);
        proof {
            assert(all.take(i as int + 1).drop_last() =~= all.take(i as int));
            assert(all.take(i as int + 1).last() == all[i as int]);
            assert(records@ =~= all.skip(i as int + 1));
        }
        i = i + 1;
    }
    proof {
        assert(all.take(all.len() as int) =~= all);
    }
    m
}

/// Collision resolution is last-write-wins: when no later record shares a
/// record's canonical name, the projected mapping holds exactly that record
/// under that name.  Two counters that canonicalize alike therefore leave
/// one entry: the one processed last in input order.
pub proof fn lemma_hashed_counters_last_wins(s: Seq<Counter>, j: int)
    requires
        0 <= j < s.len(),
        forall|m: int| j < m < s.len() ==> counter_key(s[m]) != counter_key(s[j]),
    ensures
        hashed_counters(s).contains_key(counter_key(s[j])),
        hashed_counters(s)[counter_key(s[j])] == s[j],
    decreases s.len(),
{
    if j == s.len() - 1 {
        assert(s.last() == s[j]);
    } else {
        assert(s.drop_last()[j] == s[j]);
        assert forall|m: int| j < m < s.drop_last().len() implies counter_key(s.drop_last()[m])
            != counter_key(s.drop_last()[j]) by {
            assert(s.drop_last()[m] == s[m]);
        }
        lemma_hashed_counters_last_wins(s.drop_last(), j);
        assert(counter_key(s.last()) != counter_key(s[j]));
    }
}

/// Counters that all canonicalize to the same name collapse to exactly one
/// entry under that name, holding the record processed last in input order.
pub proof fn lemma_hashed_counters_all_collide(s: Seq<Counter>, k: Seq<char>)
    requires
        s.len() > 0,
        forall|i: int| 0 <= i < s.len() ==> counter_key(s[i]) == k,
    ensures
        hashed_counters(s).dom() == Set::<Seq<char>>::empty().insert(k),
        hashed_counters(s)[k] == s.last(),
{
    lemma_hashed_counters_last_wins(s, s.len() - 1);
    assert(hashed_counters(s).dom() =~= Set::<Seq<char>>::empty().insert(k)) by {
        assert forall|q: Seq<char>| hashed_counters(s).contains_key(q) implies q == k by {
            lemma_hashed_counters_dom(s, q);
            let i = choose|i: int| 0 <= i < s.len() && counter_key(s[i]) == q;
            assert(counter_key(s[i]) == k);
        }
    }
}

/// Every canonical name in the projected counter mapping names some record,
/// and every record's canonical name is in the mapping.
pub proof fn lemma_hashed_counters_dom(s: Seq<Counter>, k: Seq<char>)
    ensures
        hashed_counters(s).contains_key(k) <==> exists|i: int|
            0 <= i < s.len() && counter_key(s[i]) == k,
    decreases s.len(),
{
    if s.len() > 0 {
        lemma_hashed_counters_dom(s.drop_last(), k);
        if hashed_counters(s).contains_key(k) {
            if counter_key(s.last()) == k {
                assert(counter_key(s[s.len() - 1]) == k);
            } else {
                let i = choose|i: int| 0 <= i < s.drop_last().len() && counter_key(
                    s.drop_last()[i],
                ) == k;
                assert(counter_key(s[i]) == k);
            }
        } else {
            assert forall|i: int| 0 <= i < s.len() implies counter_key(s[i]) != k by {
                if i < s.len() - 1 {
                    assert(s.drop_last()[i] == s[i]);
                } else {
                    assert(s[i] == s.last());
                }
            }
        }
    }
}

} // verus!
