//! Versioned metric snapshots with deterministic name canonicalization.
//!
//! A snapshot is a point-in-time capture of counter, gauge and histogram
//! readings together with a capture timestamp, optional elapsed duration and
//! free-form metadata.  Two schema versions coexist: the older one has no
//! duration field.  The canonicalization engine derives one deterministic
//! lookup key per metric from its raw name and its metadata, and the hashed
//! projection re-keys every record collection by that canonical name.

mod canonical;
mod codec;
mod error;
mod hashed;
mod hist;
mod metadata;
mod order;
mod recmap;
mod snapshot;
mod time;

pub use canonical::canonical_name;
pub use canonical::canonicalize_metric_name;
pub use canonical::dim_part;
pub use canonical::extra_parts;
pub use canonical::extra_parts_prefix;
pub use canonical::ignored_key;
pub use canonical::lemma_canonicalize_deterministic;
pub use codec::TEXT_FRAME_BYTE;
pub use codec::append_newline;
pub use error::Error;
pub use hashed::HashedSnapshot;
pub use hashed::counter_key;
pub use hashed::gauge_key;
pub use hashed::histogram_key;
pub use hashed::hashed_counters;
pub use hashed::hashed_gauges;
pub use hashed::hashed_histograms;
pub use hashed::lemma_hashed_counters_all_collide;
pub use hashed::lemma_hashed_counters_dom;
pub use hashed::lemma_hashed_counters_last_wins;
pub use metadata::Metadata;
pub use metadata::lemma_metadata_extensional;
pub use metadata::lemma_sorted_pairs_canonical;
pub use metadata::pairs_as_map;
pub use metadata::pairs_lookup;
pub use metadata::sorted_keys;
pub use order::lex_lt;
pub use recmap::RecordMap;
pub use recmap::assoc_as_map;
pub use recmap::assoc_lookup;
pub use snapshot::Counter;
pub use snapshot::Gauge;
pub use snapshot::Histogram;
pub use snapshot::Snapshot;
pub use snapshot::SnapshotV1;
pub use snapshot::SnapshotV2;
pub use time::Duration;
pub use time::Timestamp;
