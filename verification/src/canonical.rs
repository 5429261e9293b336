//! Metric-name canonicalization.
//!
//! Older producers publish metrics under their real, human-readable names and
//! no `metric` metadata key.  Newer producers publish opaque names and put the
//! real identity into metadata.  Canonicalization reconciles the two: without
//! a `metric` key the raw name is already canonical; with one, the canonical
//! name is rebuilt from the metadata, starting from the base name, then the
//! dimension keys `name`, `op`, `state`, `direction` in that fixed order,
//! then every remaining non-ignored key in ascending lexicographic key order,
//! and finally the `id` key as a trailing disambiguator.

use vstd::prelude::*;
use vstd::string::StringExecFns;
use crate::metadata::{Metadata, pairs_lookup};
use crate::order::str_eq;

verus! {

/// True for keys that never contribute a value of their own to the
/// canonical name: the bookkeeping keys and the keys already handled
/// elsewhere (`metric`, the dimension keys, and `id`).
pub open spec fn ignored_key(k: Seq<char>) -> bool {
    ||| k == "metric"@
    ||| k == "unit"@
    ||| k == "grouping_power"@
    ||| k == "max_value_power"@
    ||| k == "id"@
    ||| k == "name"@
    ||| k == "op"@
    ||| k == "state"@
    ||| k == "direction"@
}

/// The piece a single looked-up key contributes: `"/" + value` when the key
/// is present, nothing otherwise.
pub open spec fn dim_part(p: Seq<(Seq<char>, Seq<char>)>, k: Seq<char>) -> Seq<char> {
    match pairs_lookup(p, k) {
        Some(v) => "/"@ + v,
        None => Seq::<char>::empty(),
    }
}

/// The pieces contributed by the first `n` entries whose keys are not
/// ignored, in entry order.
pub open spec fn extra_parts_prefix(p: Seq<(Seq<char>, Seq<char>)>, n: int) -> Seq<char>
    decreases n,
{
    if n <= 0 {
        Seq::<char>::empty()
    } else {
        extra_parts_prefix(p, n - 1) + (if ignored_key(p[n - 1].0) {
            Seq::<char>::empty()
        } else {
            "/"@ + p[n - 1].1
        })
    }
}

/// The pieces contributed by all non-ignored keys, in entry order (ascending
/// key order for a well-formed mapping).
pub open spec fn extra_parts(p: Seq<(Seq<char>, Seq<char>)>) -> Seq<char> {
    extra_parts_prefix(p, p.len() as int)
}

/// The canonical name derived from a raw metric name and its metadata
/// entries.
pub open spec fn canonical_name(raw: Seq<char>, p: Seq<(Seq<char>, Seq<char>)>) -> Seq<char> {
    match pairs_lookup(p, "metric"@) {
        None => raw,
        Some(base) => base + dim_part(p, "name"@) + dim_part(p, "op"@) + dim_part(p, "state"@)
            + dim_part(p, "direction"@) + extra_parts(p) + dim_part(p, "id"@),
    }
}

/// Decides [`ignored_key`].
fn is_ignored_key(key: &str) -> (r: bool)
    ensures
        r == ignored_key(key@),
{
    str_eq(key, "metric") || str_eq(key, "unit") || str_eq(key, "grouping_power") || str_eq(
        key,
        "max_value_power",
    ) || str_eq(key, "id") || str_eq(key, "name") || str_eq(key, "op") || str_eq(key, "state")
        || str_eq(key, "direction")
}

/// Appends the contribution of one looked-up key to the accumulated name.
fn append_part(out: &mut String, metadata: &Metadata, key: &str)
    ensures
        final(out)@ == old(out)@ + dim_part(metadata.pairs(), key@),
{
    let ghost start = out@;
    match metadata.get(key) {
        Some(v) => {
            out.append("/");
            out.append(v.as_str());
            proof {
                assert(out@ =~= start + dim_part(metadata.pairs(), key@));
            }
        },
        None => {
            proof {
                assert(out@ =~= start + dim_part(metadata.pairs(), key@));
            }
        },
    }
}

/// Derives the one deterministic lookup name of a metric from its raw name
/// and its metadata.  Without a `metric` key the raw name is returned
/// unchanged; with one, the name is rebuilt from the metadata as
/// [`canonical_name`] describes.
pub fn canonicalize_metric_name(snapshot_name: &str, metadata: &Metadata) -> (r: String)
    ensures
        r@ == canonical_name(snapshot_name@, metadata.pairs()),
{
    let ghost p = metadata.pairs();
    let mut unique_name: String;
    match metadata.get("metric") {
        None => {
            return snapshot_name.to_owned();
        },
        Some(v) => {
            unique_name = v.clone();
        },
    }
    append_part(&mut unique_name, metadata, "name");
    append_part(&mut unique_name, metadata, "op");
    append_part(&mut unique_name, metadata, "state");
    append_part(&mut unique_name, metadata, "direction");
    let ghost mid = unique_name@;
    let n = metadata.len();
    let mut i: usize = 0;
    while i < n
        invariant
            i <= n,
            n == p.len(),
            p == metadata.pairs(),
            unique_name@ == mid + extra_parts_prefix(p, i as int),
        decreases n - i,
    {
        let k = metadata.key_at(i);
        if !is_ignored_key(k.as_str()) {
            let v = metadata.value_at(i);
            unique_name.append("/");
            unique_name.append(v.as_str());
        }
        proof {
            assert(unique_name@ =~= mid + extra_parts_prefix(p, i as int + 1));
        }
        i = i + 1;
    }
    append_part(&mut unique_name, metadata, "id");
    proof {
        assert(unique_name@ =~= canonical_name(snapshot_name@, p));
    }
    unique_name
}

/// Canonicalization is deterministic: the canonical name depends only on the
/// raw name and the mathematical mapping the metadata represents, never on
/// how the mapping was built.
pub proof fn lemma_canonicalize_deterministic(raw: Seq<char>, a: &Metadata, b: &Metadata)
    requires
        a.wf(),
        b.wf(),
        a.as_map() == b.as_map(),
    ensures
        canonical_name(raw, a.pairs()) == canonical_name(raw, b.pairs()),
{
    crate::metadata::lemma_metadata_extensional(a, b);
}

} // verus!
