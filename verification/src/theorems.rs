//! What holds of every index and of every answer to a query.

use vstd::prelude::*;
use crate::binary64::Binary64;
use crate::index::{
    entries_of, entry_of, identities, indexed_entries, is_indexed, lemma_entries_of_push,
    within_radius, Matches, Measured,
};
use crate::record::Record;

verus! {

/// Every entry among `entries_of(records, ids)` stands for an indexed record
/// that `ids` names.
pub proof fn entries_stand_for_indexed_records<T>(records: Seq<Record<T>>, ids: Seq<u64>, k: int)
    requires
        0 <= k < entries_of(records, ids).len(),
    ensures
        ids.contains(entries_of(records, ids)[k].identity),
        is_indexed(records, entries_of(records, ids)[k].identity),
        entries_of(records, ids)[k] == entry_of(records, entries_of(records, ids)[k].identity),
{
    let keep = |id: u64| is_indexed(records, id);
    let kept = ids.filter(keep);
    ids.lemma_filter_pred(keep, k);
    assert(kept.contains(kept[k]));
    ids.lemma_filter_contains_rev(keep, kept[k]);
}

/// Every identity in `ids` that names an indexed record has its entry among
/// `entries_of(records, ids)`.
pub proof fn indexed_records_have_entries<T>(records: Seq<Record<T>>, ids: Seq<u64>, id: u64)
    requires
        ids.contains(id),
        is_indexed(records, id),
    ensures
        entries_of(records, ids).contains(entry_of(records, id)),
{
    let keep = |id: u64| is_indexed(records, id);
    let make = |id: u64| entry_of(records, id);
    let kept = ids.filter(keep);
    let i: int = choose|i: int| 0 <= i < ids.len() && ids[i] == id;
    ids.lemma_filter_contains(keep, i);
    let j: int = choose|j: int| 0 <= j < kept.len() && kept[j] == id;
    assert(kept.map_values(make)[j] == entry_of(records, id));
}

/// The index holds an entry for each record that can be indexed.
pub proof fn index_holds_every_indexable_record<T>(records: Seq<Record<T>>, identity: u64)
    requires
        is_indexed(records, identity),
    ensures
        indexed_entries(records).contains(entry_of(records, identity)),
{
    assert(identities(records.len())[identity as int] == identity);
    indexed_records_have_entries(records, identities(records.len()), identity);
}

/// The entries of the first `n` records name records among those `n`, each
/// a later one than the entry before.
proof fn lemma_prefix_entries_ascend<T>(records: Seq<Record<T>>, n: nat)
    requires
        n <= u64::MAX,
    ensures
        forall|k: int|
            0 <= k < entries_of(records, identities(n)).len() ==> (#[trigger] entries_of(
                records,
                identities(n),
            )[k]).identity < n,
        forall|j: int, k: int|
            0 <= j < k < entries_of(records, identities(n)).len() ==> (#[trigger] entries_of(
                records,
                identities(n),
            )[j]).identity < (#[trigger] entries_of(records, identities(n))[k]).identity,
    decreases n,
{
    if n == 0 {
        identities(0).lemma_filter_len(|id: u64| is_indexed(records, id));
    } else {
        let before: nat = (n - 1) as nat;
        lemma_prefix_entries_ascend(records, before);
        assert(identities(n) =~= identities(before).push(before as u64));
        lemma_entries_of_push(records, identities(before), before as u64);
    }
}

/// The entries of the index follow the order of the records, so no record
/// has two entries.
pub proof fn entries_follow_the_records<T>(records: Seq<Record<T>>, j: int, k: int)
    requires
        records.len() <= u64::MAX,
        0 <= j < k < indexed_entries(records).len(),
    ensures
        indexed_entries(records)[j].identity < indexed_entries(records)[k].identity,
{
    lemma_prefix_entries_ascend(records, records.len());
}

/// A record whose coordinate list holds fewer than two values has no entry
/// in the index.
pub proof fn short_record_has_no_entry<T>(records: Seq<Record<T>>, identity: u64, k: int)
    requires
        identity < records.len(),
        !records[identity as int].indexable(),
        0 <= k < indexed_entries(records).len(),
    ensures
        indexed_entries(records)[k].identity != identity,
{
    entries_stand_for_indexed_records(records, identities(records.len()), k);
}

/// A record whose coordinate list holds fewer than two values is in no
/// answer, whatever the candidates and the radius.
pub proof fn short_record_is_never_returned<T>(
    found: Matches<'_, T>,
    records: Seq<Record<T>>,
    measured: Seq<Measured>,
    radius: Binary64,
    identity: u64,
    j: int,
)
    requires
        found.answers(records, measured, radius),
        identity < records.len(),
        !records[identity as int].indexable(),
        0 <= j < found.records@.len(),
    ensures
        *found.records@[j] != records[identity as int],
{
    let keep = |m: Measured| is_indexed(records, m.identity) && m.distance.spec_le(radius);
    measured.lemma_filter_pred(keep, j);
}

/// An index that holds no entry answers every query with nothing.
pub proof fn index_without_entries_returns_nothing<T>(
    found: Matches<'_, T>,
    records: Seq<Record<T>>,
    measured: Seq<Measured>,
    radius: Binary64,
)
    requires
        found.answers(records, measured, radius),
        indexed_entries(records).len() == 0,
    ensures
        found.count == 0,
        found.records@.len() == 0,
{
    if found.records@.len() > 0 {
        let keep = |m: Measured| is_indexed(records, m.identity) && m.distance.spec_le(radius);
        measured.lemma_filter_pred(keep, 0);
        index_holds_every_indexable_record(records, measured.filter(keep)[0].identity);
    }
}

/// No false positives: each returned record is the record of a candidate
/// that names an indexed record and whose distance is at most the radius.
pub proof fn returned_records_lie_within_radius<T>(
    found: Matches<'_, T>,
    records: Seq<Record<T>>,
    measured: Seq<Measured>,
    radius: Binary64,
    j: int,
)
    requires
        found.answers(records, measured, radius),
        0 <= j < found.records@.len(),
    ensures
        exists|k: int|
            0 <= k < measured.len() && is_indexed(records, (#[trigger] measured[k]).identity)
                && measured[k].distance.spec_le(radius) && *found.records@[j]
                == records[measured[k].identity as int],
{
    let keep = |m: Measured| is_indexed(records, m.identity) && m.distance.spec_le(radius);
    let kept = measured.filter(keep);
    measured.lemma_filter_pred(keep, j);
    assert(kept.contains(kept[j]));
    measured.lemma_filter_contains_rev(keep, kept[j]);
    let k: int = choose|k: int| 0 <= k < measured.len() && measured[k] == kept[j];
    assert(measured[k] == kept[j]);
}

/// No candidate is lost: the record of each candidate that names an indexed
/// record and whose distance is at most the radius is returned.
pub proof fn near_candidates_are_returned<T>(
    found: Matches<'_, T>,
    records: Seq<Record<T>>,
    measured: Seq<Measured>,
    radius: Binary64,
    k: int,
)
    requires
        found.answers(records, measured, radius),
        0 <= k < measured.len(),
        is_indexed(records, measured[k].identity),
        measured[k].distance.spec_le(radius),
    ensures
        exists|j: int|
            0 <= j < found.records@.len() && *(#[trigger] found.records@[j])
                == records[measured[k].identity as int],
{
    let keep = |m: Measured| is_indexed(records, m.identity) && m.distance.spec_le(radius);
    let kept = measured.filter(keep);
    measured.lemma_filter_contains(keep, k);
    let j: int = choose|j: int| 0 <= j < kept.len() && kept[j] == measured[k];
    assert(*found.records@[j] == records[kept[j].identity as int]);
}

/// A wider query keeps what a narrower one keeps: if every candidate of the
/// narrow query is a candidate of the wide one, and the narrow radius is at
/// most the wide radius, then every candidate that the narrow query keeps is
/// kept by the wide one.
pub proof fn wider_radius_keeps_more<T>(
    records: Seq<Record<T>>,
    narrow: Seq<Measured>,
    wide: Seq<Measured>,
    narrow_radius: Binary64,
    wide_radius: Binary64,
    m: Measured,
)
    requires
        narrow_radius.spec_le(wide_radius),
        forall|c: Measured| narrow.contains(c) ==> wide.contains(c),
        within_radius(records, narrow, narrow_radius).contains(m),
    ensures
        within_radius(records, wide, wide_radius).contains(m),
{
    let keep_narrow = |m: Measured|
        is_indexed(records, m.identity) && m.distance.spec_le(narrow_radius);
    let keep_wide = |m: Measured| is_indexed(records, m.identity) && m.distance.spec_le(wide_radius);
    let kept = narrow.filter(keep_narrow);
    let i: int = choose|i: int| 0 <= i < kept.len() && kept[i] == m;
    narrow.lemma_filter_pred(keep_narrow, i);
    narrow.lemma_filter_contains_rev(keep_narrow, m);
    let k: int = choose|k: int| 0 <= k < wide.len() && wide[k] == m;
    wide.lemma_filter_contains(keep_wide, k);
}

/// Monotonicity of the answers: under the conditions of
/// `wider_radius_keeps_more`, every record that the narrow query returns is
/// returned by the wide query.
pub proof fn wider_radius_returns_more<T>(
    found_narrow: Matches<'_, T>,
    found_wide: Matches<'_, T>,
    records: Seq<Record<T>>,
    narrow: Seq<Measured>,
    wide: Seq<Measured>,
    narrow_radius: Binary64,
    wide_radius: Binary64,
    j: int,
)
    requires
        found_narrow.answers(records, narrow, narrow_radius),
        found_wide.answers(records, wide, wide_radius),
        narrow_radius.spec_le(wide_radius),
        forall|c: Measured| narrow.contains(c) ==> wide.contains(c),
        0 <= j < found_narrow.records@.len(),
    ensures
        exists|i: int|
            0 <= i < found_wide.records@.len() && *(#[trigger] found_wide.records@[i])
                == *found_narrow.records@[j],
{
    let kept_narrow = within_radius(records, narrow, narrow_radius);
    let kept_wide = within_radius(records, wide, wide_radius);
    assert(kept_narrow.contains(kept_narrow[j]));
    wider_radius_keeps_more(records, narrow, wide, narrow_radius, wide_radius, kept_narrow[j]);
    let i: int = choose|i: int| 0 <= i < kept_wide.len() && kept_wide[i] == kept_narrow[j];
    assert(*found_wide.records@[i] == records[kept_wide[i].identity as int]);
}

/// A query has one answer: two answers to the same candidates and radius
/// over the same records hold the same records in the same order.
pub proof fn answers_agree<T>(
    first: Matches<'_, T>,
    second: Matches<'_, T>,
    records: Seq<Record<T>>,
    measured: Seq<Measured>,
    radius: Binary64,
)
    requires
        first.answers(records, measured, radius),
        second.answers(records, measured, radius),
    ensures
        first.count == second.count,
        first.records@.len() == second.records@.len(),
        forall|i: int|
            0 <= i < first.records@.len() ==> *(#[trigger] first.records@[i]) == *second.records@[i],
{
}

} // verus!
