//! The index over a fixed set of records, and the exact phase of a radius
//! query against it.

use vstd::prelude::*;
use crate::binary64::Binary64;
use crate::record::{IndexEntry, Record};

verus! {

/// A candidate of a query together with its geodesic distance from the
/// centre of the query, in metres.
#[derive(Clone, Copy, Debug, PartialEq, Eq, Structural)]
pub struct Measured {
    pub identity: u64,
    pub distance: Binary64,
}

/// The identities of the first `n` records, in order.
pub open spec fn identities(n: nat) -> Seq<u64> {
    Seq::new(n, |i: int| i as u64)
}

/// Whether `identity` names a record that can be indexed.
pub open spec fn is_indexed<T>(records: Seq<Record<T>>, identity: u64) -> bool {
    identity < records.len() && records[identity as int].indexable()
}

/// The entry that stands for the record `identity`.
pub open spec fn entry_of<T>(records: Seq<Record<T>>, identity: u64) -> IndexEntry
    recommends
        is_indexed(records, identity),
{
    IndexEntry { point: records[identity as int].located_at(), identity }
}

/// The entries of those among `ids` that name an indexed record, in the
/// order of `ids`.
pub open spec fn entries_of<T>(records: Seq<Record<T>>, ids: Seq<u64>) -> Seq<IndexEntry> {
    ids.filter(|id: u64| is_indexed(records, id)).map_values(|id: u64| entry_of(records, id))
}

/// What an index over `records` holds: one entry for each record that can be
/// indexed, in the order of the records.
pub open spec fn indexed_entries<T>(records: Seq<Record<T>>) -> Seq<IndexEntry> {
    entries_of(records, identities(records.len()))
}

/// The measured candidates that a query of the given radius keeps: those
/// that name an indexed record and lie no farther than the radius, in the
/// order in which they were handed in.
pub open spec fn within_radius<T>(
    records: Seq<Record<T>>,
    measured: Seq<Measured>,
    radius: Binary64,
) -> Seq<Measured> {
    measured.filter(
        |m: Measured| is_indexed(records, m.identity) && m.distance.spec_le(radius),
    )
}

/// Unfolds `entries_of` by one identity at the end.
pub(crate) proof fn lemma_entries_of_push<T>(records: Seq<Record<T>>, ids: Seq<u64>, id: u64)
    ensures
        entries_of(records, ids.push(id)) == if is_indexed(records, id) {
            entries_of(records, ids).push(entry_of(records, id))
        } else {
            entries_of(records, ids)
        },
{
    let keep = |id: u64| is_indexed(records, id);
    let make = |id: u64| entry_of(records, id);
    ids.lemma_filter_push(id, keep);
    ids.filter(keep).lemma_push_map_commute(make, id);
}

/// Adds the entry of `identity` to `out` if it names an indexed record.
fn push_if_indexed<T>(records: &Vec<Record<T>>, identity: u64, out: &mut Vec<IndexEntry>)
    ensures
        final(out)@ == if is_indexed(records@, identity) {
            old(out)@.push(entry_of(records@, identity))
        } else {
            old(out)@
        },
{
    if identity < records.len() as u64 {
        match records[identity as usize].point() {
            Some(point) => {
                out.push(IndexEntry { point, identity });
            },
            None => {},
        }
    }
}

/// A fixed sequence of records and the entries of those that can be indexed.
///
/// The index is built once and never changes. Its view is the sequence of
/// records it was built from.
pub struct ProximityIndex<T> {
    records: Vec<Record<T>>,
    entries: Vec<IndexEntry>,
}

/// The records that a query returns, in the order of the candidates that
/// named them, and their number.
pub struct Matches<'a, T> {
    pub count: usize,
    pub records: Vec<&'a Record<T>>,
}

impl<'a, T> Matches<'a, T> {
    /// Whether `self` is the answer to the query that hands `measured` and
    /// `radius` to an index over `records`.
    pub open spec fn answers(
        self,
        records: Seq<Record<T>>,
        measured: Seq<Measured>,
        radius: Binary64,
    ) -> bool {
        let kept = within_radius(records, measured, radius);
        &&& self.count == kept.len()
        &&& self.records@.len() == kept.len()
        &&& forall|i: int|
            0 <= i < kept.len() ==> *(#[trigger] self.records@[i]) == records[kept[i].identity as int]
    }
}

impl<T> View for ProximityIndex<T> {
    type V = Seq<Record<T>>;

    closed spec fn view(&self) -> Seq<Record<T>> {
        self.records@
    }
}

impl<T> ProximityIndex<T> {
    /// The entries that the index holds.
    pub closed spec fn entry_view(self) -> Seq<IndexEntry> {
        self.entries@
    }

    #[verifier::type_invariant]
    spec fn entries_match_records(self) -> bool {
        self.entries@ == indexed_entries(self.records@)
    }

    /// Builds the index over `records`. The identity of a record is its
    /// place in `records`. A record whose coordinate list holds fewer than
    /// two values gets no entry.
    pub fn build(records: Vec<Record<T>>) -> (index: Self)
        ensures
            index@ == records@,
            index.entry_view() == indexed_entries(records@),
    {
        let mut entries: Vec<IndexEntry> = Vec::new();
        let mut i: usize = 0;
        while i < records.len()
            invariant
                i <= records.len(),
                entries@ == entries_of(records@, identities(i as nat)),
            decreases records.len() - i,
        {
            proof {
                assert(identities((i + 1) as nat) =~= identities(i as nat).push(i as u64));
                lemma_entries_of_push(records@, identities(i as nat), i as u64);
            }
            push_if_indexed(&records, i as u64, &mut entries);
            i += 1;
        }
        ProximityIndex { records, entries }
    }

    /// The entries of the index, one for each record that can be indexed, in
    /// the order of the records.
    pub fn entries(&self) -> (entries: &Vec<IndexEntry>)
        ensures
            entries@ == self.entry_view(),
            entries@ == indexed_entries(self@),
    {
        proof {
            use_type_invariant(self);
        }
        &self.entries
    }

    /// Looks the candidates up. The result holds the entry of each candidate
    /// that names an indexed record, in the order of the candidates; the
    /// other candidates are passed over.
    pub fn locate(&self, candidates: &Vec<u64>) -> (located: Vec<IndexEntry>)
        ensures
            located@ == entries_of(self@, candidates@),
    {
        let mut located: Vec<IndexEntry> = Vec::new();
        let mut k: usize = 0;
        while k < candidates.len()
            invariant
                k <= candidates.len(),
                located@ == entries_of(self@, candidates@.take(k as int)),
            decreases candidates.len() - k,
        {
            proof {
                candidates@.lemma_take_succ_push(k as int);
                lemma_entries_of_push(self@, candidates@.take(k as int), candidates@[k as int]);
            }
            push_if_indexed(&self.records, candidates[k], &mut located);
            k += 1;
        }
        proof {
            candidates@.lemma_take_len();
        }
        located
    }

    /// Answers a radius query from its measured candidates: returns the
    /// record of each candidate that names an indexed record and whose
    /// distance is at most `radius`, in the order of the candidates.
    pub fn find_within_radius(&self, measured: &Vec<Measured>, radius: Binary64) -> (found: Matches<'_, T>)
        ensures
            found.answers(self@, measured@, radius),
    {
        let mut records: Vec<&Record<T>> = Vec::new();
        let mut k: usize = 0;
        while k < measured.len()
            invariant
                k <= measured.len(),
                records@.len() == within_radius(self@, measured@.take(k as int), radius).len(),
                forall|i: int|
                    0 <= i < records@.len() ==> *(#[trigger] records@[i]) == self@[within_radius(
                        self@,
                        measured@.take(k as int),
                        radius,
                    )[i].identity as int],
            decreases measured.len() - k,
        {
            let candidate: Measured = measured[k];
            proof {
                measured@.lemma_take_succ_push(k as int);
                measured@.take(k as int).lemma_filter_push(
                    candidate,
                    |m: Measured| is_indexed(self@, m.identity) && m.distance.spec_le(radius),
                );
            }
            if candidate.identity < self.records.len() as u64 {
                let record: &Record<T> = &self.records[candidate.identity as usize];
                if record.coordinates.len() >= 2 && candidate.distance.le(radius) {
                    records.push(record);
                }
            }
            k += 1;
        }
        proof {
            measured@.lemma_take_len();
        }
        Matches { count: records.len(), records }
    }
}

} // verus!
