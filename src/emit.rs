//! The decisions of the emitter, which walks the source records and writes
//! each one into the target registry as a new record, a new version, or
//! not at all.
use vstd::prelude::*;

use crate::error::Error;
use crate::record::OwnedRecord;

verus! {

/// Counts of what a build did with the records it examined.
#[derive(Debug, Clone, Copy, PartialEq, Eq, Structural)]
pub struct MakeRecursiveStatistics {
    pub records_created: usize,
    pub records_updated: usize,
    pub records_unchanged: usize,
}

impl Default for MakeRecursiveStatistics {
    fn default() -> (r: Self)
        ensures
            r == (MakeRecursiveStatistics { records_created: 0, records_updated: 0, records_unchanged: 0 }),
    {
        MakeRecursiveStatistics { records_created: 0, records_updated: 0, records_unchanged: 0 }
    }
}

/// The newest version of a record already in the target registry, and
/// whether its contents equal those of the record now built.
#[derive(Debug, Clone, Copy, PartialEq, Eq, Structural)]
pub struct LatestVersion {
    pub version: u64,
    pub unchanged: bool,
}

/// What is written for one record.
#[derive(Debug, Clone, Copy, PartialEq, Eq, Structural)]
pub enum VersionDecision {
    /// The record is new: write it at this version.
    Create { version: u64 },
    /// The record changed: write it at this version, one past the latest.
    Update { version: u64 },
    /// The latest version already holds this record: write nothing.
    Unchanged,
}

/// What is written for a record whose latest existing version is `latest`.
pub open spec fn spec_decide_version(latest: Option<LatestVersion>) -> Option<VersionDecision> {
    match latest {
        None => Some(VersionDecision::Create { version: 0 }),
        Some(l) => if l.unchanged {
            Some(VersionDecision::Unchanged)
        } else if l.version < u64::MAX {
            Some(VersionDecision::Update { version: (l.version + 1) as u64 })
        } else {
            None
        },
    }
}

/// Decides what to write for a record, given the latest version already in
/// the target registry (`None` when there is none). A record whose latest
/// version is the largest one cannot get another.
pub fn decide_version(latest: Option<LatestVersion>) -> (r: Result<VersionDecision, Error>)
    ensures
        match spec_decide_version(latest) {
            Some(d) => r == Ok::<VersionDecision, Error>(d),
            None => r == Err::<VersionDecision, Error>(Error::VersionsExhausted),
        },
{
    match latest {
        None => Ok(VersionDecision::Create { version: 0 }),
        Some(l) => {
            if l.unchanged {
                Ok(VersionDecision::Unchanged)
            } else if l.version < u64::MAX {
                Ok(VersionDecision::Update { version: l.version + 1 })
            } else {
                Err(Error::VersionsExhausted)
            }
        },
    }
}

impl MakeRecursiveStatistics {
    /// All records examined.
    pub open spec fn spec_total(&self) -> nat {
        (self.records_created + self.records_updated + self.records_unchanged) as nat
    }

    /// The counts after one more decision.
    pub open spec fn spec_counted(self, decision: VersionDecision) -> Self {
        match decision {
            VersionDecision::Create { .. } => MakeRecursiveStatistics {
                records_created: (self.records_created + 1) as usize,
                ..self
            },
            VersionDecision::Update { .. } => MakeRecursiveStatistics {
                records_updated: (self.records_updated + 1) as usize,
                ..self
            },
            VersionDecision::Unchanged => MakeRecursiveStatistics {
                records_unchanged: (self.records_unchanged + 1) as usize,
                ..self
            },
        }
    }

    /// Counts one decision.
    pub fn count(&mut self, decision: VersionDecision)
        requires
            old(self).spec_total() < usize::MAX,
        ensures
            *final(self) == old(self).spec_counted(decision),
            final(self).spec_total() == old(self).spec_total() + 1,
    {
        match decision {
            VersionDecision::Create { .. } => {
                self.records_created = self.records_created + 1;
            },
            VersionDecision::Update { .. } => {
                self.records_updated = self.records_updated + 1;
            },
            VersionDecision::Unchanged => {
                self.records_unchanged = self.records_unchanged + 1;
            },
        }
    }

    /// The number of records examined.
    pub fn total(&self) -> (r: usize)
        requires
            self.spec_total() <= usize::MAX,
        ensures
            r == self.spec_total(),
    {
        self.records_created + self.records_updated + self.records_unchanged
    }

    /// Whether the build wrote anything.
    pub fn changed(&self) -> (r: bool)
        ensures
            r == (self.records_created > 0 || self.records_updated > 0),
    {
        self.records_created > 0 || self.records_updated > 0
    }
}

/// One record of the walk, in the order the records are emitted: a record
/// first, then the records that succeed it, each followed by its own.
#[derive(Debug, Clone, Copy)]
pub struct EmissionStep<'a> {
    /// The record.
    pub record: &'a OwnedRecord,
    /// The step of the record it succeeds, whose succession nonce is its
    /// predecessor nonce; `None` for the root, which takes the registry's
    /// root predecessor nonce.
    pub parent: Option<usize>,
}

impl<'a> EmissionStep<'a> {
    pub open spec fn spec_view(self) -> (OwnedRecord, Option<usize>) {
        (*self.record, self.parent)
    }
}

/// The steps of the walk over `record` and the records after it, when the
/// walk reaches `record` at step `base` from the step `parent`.
pub open spec fn walk(record: OwnedRecord, parent: Option<usize>, base: int) -> Seq<(OwnedRecord, Option<usize>)>
    decreases record, 1int,
{
    seq![(record, parent)] + walk_successors(
        record.successive_records@,
        record.successive_records@.len() as int,
        base,
        base + 1,
    )
}

/// The steps of the walks over the first `k` of `records`, all succeeding
/// the step `parent`, when the first is reached at step `base`.
pub open spec fn walk_successors(records: Seq<OwnedRecord>, k: int, parent: int, base: int) -> Seq<(OwnedRecord, Option<usize>)>
    decreases records, 0int, k,
{
    if k <= 0 || k > records.len() {
        seq![]
    } else {
        let before = walk_successors(records, k - 1, parent, base);
        before + walk(records[k - 1], Some(parent as usize), base + before.len())
    }
}

fn walk_into<'a>(record: &'a OwnedRecord, parent: Option<usize>, steps: &mut Vec<EmissionStep<'a>>)
    requires
        old(steps)@.len() + walk(*record, parent, old(steps)@.len() as int).len() <= usize::MAX,
    ensures
        final(steps)@.map_values(|s: EmissionStep| s.spec_view()) == old(steps)@.map_values(
            |s: EmissionStep| s.spec_view(),
        ) + walk(*record, parent, old(steps)@.len() as int),
    decreases record,
{
    let ghost start = steps@;
    let base = steps.len();
    steps.push(EmissionStep { record, parent });
    let ghost children = record.successive_records@;
    let n = record.successive_records.len();
    let mut i: usize = 0;
    assert(walk_successors(children, 0, base as int, base + 1) =~= seq![]);
    while i < n
        invariant
            n == children.len(),
            children == record.successive_records@,
            i <= n,
            base == start.len(),
            start.len() + walk(*record, parent, start.len() as int).len() <= usize::MAX,
            walk(*record, parent, base as int) == seq![(*record, parent)] + walk_successors(
                children, n as int, base as int, base + 1),
            steps@.map_values(|s: EmissionStep| s.spec_view()) == start.map_values(
                |s: EmissionStep| s.spec_view(),
            ) + seq![(*record, parent)] + walk_successors(children, i as int, base as int, base + 1),
        decreases n - i,
    {
        proof {
            assert(decreases_to!(*record => record.successive_records));
            vstd::std_specs::vec::axiom_vec_index_decreases(record.successive_records, i as int);
            lemma_walk_successors_prefix(children, i as int + 1, n as int, base as int, base + 1);
        }
        let ghost before = steps@;
        let ghost prev = walk_successors(children, i as int, base as int, base + 1);
        proof {
            assert(before.len() == start.len() + 1 + prev.len()) by {
                assert(before.map_values(|s: EmissionStep| s.spec_view()).len() == before.len());
                assert(start.map_values(|s: EmissionStep| s.spec_view()).len() == start.len());
            }
            assert(walk_successors(children, i + 1, base as int, base + 1) == prev + walk(
                children[i as int], Some(base), base + 1 + prev.len()));
        }
        walk_into(&record.successive_records[i], Some(base), steps);
        proof {
            assert(steps@.map_values(|s: EmissionStep| s.spec_view()) =~= start.map_values(
                |s: EmissionStep| s.spec_view(),
            ) + seq![(*record, parent)] + walk_successors(children, i + 1, base as int, base + 1));
        }
        i = i + 1;
    }
}

/// `walk_successors` over more records extends the walk over fewer.
proof fn lemma_walk_successors_prefix(records: Seq<OwnedRecord>, j: int, k: int, parent: int, base: int)
    requires
        0 <= j <= k <= records.len(),
    ensures
        walk_successors(records, j, parent, base).len() <= walk_successors(records, k, parent, base).len(),
    decreases k - j,
{
    if j < k {
        lemma_walk_successors_prefix(records, j, k - 1, parent, base);
    }
}

/// `child` is one of the records that directly succeed `parent`.
pub open spec fn succeeds(child: OwnedRecord, parent: OwnedRecord) -> bool {
    exists|i: int| 0 <= i < parent.successive_records@.len() && parent.successive_records@[i] == child
}

proof fn lemma_walk_parents(record: OwnedRecord, parent: Option<usize>, base: int)
    requires
        0 <= base,
        base + walk(record, parent, base).len() <= usize::MAX + 1,
    ensures
        walk(record, parent, base)[0] == (record, parent),
        forall|j: int| 1 <= j < walk(record, parent, base).len() ==> {
            let p = (#[trigger] walk(record, parent, base)[j]).1;
            &&& p is Some
            &&& base <= p.unwrap() < base + j
            &&& succeeds(walk(record, parent, base)[j].0, walk(record, parent, base)[p.unwrap() - base].0)
        },
    decreases record, 1int,
{
    let n = record.successive_records@.len() as int;
    lemma_walk_successors_parents(record.successive_records@, n, base, base + 1);
    let w = walk(record, parent, base);
    let ws = walk_successors(record.successive_records@, n, base, base + 1);
    assert forall|j: int| 1 <= j < w.len() implies {
        let p = (#[trigger] w[j]).1;
        &&& p is Some
        &&& base <= p.unwrap() < base + j
        &&& succeeds(w[j].0, w[p.unwrap() - base].0)
    } by {
        assert(w[j] == ws[j - 1]);
        let p = ws[j - 1].1.unwrap();
        if p == base {
            let i = choose|i: int| 0 <= i < n && record.successive_records@[i] == ws[j - 1].0;
            assert(w[0].0 == record);
        } else {
            assert(w[p - base] == ws[p - base - 1]);
        }
    }
}

proof fn lemma_walk_successors_parents(records: Seq<OwnedRecord>, k: int, parent: int, base: int)
    requires
        0 <= parent < base,
        base + walk_successors(records, k, parent, base).len() <= usize::MAX + 1,
    ensures
        forall|j: int| 0 <= j < walk_successors(records, k, parent, base).len() ==> {
            let p = (#[trigger] walk_successors(records, k, parent, base)[j]).1;
            &&& p is Some
            &&& (p.unwrap() == parent && exists|i: int| 0 <= i < records.len() && records[i]
                == walk_successors(records, k, parent, base)[j].0) || (base <= p.unwrap() < base + j
                && succeeds(
                walk_successors(records, k, parent, base)[j].0,
                walk_successors(records, k, parent, base)[p.unwrap() - base].0,
            ))
        },
    decreases records, 0int, k,
{
    if k <= 0 || k > records.len() {
    } else {
        let before = walk_successors(records, k - 1, parent, base);
        lemma_walk(records[k - 1], Some(parent as usize), base + before.len());
        lemma_walk_successors_parents(records, k - 1, parent, base);
        lemma_walk_parents(records[k - 1], Some(parent as usize), base + before.len());
        let all = walk_successors(records, k, parent, base);
        let last = walk(records[k - 1], Some(parent as usize), base + before.len());
        assert(all == before + last);
        assert forall|j: int| 0 <= j < all.len() implies {
            let p = (#[trigger] all[j]).1;
            &&& p is Some
            &&& (p.unwrap() == parent && exists|i: int| 0 <= i < records.len() && records[i] == all[j].0)
                || (base <= p.unwrap() < base + j && succeeds(all[j].0, all[p.unwrap() - base].0))
        } by {
            if j < before.len() {
                assert(all[j] == before[j]);
                let p = before[j].1.unwrap();
                if p != parent {
                    assert(all[p - base] == before[p - base]);
                }
            } else {
                let t = j - before.len();
                assert(all[j] == last[t]);
                if t == 0 {
                    assert(records[k - 1] == all[j].0);
                } else {
                    let p = last[t].1.unwrap();
                    assert(all[p - base] == last[p - base - before.len()]);
                }
            }
        }
    }
}

proof fn lemma_walk(record: OwnedRecord, parent: Option<usize>, base: int)
    ensures
        walk(record, parent, base).len() >= 1,
{
}

/// In the order of emission the root comes first, with no parent step, and
/// every other record comes after the step of the very record it succeeds.
/// So each record's predecessor nonce is known when it is reached, and is
/// the one derived from its own parent's key: a record's identity depends
/// only on its name and the chain of records above it.
pub proof fn lemma_emission_order_parents_first(root: OwnedRecord)
    requires
        walk(root, None, 0).len() <= usize::MAX,
    ensures
        walk(root, None, 0).len() >= 1,
        walk(root, None, 0)[0] == (root, None::<usize>),
        forall|j: int| 1 <= j < walk(root, None, 0).len() ==> {
            let p = (#[trigger] walk(root, None, 0)[j]).1;
            p is Some && p.unwrap() < j && succeeds(walk(root, None, 0)[j].0, walk(root, None, 0)[p.unwrap() as int].0)
        },
{
    lemma_walk_parents(root, None, 0);
}

/// The order in which the records of the tree rooted at `root` are
/// emitted, each with the step of the record it succeeds.
pub fn emission_order<'a>(root: &'a OwnedRecord) -> (r: Vec<EmissionStep<'a>>)
    requires
        walk(*root, None, 0).len() <= usize::MAX,
    ensures
        r@.map_values(|s: EmissionStep| s.spec_view()) == walk(*root, None, 0),
{
    let mut steps: Vec<EmissionStep<'a>> = Vec::new();
    walk_into(root, None, &mut steps);
    assert(steps@.map_values(|s: EmissionStep| s.spec_view()) =~= walk(*root, None, 0));
    steps
}

/// The predecessor nonce of a step of the walk: the registry's root nonce
/// for the root, else the succession nonce derived for the step it succeeds
/// (`succession_nonces[p]` for step `p`).
pub fn predecessor_of<'a, T>(parent: Option<usize>, root_nonce: &'a T, succession_nonces: &'a Vec<T>) -> (r: &'a T)
    requires
        parent matches Some(p) ==> p < succession_nonces@.len(),
    ensures
        match parent {
            None => *r == *root_nonce,
            Some(p) => *r == succession_nonces@[p as int],
        },
{
    match parent {
        None => root_nonce,
        Some(p) => &succession_nonces[p],
    }
}

/// A point in time as RFC 3339 writes it: seconds and nanoseconds since
/// the Unix epoch, and the offset from UTC it was written with.
#[derive(Debug, Clone, Copy, PartialEq, Eq, Structural)]
pub struct Timestamp {
    pub unix_seconds: i64,
    pub nanoseconds: u32,
    pub offset_seconds: i32,
}

/// The time chrono's RFC 3339 parser reads from a text, if it accepts it.
pub uninterp spec fn rfc3339_reading(s: Seq<char>) -> Option<Timestamp>;

/// Relies on chrono's `DateTime::parse_from_rfc3339`: whether a text is an
/// RFC 3339 timestamp, and the instant and offset it gives. The result
/// depends on the text alone.
#[verifier::external_body]
fn parse_rfc3339(s: &str) -> (r: Option<Timestamp>)
    ensures
        r == rfc3339_reading(s@),
{
    match chrono::DateTime::parse_from_rfc3339(s) {
        Ok(d) => Some(
            Timestamp {
                unix_seconds: d.timestamp(),
                nanoseconds: d.timestamp_subsec_nanos(),
                offset_seconds: d.offset().local_minus_utc(),
            },
        ),
        Err(_) => None,
    }
}

/// The creation time an output record carries, given what the parser read
/// from the source's creation time: the time read, or an error when the
/// text was refused.
pub fn created_at_from_reading(reading: Option<Timestamp>) -> (r: Result<Timestamp, Error>)
    ensures
        match reading {
            Some(t) => r == Ok::<Timestamp, Error>(t),
            None => r == Err::<Timestamp, Error>(Error::InvalidTimestamp),
        },
{
    match reading {
        Some(t) => Ok(t),
        None => Err(Error::InvalidTimestamp),
    }
}

/// The creation time an output record carries: none when the source record
/// gives none, else the time its RFC 3339 text stands for.
pub fn output_created_at(created_at: &Option<String>) -> (r: Result<Option<Timestamp>, Error>)
    ensures
        match created_at {
            None => r == Ok::<Option<Timestamp>, Error>(None),
            Some(text) => match rfc3339_reading(text@) {
                Some(t) => r == Ok::<Option<Timestamp>, Error>(Some(t)),
                None => r == Err::<Option<Timestamp>, Error>(Error::InvalidTimestamp),
            },
        },
{
    match created_at {
        None => Ok(None),
        Some(text) => match created_at_from_reading(parse_rfc3339(text.as_str())) {
            Ok(t) => Ok(Some(t)),
            Err(e) => Err(e),
        },
    }
}

/// The counts of a build whose records, in order, met the given latest
/// versions in the target registry; a record that cannot be written counts
/// as unchanged.
pub open spec fn spec_tally(latests: Seq<Option<LatestVersion>>) -> MakeRecursiveStatistics
    decreases latests.len(),
{
    if latests.len() == 0 {
        MakeRecursiveStatistics { records_created: 0, records_updated: 0, records_unchanged: 0 }
    } else {
        let d = match spec_decide_version(latests.last()) {
            Some(d) => d,
            None => VersionDecision::Unchanged,
        };
        spec_tally(latests.drop_last()).spec_counted(d)
    }
}

/// A first build, into a target registry that holds none of the records,
/// creates every record at version 0 and updates and keeps none.
pub proof fn lemma_first_build(latests: Seq<Option<LatestVersion>>)
    requires
        latests.len() <= usize::MAX,
        forall|i: int| 0 <= i < latests.len() ==> #[trigger] latests[i] is None,
    ensures
        spec_tally(latests) == (MakeRecursiveStatistics {
            records_created: latests.len() as usize,
            records_updated: 0,
            records_unchanged: 0,
        }),
        forall|i: int| 0 <= i < latests.len() ==> spec_decide_version(#[trigger] latests[i]) == Some(
            VersionDecision::Create { version: 0 },
        ),
    decreases latests.len(),
{
    if latests.len() > 0 {
        lemma_first_build(latests.drop_last());
    }
}

/// A build right after another over the same records finds every latest
/// version unchanged: it writes nothing, and counts every record unchanged.
pub proof fn lemma_rebuild_unchanged(latests: Seq<Option<LatestVersion>>)
    requires
        latests.len() <= usize::MAX,
        forall|i: int| 0 <= i < latests.len() ==> (#[trigger] latests[i] matches Some(l) && l.unchanged),
    ensures
        spec_tally(latests) == (MakeRecursiveStatistics {
            records_created: 0,
            records_updated: 0,
            records_unchanged: latests.len() as usize,
        }),
        forall|i: int| 0 <= i < latests.len() ==> spec_decide_version(#[trigger] latests[i]) == Some(
            VersionDecision::Unchanged,
        ),
    decreases latests.len(),
{
    if latests.len() > 0 {
        lemma_rebuild_unchanged(latests.drop_last());
    }
}

/// When the data of exactly one record changed since the last build, that
/// record gets a new version one past its latest, and every other record is
/// counted unchanged.
pub proof fn lemma_single_change(latests: Seq<Option<LatestVersion>>, changed: int)
    requires
        latests.len() <= usize::MAX,
        0 <= changed < latests.len(),
        latests[changed] matches Some(l) && !l.unchanged && l.version < u64::MAX,
        forall|i: int| 0 <= i < latests.len() && i != changed ==> (#[trigger] latests[i] matches Some(l)
            && l.unchanged),
    ensures
        spec_tally(latests) == (MakeRecursiveStatistics {
            records_created: 0,
            records_updated: 1,
            records_unchanged: (latests.len() - 1) as usize,
        }),
        spec_decide_version(latests[changed]) == Some(
            VersionDecision::Update { version: (latests[changed].unwrap().version + 1) as u64 },
        ),
    decreases latests.len(),
{
    if changed == latests.len() - 1 {
        let rest = latests.drop_last();
        lemma_rebuild_unchanged(rest);
    } else {
        lemma_single_change(latests.drop_last(), changed);
    }
}

} // verus!
