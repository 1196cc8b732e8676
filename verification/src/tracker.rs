//! The record of materialized chunks: for each chunk that is shown, the
//! handles of its render entity, its mesh and its physics body.

use vstd::prelude::*;
use crate::geometry::Point3;
use crate::streamer::{StreamConfig, chunk_required, is_chunk_required, viewer_in_bounds};

verus! {

/// The three resources of a materialized chunk, as opaque identifiers.
#[derive(Clone, Copy, Debug, PartialEq, Eq, Structural)]
pub struct ChunkHandles {
    pub entity: u64,
    pub mesh: u64,
    pub body: u64,
}

impl ChunkHandles {
    /// Whether the two hold the same entity, the same mesh or the same body.
    pub open spec fn spec_shares_with(self, other: ChunkHandles) -> bool {
        self.entity == other.entity || self.mesh == other.mesh || self.body == other.body
    }

    pub fn shares_with(&self, other: &ChunkHandles) -> (b: bool)
        ensures
            b == self.spec_shares_with(*other),
    {
        self.entity == other.entity || self.mesh == other.mesh || self.body == other.body
    }
}

/// What is known of one chunk origin: the handles of its chunk, or none
/// where the chunk was meshed and has no visible face.
#[derive(Clone, Copy, Debug)]
pub struct ChunkRecord {
    pub origin: Point3,
    pub handles: Option<ChunkHandles>,
}

/// One step of letting a materialized chunk go.
#[derive(Clone, Copy, Debug, PartialEq, Eq, Structural)]
pub enum ReleaseStep {
    DespawnEntity(u64),
    FreeMesh(u64),
    RemoveBody(u64),
}

/// The steps that let the resources of a chunk go, in the order in which
/// they are to be taken: the entity first, then the mesh, then the body.
pub open spec fn spec_release_steps(handles: ChunkHandles) -> Seq<ReleaseStep> {
    seq![
        ReleaseStep::DespawnEntity(handles.entity),
        ReleaseStep::FreeMesh(handles.mesh),
        ReleaseStep::RemoveBody(handles.body),
    ]
}

pub fn release_steps(handles: ChunkHandles) -> (steps: Vec<ReleaseStep>)
    ensures
        steps@ == spec_release_steps(handles),
{
    let mut steps: Vec<ReleaseStep> = Vec::new();
    steps.push(ReleaseStep::DespawnEntity(handles.entity));
    steps.push(ReleaseStep::FreeMesh(handles.mesh));
    steps.push(ReleaseStep::RemoveBody(handles.body));
    assert(steps@ =~= spec_release_steps(handles));
    steps
}

/// Whether one of the records is about `origin`.
pub open spec fn has_origin(records: Seq<ChunkRecord>, origin: Point3) -> bool {
    exists|i: int| 0 <= i < records.len() && (#[trigger] records[i]).origin == origin
}

/// The position of a record about `origin`.
pub open spec fn position_of(records: Seq<ChunkRecord>, origin: Point3) -> int {
    choose|i: int| 0 <= i < records.len() && (#[trigger] records[i]).origin == origin
}

/// No two records are about the same origin.
pub open spec fn distinct_origins(records: Seq<ChunkRecord>) -> bool {
    forall|i: int, j: int|
        0 <= i < records.len() && 0 <= j < records.len() && i != j ==> (#[trigger] records[i]).origin
            != (#[trigger] records[j]).origin
}

/// The records as a map from origins to handles.
pub open spec fn records_map(records: Seq<ChunkRecord>) -> Map<Point3, Option<ChunkHandles>> {
    Map::new(
        |k: Point3| has_origin(records, k),
        |k: Point3| records[position_of(records, k)].handles,
    )
}

/// None of the chunks in `m` holds a resource of `handles`.
pub open spec fn handles_free(m: Map<Point3, Option<ChunkHandles>>, handles: ChunkHandles) -> bool {
    forall|k: Point3| #[trigger]
        m.dom().contains(k) && m[k].is_some() ==> !m[k].unwrap().spec_shares_with(handles)
}

/// No two chunks in `m` hold the same entity, mesh or body.
pub open spec fn handles_unique(m: Map<Point3, Option<ChunkHandles>>) -> bool {
    forall|j: Point3, k: Point3|
        #![trigger m.dom().contains(j), m.dom().contains(k)]
        m.dom().contains(j) && m.dom().contains(k) && j != k && m[j].is_some() && m[k].is_some()
            ==> !m[j].unwrap().spec_shares_with(m[k].unwrap())
}

/// In a list of records with distinct origins, the map gives for the origin
/// of each record its handles.
pub proof fn lemma_records_map_at(records: Seq<ChunkRecord>, i: int)
    requires
        distinct_origins(records),
        0 <= i < records.len(),
    ensures
        records_map(records).dom().contains(records[i].origin),
        records_map(records)[records[i].origin] == records[i].handles,
{
    let k = records[i].origin;
    assert(has_origin(records, k));
    let j = position_of(records, k);
    assert(j == i);
}

/// Adding a record about a new origin adds that origin to the map.
pub proof fn lemma_records_map_push(records: Seq<ChunkRecord>, record: ChunkRecord)
    requires
        distinct_origins(records),
        !has_origin(records, record.origin),
    ensures
        distinct_origins(records.push(record)),
        records_map(records.push(record)) == records_map(records).insert(
            record.origin,
            record.handles,
        ),
{
    let after = records.push(record);
    assert forall|i: int, j: int|
        0 <= i < after.len() && 0 <= j < after.len() && i != j implies (#[trigger] after[i]).origin
        != (#[trigger] after[j]).origin by {
        if i < records.len() {
            assert(after[i] == records[i]);
        }
        if j < records.len() {
            assert(after[j] == records[j]);
        }
    }
    let target = records_map(records).insert(record.origin, record.handles);
    assert forall|k: Point3| records_map(after).dom().contains(k) <==> target.dom().contains(
        k,
    ) by {
        if has_origin(after, k) {
            let i = position_of(after, k);
            if i < records.len() {
                assert(records[i].origin == k);
            }
        }
        if has_origin(records, k) {
            let i = position_of(records, k);
            assert(after[i].origin == k);
        }
        if k == record.origin {
            assert(after[records.len() as int].origin == k);
        }
    }
    assert forall|k: Point3| records_map(after).dom().contains(k) implies records_map(after)[k]
        == target[k] by {
        let i = position_of(after, k);
        lemma_records_map_at(after, i);
        if i < records.len() {
            assert(after[i] == records[i]);
            lemma_records_map_at(records, i);
        }
    }
    assert(records_map(after) =~= target);
}

/// Taking a record out takes its origin out of the map.
pub proof fn lemma_records_map_remove(records: Seq<ChunkRecord>, i: int)
    requires
        distinct_origins(records),
        0 <= i < records.len(),
    ensures
        distinct_origins(records.remove(i)),
        records_map(records.remove(i)) == records_map(records).remove(records[i].origin),
{
    let after = records.remove(i);
    let target = records_map(records).remove(records[i].origin);
    assert forall|a: int, b: int|
        0 <= a < after.len() && 0 <= b < after.len() && a != b implies (#[trigger] after[a]).origin
        != (#[trigger] after[b]).origin by {
        let a0 = if a < i { a } else { a + 1 };
        let b0 = if b < i { b } else { b + 1 };
        assert(after[a] == records[a0]);
        assert(after[b] == records[b0]);
    }
    assert forall|k: Point3| records_map(after).dom().contains(k) <==> target.dom().contains(
        k,
    ) by {
        if has_origin(after, k) {
            let a = position_of(after, k);
            let a0 = if a < i { a } else { a + 1 };
            assert(after[a] == records[a0]);
            assert(records[a0].origin == k);
        }
        if has_origin(records, k) && k != records[i].origin {
            let j = position_of(records, k);
            let a = if j < i { j } else { j - 1 };
            assert(after[a] == records[j]);
        }
    }
    assert forall|k: Point3| records_map(after).dom().contains(k) implies records_map(after)[k]
        == target[k] by {
        let a = position_of(after, k);
        let a0 = if a < i { a } else { a + 1 };
        assert(after[a] == records[a0]);
        lemma_records_map_at(after, a);
        lemma_records_map_at(records, a0);
    }
    assert(records_map(after) =~= target);
}

/// A list of records with distinct origins has as many origins as records.
pub proof fn lemma_records_map_len(records: Seq<ChunkRecord>)
    requires
        distinct_origins(records),
    ensures
        records_map(records).dom().finite(),
        records_map(records).dom().len() == records.len(),
    decreases records.len(),
{
    if records.len() == 0 {
        assert(records_map(records).dom() =~= Set::<Point3>::empty());
    } else {
        let rest = records.drop_last();
        let last = records.last();
        assert(records =~= rest.push(last));
        assert(distinct_origins(rest)) by {
            assert forall|i: int, j: int|
                0 <= i < rest.len() && 0 <= j < rest.len() && i != j implies (#[trigger] rest[i]).origin
                != (#[trigger] rest[j]).origin by {
                assert(rest[i] == records[i]);
                assert(rest[j] == records[j]);
            }
        }
        assert(!has_origin(rest, last.origin)) by {
            if has_origin(rest, last.origin) {
                let i = position_of(rest, last.origin);
                assert(records[i].origin == records[records.len() - 1].origin);
            }
        }
        lemma_records_map_len(rest);
        lemma_records_map_push(rest, last);
        assert(records_map(records).dom() =~= records_map(rest).dom().insert(last.origin));
    }
}

/// A tick records what the viewer needs and nothing was recorded of, and
/// lets go of what the viewer does not need any more. After it the recorded
/// origins are exactly the origins that the viewer needs.
pub proof fn lemma_tick_records_the_view(
    before: Set<Point3>,
    meshed: Set<Point3>,
    after: Set<Point3>,
    viewer: Point3,
    config: StreamConfig,
)
    requires
        forall|k: Point3|
            meshed.contains(k) <==> chunk_required(k, viewer, config) && !before.contains(k),
        forall|k: Point3|
            after.contains(k) <==> (before.contains(k) || meshed.contains(k)) && chunk_required(
                k,
                viewer,
                config,
            ),
    ensures
        forall|k: Point3| after.contains(k) <==> chunk_required(k, viewer, config),
{
}

/// The chunks that are materialized or known to be empty, by chunk origin.
pub struct MaterializedChunks {
    records: Vec<ChunkRecord>,
}

impl View for MaterializedChunks {
    type V = Map<Point3, Option<ChunkHandles>>;

    closed spec fn view(&self) -> Map<Point3, Option<ChunkHandles>> {
        records_map(self.records@)
    }
}

impl MaterializedChunks {
    pub closed spec fn inv(&self) -> bool {
        distinct_origins(self.records@)
    }

    /// Each origin is recorded once, and no two chunks hold the same entity,
    /// mesh or body.
    pub open spec fn wf(&self) -> bool {
        self.inv() && handles_unique(self@)
    }

    /// Whether `origin` is recorded.
    pub open spec fn recorded(&self, origin: Point3) -> bool {
        self@.dom().contains(origin)
    }

    pub fn new() -> (chunks: MaterializedChunks)
        ensures
            chunks.wf(),
            chunks@ == Map::<Point3, Option<ChunkHandles>>::empty(),
    {
        let chunks = MaterializedChunks { records: Vec::new() };
        assert(chunks@ =~= Map::<Point3, Option<ChunkHandles>>::empty());
        chunks
    }

    fn find(&self, origin: Point3) -> (found: Option<usize>)
        requires
            self.inv(),
        ensures
            found.is_some() <==> self.recorded(origin),
            found.is_some() ==> found.unwrap() < self.records@.len()
                && self.records@[found.unwrap() as int].origin == origin
                && self@[origin] == self.records@[found.unwrap() as int].handles,
    {
        let mut i: usize = 0;
        while i < self.records.len()
            invariant
                i <= self.records.len(),
                self.inv(),
                forall|j: int| 0 <= j < i ==> (#[trigger] self.records@[j]).origin != origin,
            decreases self.records.len() - i,
        {
            if self.records[i].origin == origin {
                proof {
                    lemma_records_map_at(self.records@, i as int);
                }
                return Some(i);
            }
            i += 1;
        }
        None
    }

    /// Whether `origin` is recorded.
    pub fn contains(&self, origin: Point3) -> (found: bool)
        requires
            self.wf(),
        ensures
            found == self.recorded(origin),
    {
        self.find(origin).is_some()
    }

    /// What is recorded of `origin`: nothing, a chunk without visible faces,
    /// or the handles of a materialized chunk.
    pub fn get(&self, origin: Point3) -> (record: Option<Option<ChunkHandles>>)
        requires
            self.wf(),
        ensures
            record.is_some() <==> self.recorded(origin),
            record.is_some() ==> record.unwrap() == self@[origin],
    {
        match self.find(origin) {
            Some(i) => Some(self.records[i].handles),
            None => None,
        }
    }

    /// The number of recorded origins.
    pub fn len(&self) -> (n: usize)
        requires
            self.wf(),
        ensures
            self@.dom().finite(),
            n == self@.dom().len(),
    {
        proof {
            lemma_records_map_len(self.records@);
        }
        self.records.len()
    }

    /// Whether one of the recorded chunks holds a resource of `handles`.
    pub fn in_use(&self, handles: &ChunkHandles) -> (used: bool)
        requires
            self.wf(),
        ensures
            used == !handles_free(self@, *handles),
    {
        let mut i: usize = 0;
        while i < self.records.len()
            invariant
                i <= self.records.len(),
                self.inv(),
                forall|j: int|
                    0 <= j < i && (#[trigger] self.records@[j]).handles.is_some()
                        ==> !self.records@[j].handles.unwrap().spec_shares_with(*handles),
            decreases self.records.len() - i,
        {
            match self.records[i].handles {
                Some(held) => {
                    if held.shares_with(handles) {
                        proof {
                            lemma_records_map_at(self.records@, i as int);
                            assert(self@.dom().contains(self.records@[i as int].origin));
                        }
                        return true;
                    }
                },
                None => {},
            }
            i += 1;
        }
        proof {
            assert forall|k: Point3| #[trigger]
                self@.dom().contains(k) && self@[k].is_some() implies !self@[k].unwrap().spec_shares_with(
                *handles,
            ) by {
                let j = position_of(self.records@, k);
                lemma_records_map_at(self.records@, j);
            }
        }
        false
    }

    /// Records `origin` with the handles of its chunk, or with none for a
    /// chunk without visible faces. Nothing is recorded, and the answer is
    /// `false`, where the origin is recorded already or one of the handles is
    /// held by a recorded chunk.
    pub fn insert(&mut self, origin: Point3, handles: Option<ChunkHandles>) -> (inserted: bool)
        requires
            old(self).wf(),
        ensures
            final(self).wf(),
            inserted == (!old(self).recorded(origin) && (handles.is_some() ==> handles_free(
                old(self)@,
                handles.unwrap(),
            ))),
            inserted ==> final(self)@ == old(self)@.insert(origin, handles),
            !inserted ==> final(self)@ == old(self)@,
    {
        if self.find(origin).is_some() {
            return false;
        }
        match handles {
            Some(h) => {
                if self.in_use(&h) {
                    return false;
                }
            },
            None => {},
        }
        proof {
            lemma_records_map_push(self.records@, ChunkRecord { origin, handles });
        }
        self.records.push(ChunkRecord { origin, handles });
        true
    }

    /// Takes the record of `origin` out and hands it back.
    pub fn remove(&mut self, origin: Point3) -> (record: Option<Option<ChunkHandles>>)
        requires
            old(self).wf(),
        ensures
            final(self).wf(),
            final(self)@ == old(self)@.remove(origin),
            record.is_some() <==> old(self).recorded(origin),
            record.is_some() ==> record.unwrap() == old(self)@[origin],
    {
        match self.find(origin) {
            Some(i) => {
                proof {
                    lemma_records_map_remove(self.records@, i as int);
                }
                let record: ChunkRecord = self.records.remove(i);
                Some(record.handles)
            },
            None => {
                assert(self@.remove(origin) =~= self@);
                None
            },
        }
    }

    /// Lets the chunk at `origin` go: its record is taken out, and the steps
    /// that release its resources come back in the order in which they are
    /// to be taken. Afterwards no recorded chunk holds any of its handles.
    pub fn evict(&mut self, origin: Point3) -> (steps: Vec<ReleaseStep>)
        requires
            old(self).wf(),
        ensures
            final(self).wf(),
            final(self)@ == old(self)@.remove(origin),
            !final(self).recorded(origin),
            steps@ == (if old(self).recorded(origin) && old(self)@[origin].is_some() {
                spec_release_steps(old(self)@[origin].unwrap())
            } else {
                Seq::<ReleaseStep>::empty()
            }),
            old(self).recorded(origin) && old(self)@[origin].is_some() ==> handles_free(
                final(self)@,
                old(self)@[origin].unwrap(),
            ),
    {
        match self.remove(origin) {
            Some(Some(handles)) => release_steps(handles),
            _ => Vec::new(),
        }
    }

    /// The recorded origins, each once.
    pub fn origins(&self) -> (origins: Vec<Point3>)
        requires
            self.wf(),
        ensures
            origins@.no_duplicates(),
            forall|p: Point3| origins@.contains(p) <==> self.recorded(p),
    {
        let mut origins: Vec<Point3> = Vec::new();
        let mut i: usize = 0;
        while i < self.records.len()
            invariant
                i <= self.records.len(),
                self.inv(),
                origins@.len() == i,
                forall|j: int| 0 <= j < i ==> #[trigger] origins@[j] == self.records@[j].origin,
            decreases self.records.len() - i,
        {
            origins.push(self.records[i].origin);
            i += 1;
        }
        proof {
            assert forall|p: Point3| origins@.contains(p) <==> self.recorded(p) by {
                if origins@.contains(p) {
                    let j = choose|j: int| 0 <= j < origins@.len() && origins@[j] == p;
                    assert(self.records@[j].origin == p);
                }
                if self.recorded(p) {
                    let j = position_of(self.records@, p);
                    assert(origins@[j] == p);
                }
            }
        }
        origins
    }

    /// Lets go of every recorded chunk that the viewer does not need any
    /// more. The records that were taken out come back; what stays is what was
    /// recorded of the chunks that the viewer needs.
    pub fn evict_out_of_view(&mut self, viewer: Point3, config: &StreamConfig) -> (evicted: Vec<
        ChunkRecord,
    >)
        requires
            old(self).wf(),
            config.wf(),
            viewer_in_bounds(viewer),
        ensures
            final(self).wf(),
            forall|k: Point3|
                final(self).recorded(k) <==> old(self).recorded(k) && chunk_required(
                    k,
                    viewer,
                    *config,
                ),
            forall|k: Point3| final(self).recorded(k) ==> final(self)@[k] == old(self)@[k],
            distinct_origins(evicted@),
            forall|k: Point3|
                has_origin(evicted@, k) <==> old(self).recorded(k) && !chunk_required(
                    k,
                    viewer,
                    *config,
                ),
            forall|i: int|
                0 <= i < evicted@.len() ==> (#[trigger] evicted@[i]).handles == old(self)@[evicted@[i].origin],
            forall|i: int|
                0 <= i < evicted@.len() && (#[trigger] evicted@[i]).handles.is_some()
                    ==> handles_free(final(self)@, evicted@[i].handles.unwrap()),
    {
        let mut kept: Vec<ChunkRecord> = Vec::new();
        let mut evicted: Vec<ChunkRecord> = Vec::new();
        let mut i: usize = 0;
        while i < self.records.len()
            invariant
                i <= self.records.len(),
                self.records@ == old(self).records@,
                distinct_origins(self.records@),
                config.wf(),
                viewer_in_bounds(viewer),
                forall|a: int|
                    0 <= a < kept@.len() ==> exists|j: int|
                        0 <= j < i && self.records@[j] == #[trigger] kept@[a],
                forall|a: int|
                    0 <= a < evicted@.len() ==> exists|j: int|
                        0 <= j < i && self.records@[j] == #[trigger] evicted@[a],
                forall|a: int|
                    0 <= a < kept@.len() ==> chunk_required(
                        (#[trigger] kept@[a]).origin,
                        viewer,
                        *config,
                    ),
                forall|a: int|
                    0 <= a < evicted@.len() ==> !chunk_required(
                        (#[trigger] evicted@[a]).origin,
                        viewer,
                        *config,
                    ),
                forall|j: int|
                    0 <= j < i && chunk_required((#[trigger] self.records@[j]).origin, viewer, *config)
                        ==> has_origin(kept@, self.records@[j].origin),
                forall|j: int|
                    0 <= j < i && !chunk_required(
                        (#[trigger] self.records@[j]).origin,
                        viewer,
                        *config,
                    ) ==> has_origin(evicted@, self.records@[j].origin),
                distinct_origins(kept@),
                distinct_origins(evicted@),
            decreases self.records.len() - i,
        {
            let record: ChunkRecord = self.records[i];
            let ghost kept_before = kept@;
            let ghost evicted_before = evicted@;
            if is_chunk_required(record.origin, viewer, config) {
                proof {
                    if has_origin(kept@, record.origin) {
                        let a = position_of(kept@, record.origin);
                        let j = choose|j: int| 0 <= j < i && self.records@[j] == kept@[a];
                        assert(self.records@[j].origin == self.records@[i as int].origin);
                    }
                    lemma_records_map_push(kept@, record);
                }
                kept.push(record);
                proof {
                    lemma_has_origin_push(kept_before, record);
                }
            } else {
                proof {
                    if has_origin(evicted@, record.origin) {
                        let a = position_of(evicted@, record.origin);
                        let j = choose|j: int| 0 <= j < i && self.records@[j] == evicted@[a];
                        assert(self.records@[j].origin == self.records@[i as int].origin);
                    }
                    lemma_records_map_push(evicted@, record);
                }
                evicted.push(record);
                proof {
                    lemma_has_origin_push(evicted_before, record);
                }
            }
            proof {
                assert forall|a: int| 0 <= a < kept@.len() implies exists|j: int|
                    0 <= j < i + 1 && self.records@[j] == #[trigger] kept@[a] by {
                    if a < kept_before.len() {
                        let j = choose|j: int| 0 <= j < i && self.records@[j] == kept_before[a];
                        assert(self.records@[j] == kept@[a]);
                    } else {
                        assert(self.records@[i as int] == kept@[a]);
                    }
                }
                assert forall|a: int| 0 <= a < evicted@.len() implies exists|j: int|
                    0 <= j < i + 1 && self.records@[j] == #[trigger] evicted@[a] by {
                    if a < evicted_before.len() {
                        let j = choose|j: int| 0 <= j < i && self.records@[j] == evicted_before[a];
                        assert(self.records@[j] == evicted@[a]);
                    } else {
                        assert(self.records@[i as int] == evicted@[a]);
                    }
                }
            }
            i += 1;
        }
        proof {
            let before = self.records@;
            assert forall|k: Point3|
                has_origin(kept@, k) <==> has_origin(before, k) && chunk_required(
                    k,
                    viewer,
                    *config,
                ) by {
                if has_origin(kept@, k) {
                    let a = position_of(kept@, k);
                    let j = choose|j: int| 0 <= j < before.len() && before[j] == kept@[a];
                    assert(before[j].origin == k);
                }
                if has_origin(before, k) && chunk_required(k, viewer, *config) {
                    let j = position_of(before, k);
                    assert(has_origin(kept@, before[j].origin));
                }
            }
            assert forall|k: Point3|
                has_origin(evicted@, k) <==> has_origin(before, k) && !chunk_required(
                    k,
                    viewer,
                    *config,
                ) by {
                if has_origin(evicted@, k) {
                    let a = position_of(evicted@, k);
                    let j = choose|j: int| 0 <= j < before.len() && before[j] == evicted@[a];
                    assert(before[j].origin == k);
                }
                if has_origin(before, k) && !chunk_required(k, viewer, *config) {
                    let j = position_of(before, k);
                    assert(has_origin(evicted@, before[j].origin));
                }
            }
            assert forall|k: Point3| has_origin(kept@, k) implies records_map(kept@)[k]
                == records_map(before)[k] by {
                let a = position_of(kept@, k);
                let j = choose|j: int| 0 <= j < before.len() && before[j] == kept@[a];
                lemma_records_map_at(kept@, a);
                lemma_records_map_at(before, j);
            }
            assert forall|a: int| 0 <= a < evicted@.len() implies (#[trigger] evicted@[a]).handles
                == records_map(before)[evicted@[a].origin] by {
                let j = choose|j: int| 0 <= j < before.len() && before[j] == evicted@[a];
                lemma_records_map_at(before, j);
            }
            assert forall|a: int|
                0 <= a < evicted@.len() && (#[trigger] evicted@[a]).handles.is_some() implies handles_free(
                records_map(kept@),
                evicted@[a].handles.unwrap(),
            ) by {
                let gone = evicted@[a];
                assert(has_origin(evicted@, gone.origin));
                assert forall|k: Point3| #[trigger]
                    records_map(kept@).dom().contains(k) && records_map(kept@)[k].is_some() implies !records_map(
                    kept@,
                )[k].unwrap().spec_shares_with(gone.handles.unwrap()) by {
                    assert(records_map(before).dom().contains(k));
                    assert(records_map(before).dom().contains(gone.origin));
                }
            }
            assert(handles_unique(records_map(kept@))) by {
                assert forall|j: Point3, k: Point3|
                    #![trigger records_map(kept@).dom().contains(j), records_map(kept@).dom().contains(k)]
                    records_map(kept@).dom().contains(j) && records_map(kept@).dom().contains(k) && j
                        != k && records_map(kept@)[j].is_some() && records_map(kept@)[k].is_some() implies !records_map(
                    kept@,
                )[j].unwrap().spec_shares_with(records_map(kept@)[k].unwrap()) by {
                    assert(records_map(before).dom().contains(j));
                    assert(records_map(before).dom().contains(k));
                }
            }
        }
        self.records = kept;
        evicted
    }
}

/// After a record is added, the origins of the records are those from before
/// and its own.
pub proof fn lemma_has_origin_push(records: Seq<ChunkRecord>, record: ChunkRecord)
    ensures
        forall|k: Point3|
            has_origin(records.push(record), k) <==> has_origin(records, k) || k == record.origin,
{
    let after = records.push(record);
    assert forall|k: Point3| has_origin(after, k) <==> has_origin(records, k) || k
        == record.origin by {
        if has_origin(after, k) {
            let i = position_of(after, k);
            if i < records.len() {
                assert(records[i].origin == k);
            }
        }
        if has_origin(records, k) {
            let i = position_of(records, k);
            assert(after[i].origin == k);
        }
        if k == record.origin {
            assert(after[records.len() as int].origin == k);
        }
    }
}

} // verus!
