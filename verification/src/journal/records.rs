//! The journal's records, and what a restart and a retention pass do to them.
use crate::app_error::{error_is_bounded, safe_text_of, AppError, MAX_ERROR_SUMMARY_BYTES};
use crate::journal::{
    always_kept, contains_id, kept_at, rank_among, recent_terminal, retained_before, retained_id,
    retained_operation_ids, text_less, text_less_exec, JournalRetentionChanges,
    OperationRetentionMetadata,
};
use crate::models::{
    OperationKind, OperationState, PlaylistAdmissionReceipt, QueueItemRecord, QueueItemState,
    QueuePreparation, APP_SCHEMA_VERSION,
};
use crate::text::{chars_of, str_eq, views_of_strings};
use vstd::prelude::*;

verus! {

/// The pending app-update record that a restart must not lose.
#[derive(Debug, Clone)]
pub struct PendingAppUpdateRecovery {
    pub operation_id: String,
    pub expected_version: String,
    pub prepared_at_ms: u64,
}

/// What the journal keeps of an operation snapshot. The progress fraction and
/// the inspection payload stay with the caller; `has_inspection_result` says
/// whether a payload is attached.
#[derive(Debug, Clone)]
pub struct OperationRecord {
    pub schema_version: u32,
    pub id: String,
    pub queue_item_id: Option<String>,
    pub kind: OperationKind,
    pub state: OperationState,
    pub phase: Option<String>,
    pub sequence: u64,
    pub created_at_ms: u64,
    pub updated_at_ms: u64,
    pub finished_at_ms: Option<u64>,
    pub error: Option<AppError>,
    pub has_inspection_result: bool,
    pub playlist_admission: Option<PlaylistAdmissionReceipt>,
    pub correlation_id: String,
    /// The path of the file a completed download published.
    pub published_output_path: Option<String>,
}

/// The persisted queue and operation history.
#[derive(Debug, Clone)]
pub struct PersistentJournal {
    pub schema_version: u32,
    pub revision: u64,
    pub queue: Vec<QueueItemRecord>,
    pub operations: Vec<OperationRecord>,
    pub pending_app_update: Option<PendingAppUpdateRecovery>,
}

impl Default for PersistentJournal {
    /// An empty journal of the current schema.
    fn default() -> (j: Self)
        ensures
            j.schema_version == APP_SCHEMA_VERSION,
            j.revision == 0,
            j.queue@.len() == 0,
            j.operations@.len() == 0,
            j.pending_app_update is None,
    {
        PersistentJournal {
            schema_version: APP_SCHEMA_VERSION,
            revision: 0,
            queue: Vec::new(),
            operations: Vec::new(),
            pending_app_update: None,
        }
    }
}

/// The id of the operation that the pending app update belongs to.
pub open spec fn pending_id(j: PersistentJournal) -> Option<Seq<char>> {
    match j.pending_app_update {
        Some(p) => Some(p.operation_id@),
        None => None,
    }
}

/// What retention reads of an operation record.
pub open spec fn meta_of(o: OperationRecord) -> OperationRetentionMetadata {
    OperationRetentionMetadata {
        id: o.id,
        state: o.state,
        finished_at_ms: o.finished_at_ms,
        updated_at_ms: o.updated_at_ms,
    }
}

pub open spec fn metas(ops: Seq<OperationRecord>) -> Seq<OperationRetentionMetadata> {
    ops.map_values(|o: OperationRecord| meta_of(o))
}

/// Some queue item has this id.
pub open spec fn queue_has_id(queue: Seq<QueueItemRecord>, id: Seq<char>) -> bool {
    exists|i: int| 0 <= i < queue.len() && queue[i].id@ == id
}

/// The item is being prepared by the operation with this id.
pub open spec fn prepared_by(item: QueueItemRecord, id: Seq<char>) -> bool {
    item.preparation_operation_id matches Some(p) && p@ == id
}

/// Some queue item is being prepared by the operation with this id.
pub open spec fn prepares(queue: Seq<QueueItemRecord>, id: Seq<char>) -> bool {
    exists|i: int| 0 <= i < queue.len() && #[trigger] prepared_by(queue[i], id)
}

/// The operation's playlist receipt admitted an item that is still queued.
pub open spec fn admits_queued_item(o: OperationRecord, queue: Seq<QueueItemRecord>) -> bool {
    o.playlist_admission matches Some(r) && exists|m: int|
        0 <= m < r.item_ids@.len() && queue_has_id(queue, r.item_ids@[m]@)
}

/// Some operation with this id admitted an item that is still queued.
pub open spec fn admitted_by(ops: Seq<OperationRecord>, queue: Seq<QueueItemRecord>, id: Seq<char>) -> bool {
    exists|k: int| 0 <= k < ops.len() && ops[k].id@ == id && admits_queued_item(ops[k], queue)
}

/// Retention keeps the operations with this id: retention proper keeps it,
/// or a queue item is being prepared by it, or its playlist receipt admitted
/// an item that is still queued.
pub open spec fn keeps_operation(j: PersistentJournal, now_ms: u64, id: Seq<char>) -> bool {
    ||| retained_id(metas(j.operations@), pending_id(j), now_ms, id)
    ||| prepares(j.queue@, id)
    ||| admitted_by(j.operations@, j.queue@, id)
}

/// The test that retention applies to an operation id.
pub open spec fn kept_by(j: PersistentJournal, now_ms: u64) -> spec_fn(Seq<char>) -> bool {
    |id: Seq<char>| keeps_operation(j, now_ms, id)
}

/// The records whose id `keep` accepts, in their order.
pub open spec fn kept_records(ops: Seq<OperationRecord>, keep: spec_fn(Seq<char>) -> bool) -> Seq<
    OperationRecord,
>
    decreases ops.len(),
{
    if ops.len() == 0 {
        Seq::empty()
    } else {
        let prev = kept_records(ops.drop_last(), keep);
        if keep(ops.last().id@) {
            prev.push(ops.last())
        } else {
            prev
        }
    }
}

/// The ids of the records that `keep` rejects, in their order.
pub open spec fn dropped_ids(ops: Seq<OperationRecord>, keep: spec_fn(Seq<char>) -> bool) -> Seq<
    Seq<char>,
>
    decreases ops.len(),
{
    if ops.len() == 0 {
        Seq::empty()
    } else {
        let prev = dropped_ids(ops.drop_last(), keep);
        if keep(ops.last().id@) {
            prev
        } else {
            prev.push(ops.last().id@)
        }
    }
}

/// `a` was created before `b`, ties broken by the id's character order.
pub open spec fn created_before(a: OperationRecord, b: OperationRecord) -> bool {
    ||| a.created_at_ms < b.created_at_ms
    ||| (a.created_at_ms == b.created_at_ms && text_less(a.id@, b.id@))
}

/// Operations ordered by creation time and then id.
pub open spec fn sorted_by_creation(s: Seq<OperationRecord>) -> bool {
    forall|i: int, j: int| 0 <= i < j < s.len() ==> !created_before(#[trigger] s[j], #[trigger] s[i])
}

/// Where `op` goes in `v`: before the first record created after it, so that
/// records that tie keep their order.
pub open spec fn insert_position(v: Seq<OperationRecord>, op: OperationRecord) -> nat
    decreases v.len(),
{
    if v.len() == 0 || created_before(op, v[0]) {
        0
    } else {
        1 + insert_position(v.drop_first(), op)
    }
}

/// The records of `s` ordered by creation time and id by inserting each in
/// turn after every record created no later than it: a stable sort.
pub open spec fn sort_by_creation(s: Seq<OperationRecord>) -> Seq<OperationRecord>
    decreases s.len(),
{
    if s.len() == 0 {
        Seq::empty()
    } else {
        let prev = sort_by_creation(s.drop_last());
        prev.insert(insert_position(prev, s.last()) as int, s.last())
    }
}

/// Some operation has this id.
pub open spec fn has_operation(ops: Seq<OperationRecord>, id: Seq<char>) -> bool {
    exists|k: int| 0 <= k < ops.len() && ops[k].id@ == id
}

/// The item's latest-operation link points at no operation.
pub open spec fn dangling(item: QueueItemRecord, ops: Seq<OperationRecord>) -> bool {
    item.latest_operation_id matches Some(x) && !has_operation(ops, x@)
}

/// The item with a dangling latest-operation link removed.
pub open spec fn repaired(item: QueueItemRecord, ops: Seq<OperationRecord>) -> QueueItemRecord {
    if dangling(item, ops) {
        QueueItemRecord { latest_operation_id: None, ..item }
    } else {
        item
    }
}

/// The ids of the items whose link is dangling, in queue order.
pub open spec fn cleared_ids(queue: Seq<QueueItemRecord>, ops: Seq<OperationRecord>) -> Seq<Seq<char>>
    decreases queue.len(),
{
    if queue.len() == 0 {
        Seq::empty()
    } else {
        let prev = cleared_ids(queue.drop_last(), ops);
        if dangling(queue.last(), ops) {
            prev.push(queue.last().id@)
        } else {
            prev
        }
    }
}

/// A retention pass from `old` to `new` at `now_ms`: exactly the operations
/// that retention keeps remain, ordered by creation (a stable sort, so
/// records that tie keep their order); links to operations that
/// are gone are cleared; nothing else changes.
pub open spec fn pruned(old: PersistentJournal, new: PersistentJournal, now_ms: u64) -> bool {
    let keep = kept_by(old, now_ms);
    &&& new.schema_version == old.schema_version
    &&& new.revision == old.revision
    &&& new.pending_app_update == old.pending_app_update
    &&& new.operations@ == sort_by_creation(kept_records(old.operations@, keep))
    &&& new.operations@.to_multiset() == kept_records(old.operations@, keep).to_multiset()
    &&& sorted_by_creation(new.operations@)
    &&& new.queue@.len() == old.queue@.len()
    &&& forall|i: int|
        0 <= i < old.queue@.len() ==> #[trigger] new.queue@[i] == repaired(old.queue@[i], new.operations@)
}

/// `text_less` is transitive.
pub proof fn lemma_text_less_transitive(a: Seq<char>, b: Seq<char>, c: Seq<char>)
    requires
        text_less(a, b),
        text_less(b, c),
    ensures
        text_less(a, c),
    decreases a.len(),
{
    if a.len() > 0 && b.len() > 0 && c.len() > 0 && a[0] == b[0] && b[0] == c[0] {
        lemma_text_less_transitive(a.drop_first(), b.drop_first(), c.drop_first());
    }
}

/// No text comes before itself.
pub proof fn lemma_text_less_irreflexive(a: Seq<char>)
    ensures
        !text_less(a, a),
    decreases a.len(),
{
    if a.len() > 0 {
        lemma_text_less_irreflexive(a.drop_first());
    }
}

/// `created_before` is transitive.
pub proof fn lemma_created_before_transitive(a: OperationRecord, b: OperationRecord, c: OperationRecord)
    requires
        created_before(a, b),
        created_before(b, c),
    ensures
        created_before(a, c),
{
    if a.created_at_ms == b.created_at_ms && b.created_at_ms == c.created_at_ms {
        lemma_text_less_transitive(a.id@, b.id@, c.id@);
    }
}

fn created_before_exec(a: &OperationRecord, b: &OperationRecord) -> (r: bool)
    ensures
        r == created_before(*a, *b),
{
    if a.created_at_ms != b.created_at_ms {
        return a.created_at_ms < b.created_at_ms;
    }
    let x = chars_of(a.id.as_str());
    let y = chars_of(b.id.as_str());
    text_less_exec(x.as_slice(), y.as_slice())
}

/// Inserting into a sequence adds the element to its multiset.
proof fn lemma_insert_to_multiset<A>(s: Seq<A>, p: int, x: A)
    requires
        0 <= p <= s.len(),
    ensures
        s.insert(p, x).to_multiset() =~= s.to_multiset().insert(x),
{
    broadcast use vstd::seq_lib::group_to_multiset_ensures;

    let t = s.insert(p, x);
    assert(t.remove(p) =~= s);
    assert(t[p] == x);
    assert(t.to_multiset().count(x) > 0) by {
        assert(t.contains(x));
    }
    assert(s.to_multiset() =~= t.to_multiset().remove(x));
}

/// Inserts `op` after every record created no later than it.
fn insert_by_creation(v: &mut Vec<OperationRecord>, op: OperationRecord)
    requires
        sorted_by_creation(old(v)@),
    ensures
        sorted_by_creation(final(v)@),
        final(v)@.to_multiset() =~= old(v)@.to_multiset().insert(op),
        final(v)@ == old(v)@.insert(insert_position(old(v)@, op) as int, op),
{
    let mut p: usize = 0;
    while p < v.len() && !created_before_exec(&op, &v[p])
        invariant
            p <= v@.len(),
            forall|i: int| 0 <= i < p ==> !created_before(op, #[trigger] v@[i]),
        decreases v@.len() - p,
    {
        p += 1;
    }
    let ghost before = v@;
    proof {
        lemma_insert_to_multiset(before, p as int, op);
        lemma_insert_position_is(before, op, p as int);
    }
    v.insert(p, op);
    proof {
        assert(v@ =~= before.insert(p as int, op));
        assert forall|i: int, j: int| 0 <= i < j < v@.len() implies !created_before(
            #[trigger] v@[j],
            #[trigger] v@[i],
        ) by {
            if i < p && j == p {
            } else if j < p {
                assert(v@[j] == before[j]);
                assert(v@[i] == before[i]);
            } else if i < p && j > p {
                assert(v@[j] == before[j - 1]);
                assert(v@[i] == before[i]);
            } else if i == p {
                // op comes before before[p], which comes no later than v@[j]
                assert(v@[j] == before[j - 1]);
                assert(p < before.len());
                assert(created_before(op, before[p as int]));
                if created_before(v@[j], op) {
                    lemma_created_before_transitive(v@[j], op, before[p as int]);
                    if j - 1 > p {
                        assert(!created_before(before[j - 1], before[p as int]));
                    } else {
                        lemma_text_less_irreflexive(before[p as int].id@);
                    }
                }
            } else {
                assert(v@[j] == before[j - 1]);
                assert(v@[i] == before[i - 1]);
            }
        }
    }
}

/// Two retention views that agree on everything retention reads.
pub open spec fn same_meta(a: OperationRetentionMetadata, b: OperationRetentionMetadata) -> bool {
    &&& a.id@ == b.id@
    &&& a.state == b.state
    &&& a.finished_at_ms == b.finished_at_ms
    &&& a.updated_at_ms == b.updated_at_ms
}

proof fn lemma_rank_same_views(
    a: Seq<OperationRetentionMetadata>,
    b: Seq<OperationRetentionMetadata>,
    k: int,
    x: OperationRetentionMetadata,
    y: OperationRetentionMetadata,
    pending: Option<Seq<char>>,
    now_ms: u64,
)
    requires
        a.len() == b.len(),
        k <= a.len(),
        forall|i: int| 0 <= i < a.len() ==> same_meta(#[trigger] a[i], b[i]),
        same_meta(x, y),
    ensures
        rank_among(a, k, x, pending, now_ms) == rank_among(b, k, y, pending, now_ms),
    decreases k,
{
    if k > 0 {
        lemma_rank_same_views(a, b, k - 1, x, y, pending, now_ms);
        assert(same_meta(a[k - 1], b[k - 1]));
    }
}

/// Retention decides by ids' views and times only.
proof fn lemma_retained_id_same_views(
    a: Seq<OperationRetentionMetadata>,
    b: Seq<OperationRetentionMetadata>,
    pending: Option<Seq<char>>,
    now_ms: u64,
    id: Seq<char>,
)
    requires
        a.len() == b.len(),
        forall|i: int| 0 <= i < a.len() ==> same_meta(#[trigger] a[i], b[i]),
    ensures
        retained_id(a, pending, now_ms, id) == retained_id(b, pending, now_ms, id),
{
    assert forall|i: int| 0 <= i < a.len() implies kept_at(a, i, pending, now_ms) == kept_at(
        b,
        i,
        pending,
        now_ms,
    ) by {
        assert(same_meta(a[i], b[i]));
        lemma_rank_same_views(a, b, a.len() as int, a[i], b[i], pending, now_ms);
    }
    if retained_id(a, pending, now_ms, id) {
        let i = choose|i: int| 0 <= i < a.len() && a[i].id@ == id && kept_at(a, i, pending, now_ms);
        assert(same_meta(a[i], b[i]));
    }
    if retained_id(b, pending, now_ms, id) {
        let i = choose|i: int| 0 <= i < b.len() && b[i].id@ == id && kept_at(b, i, pending, now_ms);
        assert(same_meta(a[i], b[i]));
    }
}

fn retention_views(ops: &Vec<OperationRecord>) -> (v: Vec<OperationRetentionMetadata>)
    ensures
        v@.len() == ops@.len(),
        forall|i: int| 0 <= i < ops@.len() ==> same_meta(#[trigger] v@[i], meta_of(ops@[i])),
{
    let mut v: Vec<OperationRetentionMetadata> = Vec::new();
    let mut i: usize = 0;
    while i < ops.len()
        invariant
            i <= ops@.len(),
            v@.len() == i,
            forall|k: int| 0 <= k < i ==> same_meta(#[trigger] v@[k], meta_of(ops@[k])),
        decreases ops@.len() - i,
    {
        let o = &ops[i];
        v.push(
            OperationRetentionMetadata {
                id: o.id.clone(),
                state: o.state,
                finished_at_ms: o.finished_at_ms,
                updated_at_ms: o.updated_at_ms,
            },
        );
        i += 1;
    }
    v
}

fn queue_contains_id(queue: &Vec<QueueItemRecord>, id: &str) -> (b: bool)
    ensures
        b == queue_has_id(queue@, id@),
{
    let mut i: usize = 0;
    while i < queue.len()
        invariant
            i <= queue@.len(),
            forall|k: int| 0 <= k < i ==> queue@[k].id@ != id@,
        decreases queue@.len() - i,
    {
        if str_eq(queue[i].id.as_str(), id) {
            return true;
        }
        i += 1;
    }
    false
}

fn admits_queued_item_exec(o: &OperationRecord, queue: &Vec<QueueItemRecord>) -> (b: bool)
    ensures
        b == admits_queued_item(*o, queue@),
{
    match &o.playlist_admission {
        None => false,
        Some(r) => {
            let mut m: usize = 0;
            while m < r.item_ids.len()
                invariant
                    m <= r.item_ids@.len(),
                    o.playlist_admission == Some(*r),
                    forall|k: int| 0 <= k < m ==> !queue_has_id(queue@, #[trigger] r.item_ids@[k]@),
                decreases r.item_ids@.len() - m,
            {
                if queue_contains_id(queue, r.item_ids[m].as_str()) {
                    proof {
                        let rr = o.playlist_admission.unwrap();
                        assert(rr == *r);
                        assert(queue_has_id(queue@, rr.item_ids@[m as int]@));
                        assert(admits_queued_item(*o, queue@));
                    }
                    return true;
                }
                m += 1;
            }
            false
        },
    }
}

fn has_operation_exec(ops: &Vec<OperationRecord>, id: &str) -> (b: bool)
    ensures
        b == has_operation(ops@, id@),
{
    let mut i: usize = 0;
    while i < ops.len()
        invariant
            i <= ops@.len(),
            forall|k: int| 0 <= k < i ==> ops@[k].id@ != id@,
        decreases ops@.len() - i,
    {
        if str_eq(ops[i].id.as_str(), id) {
            return true;
        }
        i += 1;
    }
    false
}

impl PersistentJournal {
    /// The ids of the operations that a retention pass keeps (with repeats).
    fn kept_operation_ids(&self, now_ms: u64) -> (ids: Vec<String>)
        ensures
            forall|id: Seq<char>|
                views_of_strings(ids@).contains(id) <==> keeps_operation(*self, now_ms, id),
    {
        let views = retention_views(&self.operations);
        let pending: Option<&str> = match &self.pending_app_update {
            Some(p) => Some(p.operation_id.as_str()),
            None => None,
        };
        let mut ids = retained_operation_ids(&views, pending, now_ms);
        let ghost spec_views = metas(self.operations@);
        proof {
            assert forall|id: Seq<char>| #[trigger]
                retained_id(views@, pending_id(*self), now_ms, id) == retained_id(
                    spec_views,
                    pending_id(*self),
                    now_ms,
                    id,
                ) by {
                assert forall|i: int| 0 <= i < views@.len() implies same_meta(
                    #[trigger] views@[i],
                    spec_views[i],
                ) by {
                    assert(same_meta(views@[i], meta_of(self.operations@[i])));
                }
                lemma_retained_id_same_views(views@, spec_views, pending_id(*self), now_ms, id);
            }
        }
        let mut i: usize = 0;
        while i < self.queue.len()
            invariant
                i <= self.queue@.len(),
                forall|id: Seq<char>|
                    views_of_strings(ids@).contains(id) <==> (retained_id(
                        spec_views,
                        pending_id(*self),
                        now_ms,
                        id,
                    ) || exists|q: int| 0 <= q < i && #[trigger] prepared_by(self.queue@[q], id)),
            decreases self.queue@.len() - i,
        {
            let ghost before = ids@;
            if let Some(p) = &self.queue[i].preparation_operation_id {
                ids.push(p.clone());
                proof {
                    assert(views_of_strings(ids@) =~= views_of_strings(before).push(p@));
                }
            }
            proof {
                assert forall|id: Seq<char>|
                    views_of_strings(ids@).contains(id) <==> (retained_id(
                        spec_views,
                        pending_id(*self),
                        now_ms,
                        id,
                    ) || exists|q: int| 0 <= q < i + 1 && #[trigger] prepared_by(self.queue@[q], id)) by {
                    if prepared_by(self.queue@[i as int], id) {
                        assert(views_of_strings(ids@).last() == id);
                    }
                    if views_of_strings(ids@).contains(id) && !views_of_strings(before).contains(id) {
                        let w = choose|w: int| 0 <= w < views_of_strings(ids@).len() && views_of_strings(ids@)[w] == id;
                        if w < before.len() {
                            assert(views_of_strings(before)[w] == id);
                        }
                        assert(prepared_by(self.queue@[i as int], id));
                    }
                    if views_of_strings(before).contains(id) {
                        let w = choose|w: int| 0 <= w < views_of_strings(before).len() && views_of_strings(before)[w] == id;
                        assert(views_of_strings(ids@)[w] == id);
                    }
                }
            }
            i += 1;
        }
        let mut k: usize = 0;
        while k < self.operations.len()
            invariant
                k <= self.operations@.len(),
                forall|id: Seq<char>|
                    views_of_strings(ids@).contains(id) <==> (retained_id(
                        spec_views,
                        pending_id(*self),
                        now_ms,
                        id,
                    ) || prepares(self.queue@, id) || exists|j: int|
                        0 <= j < k && self.operations@[j].id@ == id && #[trigger] admits_queued_item(
                            self.operations@[j],
                            self.queue@,
                        )),
            decreases self.operations@.len() - k,
        {
            let ghost before = ids@;
            if admits_queued_item_exec(&self.operations[k], &self.queue) {
                ids.push(self.operations[k].id.clone());
                proof {
                    assert(views_of_strings(ids@) =~= views_of_strings(before).push(
                        self.operations@[k as int].id@,
                    ));
                }
            }
            proof {
                let ok = self.operations@[k as int];
                assert forall|id: Seq<char>|
                    views_of_strings(ids@).contains(id) <==> (retained_id(
                        spec_views,
                        pending_id(*self),
                        now_ms,
                        id,
                    ) || prepares(self.queue@, id) || exists|j: int|
                        0 <= j < k + 1 && self.operations@[j].id@ == id && #[trigger] admits_queued_item(
                            self.operations@[j],
                            self.queue@,
                        )) by {
                    if ok.id@ == id && admits_queued_item(ok, self.queue@) {
                        assert(views_of_strings(ids@).last() == id);
                    }
                    if views_of_strings(ids@).contains(id) && !views_of_strings(before).contains(id) {
                        let w = choose|w: int| 0 <= w < views_of_strings(ids@).len() && views_of_strings(ids@)[w] == id;
                        if w < before.len() {
                            assert(views_of_strings(before)[w] == id);
                        }
                        assert(ok.id@ == id && admits_queued_item(ok, self.queue@));
                    }
                    if views_of_strings(before).contains(id) {
                        let w = choose|w: int| 0 <= w < views_of_strings(before).len() && views_of_strings(before)[w] == id;
                        assert(views_of_strings(ids@)[w] == id);
                    }
                }
            }
            k += 1;
        }
        ids
    }
}

impl PersistentJournal {
    /// Drops the operation records that retention does not keep, orders the
    /// rest by creation time and id, and clears the latest-operation links
    /// that now point at no record. Returns what was removed and cleared.
    pub fn prune_and_repair_latest_references(&mut self, now_ms: u64) -> (changes:
        JournalRetentionChanges)
        ensures
            pruned(*old(self), *final(self), now_ms),
            views_of_strings(changes.removed_operation_ids@) == dropped_ids(
                old(self).operations@,
                kept_by(*old(self), now_ms),
            ),
            views_of_strings(changes.cleared_latest_operation_item_ids@) == cleared_ids(
                old(self).queue@,
                final(self).operations@,
            ),
    {
        let ghost j0 = *self;
        let ghost keep = kept_by(j0, now_ms);
        let keep_ids = self.kept_operation_ids(now_ms);
        let mut rest: Vec<OperationRecord> = Vec::new();
        std::mem::swap(&mut rest, &mut self.operations);
        let ghost ops0 = rest@;
        let mut kept: Vec<OperationRecord> = Vec::new();
        let mut removed: Vec<String> = Vec::new();
        let ghost mut i: int = 0;
        proof {
            assert(ops0.skip(0) =~= ops0);
            assert(ops0.take(0) =~= Seq::<OperationRecord>::empty());
        }
        while rest.len() > 0
            invariant
                ops0 == j0.operations@,
                self.queue == j0.queue,
                self.schema_version == j0.schema_version,
                self.revision == j0.revision,
                self.pending_app_update == j0.pending_app_update,
                0 <= i <= ops0.len(),
                rest@ == ops0.skip(i),
                forall|id: Seq<char>| views_of_strings(keep_ids@).contains(id) <==> keep(id),
                sorted_by_creation(kept@),
                kept@ == sort_by_creation(kept_records(ops0.take(i), keep)),
                kept@.to_multiset() == kept_records(ops0.take(i), keep).to_multiset(),
                views_of_strings(removed@) == dropped_ids(ops0.take(i), keep),
            decreases rest@.len(),
        {
            let op = rest.remove(0);
            proof {
                assert(op == ops0[i]);
                assert(ops0.take(i + 1).drop_last() =~= ops0.take(i));
                assert(ops0.take(i + 1).last() == ops0[i]);
            }
            if contains_id(&keep_ids, op.id.as_str()) {
                let ghost before = kept@;
                insert_by_creation(&mut kept, op);
                proof {
                    broadcast use vstd::seq_lib::group_to_multiset_ensures;

                    let prev = kept_records(ops0.take(i), keep);
                    assert(kept_records(ops0.take(i + 1), keep) =~= prev.push(ops0[i]));
                    assert(prev.push(ops0[i]).drop_last() =~= prev);
                    assert(prev.push(ops0[i]).last() == ops0[i]);
                    assert(sort_by_creation(prev.push(ops0[i])) == sort_by_creation(prev).insert(
                        insert_position(sort_by_creation(prev), ops0[i]) as int,
                        ops0[i],
                    ));
                }
            } else {
                let ghost before = removed@;
                removed.push(op.id);
                proof {
                    assert(views_of_strings(removed@) =~= views_of_strings(before).push(ops0[i].id@));
                }
            }
            proof {
                i = i + 1;
                assert(rest@ =~= ops0.skip(i));
            }
        }
        proof {
            assert(ops0.take(i) =~= ops0);
        }
        self.operations = kept;
        let mut items: Vec<QueueItemRecord> = Vec::new();
        std::mem::swap(&mut items, &mut self.queue);
        let ghost q0 = items@;
        let ghost final_ops = self.operations@;
        let mut cleared: Vec<String> = Vec::new();
        let ghost mut n: int = 0;
        proof {
            assert(q0.skip(0) =~= q0);
        }
        while items.len() > 0
            invariant
                q0 == j0.queue@,
                self.operations@ == final_ops,
                final_ops == sort_by_creation(kept_records(j0.operations@, keep)),
                sorted_by_creation(final_ops),
                final_ops.to_multiset() == kept_records(j0.operations@, keep).to_multiset(),
                keep == kept_by(j0, now_ms),
                self.schema_version == j0.schema_version,
                self.revision == j0.revision,
                self.pending_app_update == j0.pending_app_update,
                0 <= n <= q0.len(),
                items@ == q0.skip(n),
                self.queue@.len() == n,
                forall|k: int| 0 <= k < n ==> #[trigger] self.queue@[k] == repaired(q0[k], self.operations@),
                views_of_strings(cleared@) == cleared_ids(q0.take(n), self.operations@),
            decreases items@.len(),
        {
            let item = items.remove(0);
            proof {
                assert(item == q0[n]);
                assert(q0.take(n + 1).drop_last() =~= q0.take(n));
                assert(q0.take(n + 1).last() == q0[n]);
            }
            let is_dangling = match &item.latest_operation_id {
                Some(x) => !has_operation_exec(&self.operations, x.as_str()),
                None => false,
            };
            let ghost before_q = self.queue@;
            if is_dangling {
                let ghost before_c = cleared@;
                cleared.push(item.id.clone());
                proof {
                    assert(views_of_strings(cleared@) =~= views_of_strings(before_c).push(q0[n].id@));
                }
                self.queue.push(QueueItemRecord { latest_operation_id: None, ..item });
            } else {
                self.queue.push(item);
            }
            proof {
                assert forall|k: int| 0 <= k < n + 1 implies #[trigger] self.queue@[k] == repaired(
                    q0[k],
                    self.operations@,
                ) by {
                    if k < n {
                        assert(self.queue@[k] == before_q[k]);
                    }
                }
                n = n + 1;
                assert(items@ =~= q0.skip(n));
            }
        }
        proof {
            assert(q0.take(n) =~= q0);
        }
        JournalRetentionChanges { removed_operation_ids: removed, cleared_latest_operation_item_ids: cleared }
    }
}

/// The summary of the error recorded on an operation that a restart interrupted.
pub const INTERRUPTED_SUMMARY: &'static str = "The application stopped before this operation finished.";

/// The error recorded on an operation that a restart interrupted.
pub open spec fn interrupted_error(e: AppError) -> bool {
    &&& e.code@ == "interrupted"@
    &&& e.summary@ == safe_text_of(INTERRUPTED_SUMMARY@, MAX_ERROR_SUMMARY_BYTES as nat)
    &&& e.detail is None
    &&& e.retryable
    &&& error_is_bounded(e)
}

/// Queue work that was waiting or running when the application stopped.
pub open spec fn was_active(q: QueueItemRecord) -> bool {
    q.state is Queued || q.state is Running
}

/// A queue item after a restart: waiting or running work is interrupted.
pub open spec fn restarted_item(q: QueueItemRecord, now_ms: u64) -> QueueItemRecord {
    if was_active(q) {
        QueueItemRecord { state: QueueItemState::Interrupted, updated_at_ms: now_ms, ..q }
    } else {
        q
    }
}

/// The operation was unfinished and is not the pending app update.
pub open spec fn interrupted_by_restart(o: OperationRecord, pending: Option<Seq<char>>) -> bool {
    !o.state.spec_is_terminal() && pending != Some(o.id@)
}

/// An operation after a restart: its inspection payload is dropped, and an
/// unfinished operation other than the pending app update is interrupted at
/// `now_ms` with the interruption error.
pub open spec fn restarted_operation(
    o: OperationRecord,
    r: OperationRecord,
    pending: Option<Seq<char>>,
    now_ms: u64,
) -> bool {
    if interrupted_by_restart(o, pending) {
        &&& r.error matches Some(e) && interrupted_error(e)
        &&& r == OperationRecord {
            state: OperationState::Interrupted,
            phase: None,
            finished_at_ms: Some(now_ms),
            updated_at_ms: now_ms,
            error: r.error,
            has_inspection_result: false,
            ..o
        }
    } else {
        r == OperationRecord { has_inspection_result: false, ..o }
    }
}

/// The operation is an interrupted inspection preparing the item with this id.
pub open spec fn interrupted_preparation_of(o: OperationRecord, item_id: Seq<char>) -> bool {
    &&& o.kind is Inspection
    &&& o.state is Interrupted
    &&& o.queue_item_id matches Some(q) && q@ == item_id
}

/// Some interrupted inspection was preparing the item with this id.
pub open spec fn preparation_interrupted(ops: Seq<OperationRecord>, item_id: Seq<char>) -> bool {
    exists|k: int| 0 <= k < ops.len() && #[trigger] interrupted_preparation_of(ops[k], item_id)
}

/// The item waits on a preparation whose inspection was interrupted.
pub open spec fn stranded(q: QueueItemRecord, ops: Seq<OperationRecord>) -> bool {
    &&& q.preparation == Some(QueuePreparation::Pending)
    &&& preparation_interrupted(ops, q.id@)
    &&& !(q.state is Interrupted)
}

/// A pending item whose preparation was interrupted is interrupted too.
pub open spec fn prepared_item(q: QueueItemRecord, ops: Seq<OperationRecord>, now_ms: u64) -> QueueItemRecord {
    if stranded(q, ops) {
        QueueItemRecord { state: QueueItemState::Interrupted, updated_at_ms: now_ms, ..q }
    } else {
        q
    }
}

/// What a restart does before retention, from `old` to `new`.
pub open spec fn restarted(old: PersistentJournal, new: PersistentJournal, now_ms: u64) -> bool {
    &&& new.schema_version == old.schema_version
    &&& new.revision == old.revision
    &&& new.pending_app_update == old.pending_app_update
    &&& new.operations@.len() == old.operations@.len()
    &&& forall|k: int|
        0 <= k < old.operations@.len() ==> restarted_operation(
            old.operations@[k],
            #[trigger] new.operations@[k],
            pending_id(old),
            now_ms,
        )
    &&& new.queue@.len() == old.queue@.len()
    &&& forall|i: int|
        0 <= i < old.queue@.len() ==> #[trigger] new.queue@[i] == prepared_item(
            restarted_item(old.queue@[i], now_ms),
            new.operations@,
            now_ms,
        )
}

/// The restart changes this operation record.
pub open spec fn restart_touches(o: OperationRecord, pending: Option<Seq<char>>) -> bool {
    o.has_inspection_result || interrupted_by_restart(o, pending)
}

/// Whether the restart step from `old` to `new` changed a record.
pub open spec fn restart_changed(old: PersistentJournal, new: PersistentJournal, now_ms: u64) -> bool {
    ||| exists|i: int| 0 <= i < old.queue@.len() && #[trigger] was_active(old.queue@[i])
    ||| exists|k: int|
        0 <= k < old.operations@.len() && #[trigger] restart_touches(old.operations@[k], pending_id(old))
    ||| exists|i: int|
        0 <= i < old.queue@.len() && stranded(#[trigger] restarted_item(old.queue@[i], now_ms), new.operations@)
}

/// Whether a retention pass from `old` to `new` removed or cleared anything.
pub open spec fn prune_changed(old: PersistentJournal, new: PersistentJournal, now_ms: u64) -> bool {
    dropped_ids(old.operations@, kept_by(old, now_ms)).len() > 0 || cleared_ids(old.queue@, new.operations@).len() > 0
}

fn preparation_interrupted_exec(ops: &Vec<OperationRecord>, item_id: &str) -> (b: bool)
    ensures
        b == preparation_interrupted(ops@, item_id@),
{
    let mut k: usize = 0;
    while k < ops.len()
        invariant
            k <= ops@.len(),
            forall|j: int| 0 <= j < k ==> !#[trigger] interrupted_preparation_of(ops@[j], item_id@),
        decreases ops@.len() - k,
    {
        let o = &ops[k];
        let hit = match (&o.kind, &o.state, &o.queue_item_id) {
            (OperationKind::Inspection, OperationState::Interrupted, Some(q)) => str_eq(q.as_str(), item_id),
            _ => false,
        };
        if hit {
            proof {
                assert(interrupted_preparation_of(ops@[k as int], item_id@));
            }
            return true;
        }
        k += 1;
    }
    false
}

impl PersistentJournal {
    fn interrupt_unfinished(&mut self, now_ms: u64) -> (changed: bool)
        ensures
            restarted(*old(self), *final(self), now_ms),
            changed == restart_changed(*old(self), *final(self), now_ms),
    {
        let ghost j0 = *self;
        let pending: Option<String> = match &self.pending_app_update {
            Some(p) => Some(p.operation_id.clone()),
            None => None,
        };
        let ghost pid = pending_id(j0);
        proof {
            assert(pid == match pending {
                Some(p) => Some(p@),
                None => None::<Seq<char>>,
            });
        }
        let mut changed_items = false;
        let mut items: Vec<QueueItemRecord> = Vec::new();
        std::mem::swap(&mut items, &mut self.queue);
        let ghost q0 = items@;
        let mut queue1: Vec<QueueItemRecord> = Vec::new();
        let ghost mut n: int = 0;
        proof {
            assert(q0.skip(0) =~= q0);
        }
        while items.len() > 0
            invariant
                q0 == j0.queue@,
                0 <= n <= q0.len(),
                items@ == q0.skip(n),
                queue1@.len() == n,
                forall|i: int| 0 <= i < n ==> #[trigger] queue1@[i] == restarted_item(q0[i], now_ms),
                changed_items == exists|i: int| 0 <= i < n && #[trigger] was_active(q0[i]),
            decreases items@.len(),
        {
            let item = items.remove(0);
            proof {
                assert(item == q0[n]);
            }
            let ghost before = queue1@;
            let active = match item.state {
                QueueItemState::Queued | QueueItemState::Running => true,
                _ => false,
            };
            if active {
                queue1.push(QueueItemRecord { state: QueueItemState::Interrupted, updated_at_ms: now_ms, ..item });
                changed_items = true;
            } else {
                queue1.push(item);
            }
            proof {
                assert forall|i: int| 0 <= i < n + 1 implies #[trigger] queue1@[i] == restarted_item(q0[i], now_ms) by {
                    if i < n {
                        assert(queue1@[i] == before[i]);
                    }
                }
                if active {
                    assert(was_active(q0[n]));
                }
                n = n + 1;
                assert(items@ =~= q0.skip(n));
            }
        }
        let mut ops: Vec<OperationRecord> = Vec::new();
        std::mem::swap(&mut ops, &mut self.operations);
        let ghost o0 = ops@;
        let mut ops1: Vec<OperationRecord> = Vec::new();
        let mut changed_ops = false;
        let ghost mut m: int = 0;
        proof {
            assert(o0.skip(0) =~= o0);
        }
        while ops.len() > 0
            invariant
                o0 == j0.operations@,
                pid == pending_id(j0),
                pid == match pending {
                    Some(p) => Some(p@),
                    None => None::<Seq<char>>,
                },
                0 <= m <= o0.len(),
                ops@ == o0.skip(m),
                ops1@.len() == m,
                forall|k: int| 0 <= k < m ==> restarted_operation(o0[k], #[trigger] ops1@[k], pid, now_ms),
                changed_ops == exists|k: int| 0 <= k < m && #[trigger] restart_touches(o0[k], pid),
            decreases ops@.len(),
        {
            let o = ops.remove(0);
            proof {
                assert(o == o0[m]);
            }
            let ghost before = ops1@;
            let is_pending = match &pending {
                Some(p) => str_eq(p.as_str(), o.id.as_str()),
                None => false,
            };
            let had_result = o.has_inspection_result;
            let interrupt = !o.state.is_terminal() && !is_pending;
            if interrupt {
                let error = AppError::new("interrupted", INTERRUPTED_SUMMARY).retryable(true);
                ops1.push(
                    OperationRecord {
                        state: OperationState::Interrupted,
                        phase: None,
                        finished_at_ms: Some(now_ms),
                        updated_at_ms: now_ms,
                        error: Some(error),
                        has_inspection_result: false,
                        ..o
                    },
                );
            } else {
                ops1.push(OperationRecord { has_inspection_result: false, ..o });
            }
            if had_result || interrupt {
                changed_ops = true;
            }
            proof {
                assert(interrupt == interrupted_by_restart(o0[m], pid));
                assert forall|k: int| 0 <= k < m + 1 implies restarted_operation(
                    o0[k],
                    #[trigger] ops1@[k],
                    pid,
                    now_ms,
                ) by {
                    if k < m {
                        assert(ops1@[k] == before[k]);
                    }
                }
                assert((had_result || interrupt) == restart_touches(o0[m], pid));
                m = m + 1;
                assert(ops@ =~= o0.skip(m));
            }
        }
        self.operations = ops1;
        let ghost q1 = queue1@;
        let ghost final_ops = self.operations@;
        let mut changed_prep = false;
        let ghost mut r: int = 0;
        proof {
            assert(q1.skip(0) =~= q1);
        }
        while queue1.len() > 0
            invariant
                q1.len() == q0.len(),
                forall|i: int| 0 <= i < q0.len() ==> #[trigger] q1[i] == restarted_item(q0[i], now_ms),
                self.operations@ == final_ops,
                0 <= r <= q1.len(),
                queue1@ == q1.skip(r),
                self.queue@.len() == r,
                forall|i: int| 0 <= i < r ==> #[trigger] self.queue@[i] == prepared_item(q1[i], final_ops, now_ms),
                changed_prep == exists|i: int| 0 <= i < r && stranded(#[trigger] q1[i], final_ops),
                self.schema_version == j0.schema_version,
                self.revision == j0.revision,
                self.pending_app_update == j0.pending_app_update,
            decreases queue1@.len(),
        {
            let item = queue1.remove(0);
            proof {
                assert(item == q1[r]);
            }
            let ghost before = self.queue@;
            let pending_prep = match item.preparation {
                Some(QueuePreparation::Pending) => true,
                None => false,
            };
            proof {
                if let Some(x) = item.preparation {
                    assert(x == QueuePreparation::Pending);
                }
            }
            let already = match item.state {
                QueueItemState::Interrupted => true,
                _ => false,
            };
            let strand = pending_prep && !already && preparation_interrupted_exec(
                &self.operations,
                item.id.as_str(),
            );
            if strand {
                self.queue.push(QueueItemRecord { state: QueueItemState::Interrupted, updated_at_ms: now_ms, ..item });
                changed_prep = true;
            } else {
                self.queue.push(item);
            }
            proof {
                assert(pending_prep == (q1[r].preparation == Some(QueuePreparation::Pending)));
                assert(already == (q1[r].state is Interrupted));
                assert(strand == stranded(q1[r], final_ops));
                assert forall|i: int| 0 <= i < r + 1 implies #[trigger] self.queue@[i] == prepared_item(
                    q1[i],
                    final_ops,
                    now_ms,
                ) by {
                    if i < r {
                        assert(self.queue@[i] == before[i]);
                    }
                }
                if strand {
                    assert(stranded(q1[r], final_ops));
                }
                r = r + 1;
                assert(queue1@ =~= q1.skip(r));
            }
        }
        proof {
            assert forall|i: int| 0 <= i < q0.len() implies #[trigger] self.queue@[i] == prepared_item(
                restarted_item(q0[i], now_ms),
                final_ops,
                now_ms,
            ) by {
                assert(q1[i] == restarted_item(q0[i], now_ms));
            }
            if exists|i: int| 0 <= i < q0.len() && stranded(#[trigger] restarted_item(q0[i], now_ms), final_ops) {
                let i = choose|i: int| 0 <= i < q0.len() && stranded(#[trigger] restarted_item(q0[i], now_ms), final_ops);
                assert(q1[i] == restarted_item(q0[i], now_ms));
            }
            if changed_prep {
                let i = choose|i: int| 0 <= i < r && stranded(#[trigger] q1[i], final_ops);
                assert(q1[i] == restarted_item(q0[i], now_ms));
            }
        }
        changed_items || changed_ops || changed_prep
    }

    /// Brings the journal back after a restart: waiting and running queue
    /// items and every unfinished operation but the pending app update are
    /// interrupted, inspection payloads are dropped, pending items whose
    /// preparation was interrupted are interrupted, and then retention runs.
    /// Returns whether anything changed.
    pub fn normalize_after_restart(&mut self, now_ms: u64) -> (changed: bool)
        ensures
            exists|mid: PersistentJournal|
                {
                    &&& restarted(*old(self), mid, now_ms)
                    &&& pruned(mid, *final(self), now_ms)
                    &&& changed == (restart_changed(*old(self), mid, now_ms) || prune_changed(
                        mid,
                        *final(self),
                        now_ms,
                    ))
                },
    {
        let restart = self.interrupt_unfinished(now_ms);
        let ghost mid = *self;
        let retention = self.prune_and_repair_latest_references(now_ms);
        proof {
            assert(views_of_strings(retention.removed_operation_ids@).len() == retention.removed_operation_ids@.len());
            assert(views_of_strings(retention.cleared_latest_operation_item_ids@).len()
                == retention.cleared_latest_operation_item_ids@.len());
        }
        restart || retention.changed()
    }
}

/// A record kept by `keep` comes from the original sequence.
proof fn lemma_kept_record_comes_from(s: Seq<OperationRecord>, keep: spec_fn(Seq<char>) -> bool, x: OperationRecord)
    requires
        kept_records(s, keep).to_multiset().count(x) > 0,
    ensures
        s.contains(x),
        keep(x.id@),
    decreases s.len(),
{
    broadcast use vstd::seq_lib::group_to_multiset_ensures;

    if s.len() > 0 {
        let prev = kept_records(s.drop_last(), keep);
        if keep(s.last().id@) && x == s.last() {
            assert(s[s.len() - 1] == x);
        } else {
            if keep(s.last().id@) {
                assert(kept_records(s, keep).to_multiset() =~= prev.to_multiset().insert(s.last()));
            }
            lemma_kept_record_comes_from(s.drop_last(), keep, x);
            let w = choose|w: int| 0 <= w < s.drop_last().len() && s.drop_last()[w] == x;
            assert(s[w] == x);
        }
    }
}

/// A record of the original sequence whose id `keep` accepts is kept.
proof fn lemma_kept_record_stays(s: Seq<OperationRecord>, keep: spec_fn(Seq<char>) -> bool, k: int)
    requires
        0 <= k < s.len(),
        keep(s[k].id@),
    ensures
        kept_records(s, keep).to_multiset().count(s[k]) > 0,
    decreases s.len(),
{
    broadcast use vstd::seq_lib::group_to_multiset_ensures;

    let prev = kept_records(s.drop_last(), keep);
    if k < s.len() - 1 {
        assert(s.drop_last()[k] == s[k]);
        lemma_kept_record_stays(s.drop_last(), keep, k);
        if keep(s.last().id@) {
            assert(kept_records(s, keep) =~= prev.push(s.last()));
        }
    } else {
        assert(kept_records(s, keep) =~= prev.push(s.last()));
        assert(kept_records(s, keep).contains(s[k])) by {
            assert(kept_records(s, keep)[prev.len() as int] == s[k]);
        }
    }
}

/// After a restart no queue item is waiting or running: each one that was is
/// interrupted at the restart's time, and none is queued again. Every
/// remaining operation has ended unless it is the pending app update, no
/// operation keeps an inspection payload, and the pending app update record
/// itself is still there.
pub proof fn law_restart_settles_all_work(old: PersistentJournal, new: PersistentJournal, now_ms: u64)
    requires
        exists|mid: PersistentJournal| restarted(old, mid, now_ms) && pruned(mid, new, now_ms),
    ensures
        new.queue@.len() == old.queue@.len(),
        forall|i: int| 0 <= i < new.queue@.len() ==> !was_active(#[trigger] new.queue@[i]),
        forall|i: int|
            0 <= i < old.queue@.len() && was_active(#[trigger] old.queue@[i]) ==> new.queue@[i].state
                is Interrupted && new.queue@[i].updated_at_ms == now_ms,
        forall|k: int| 0 <= k < new.operations@.len() ==> !(#[trigger] new.operations@[k]).has_inspection_result,
        forall|k: int|
            0 <= k < new.operations@.len() ==> (#[trigger] new.operations@[k]).state.spec_is_terminal()
                || pending_id(new) == Some(new.operations@[k].id@),
        new.pending_app_update == old.pending_app_update,
{
    let mid = choose|mid: PersistentJournal| restarted(old, mid, now_ms) && pruned(mid, new, now_ms);
    assert forall|i: int| 0 <= i < new.queue@.len() implies !was_active(#[trigger] new.queue@[i]) by {
        assert(new.queue@[i] == repaired(mid.queue@[i], new.operations@));
        assert(mid.queue@[i] == prepared_item(restarted_item(old.queue@[i], now_ms), mid.operations@, now_ms));
    }
    assert forall|i: int|
        0 <= i < old.queue@.len() && was_active(#[trigger] old.queue@[i]) implies new.queue@[i].state
            is Interrupted && new.queue@[i].updated_at_ms == now_ms by {
        assert(new.queue@[i] == repaired(mid.queue@[i], new.operations@));
        assert(mid.queue@[i] == prepared_item(restarted_item(old.queue@[i], now_ms), mid.operations@, now_ms));
    }
    assert forall|k: int| 0 <= k < new.operations@.len() implies !(#[trigger] new.operations@[k]).has_inspection_result by {
        let x = new.operations@[k];
        assert(new.operations@.to_multiset().count(x) > 0) by {
            broadcast use vstd::seq_lib::group_to_multiset_ensures;

            assert(new.operations@.contains(x));
        }
        lemma_kept_record_comes_from(mid.operations@, kept_by(mid, now_ms), x);
        let w = choose|w: int| 0 <= w < mid.operations@.len() && mid.operations@[w] == x;
        assert(restarted_operation(old.operations@[w], mid.operations@[w], pending_id(old), now_ms));
    }
    assert forall|k: int| 0 <= k < new.operations@.len() implies (#[trigger] new.operations@[k]).state.spec_is_terminal()
        || pending_id(new) == Some(new.operations@[k].id@) by {
        let x = new.operations@[k];
        assert(new.operations@.to_multiset().count(x) > 0) by {
            broadcast use vstd::seq_lib::group_to_multiset_ensures;

            assert(new.operations@.contains(x));
        }
        lemma_kept_record_comes_from(mid.operations@, kept_by(mid, now_ms), x);
        let w = choose|w: int| 0 <= w < mid.operations@.len() && mid.operations@[w] == x;
        assert(restarted_operation(old.operations@[w], mid.operations@[w], pending_id(old), now_ms));
    }
}

/// After a retention pass every latest-operation link points at an
/// operation that is still in the journal.
pub proof fn law_pruning_leaves_no_dangling_link(old: PersistentJournal, new: PersistentJournal, now_ms: u64)
    requires
        pruned(old, new, now_ms),
    ensures
        forall|i: int|
            0 <= i < new.queue@.len() ==> ((#[trigger] new.queue@[i]).latest_operation_id matches Some(x)
                ==> has_operation(new.operations@, x@)),
{
    assert forall|i: int| 0 <= i < new.queue@.len() implies ((#[trigger] new.queue@[i]).latest_operation_id matches Some(
        x,
    ) ==> has_operation(new.operations@, x@)) by {
        assert(new.queue@[i] == repaired(old.queue@[i], new.operations@));
    }
}

proof fn lemma_dropped_ids_members(ops: Seq<OperationRecord>, keep: spec_fn(Seq<char>) -> bool)
    ensures
        forall|x: Seq<char>|
            #[trigger] dropped_ids(ops, keep).contains(x) <==> (!keep(x) && exists|k: int|
                0 <= k < ops.len() && ops[k].id@ == x),
    decreases ops.len(),
{
    if ops.len() > 0 {
        let rest = ops.drop_last();
        lemma_dropped_ids_members(rest, keep);
        assert forall|x: Seq<char>|
            #[trigger] dropped_ids(ops, keep).contains(x) <==> (!keep(x) && exists|k: int|
                0 <= k < ops.len() && ops[k].id@ == x) by {
            let prev = dropped_ids(rest, keep);
            if !keep(ops.last().id@) {
                assert(prev.push(ops.last().id@)[prev.len() as int] == ops.last().id@);
                if prev.push(ops.last().id@).contains(x) && x != ops.last().id@ {
                    let j = choose|j: int| 0 <= j < prev.len() + 1 && prev.push(ops.last().id@)[j] == x;
                    assert(prev[j] == x);
                }
                if prev.contains(x) {
                    let j = choose|j: int| 0 <= j < prev.len() && prev[j] == x;
                    assert(prev.push(ops.last().id@)[j] == x);
                }
            }
            if exists|k: int| 0 <= k < ops.len() && ops[k].id@ == x {
                let k = choose|k: int| 0 <= k < ops.len() && ops[k].id@ == x;
                if k < rest.len() {
                    assert(rest[k] == ops[k]);
                } else {
                    assert(ops.last() == ops[k]);
                }
            }
            if exists|k: int| 0 <= k < rest.len() && rest[k].id@ == x {
                let k = choose|k: int| 0 <= k < rest.len() && rest[k].id@ == x;
                assert(ops[k] == rest[k]);
            }
        }
    }
}

proof fn lemma_cleared_ids_members(queue: Seq<QueueItemRecord>, ops: Seq<OperationRecord>)
    ensures
        forall|x: Seq<char>|
            #[trigger] cleared_ids(queue, ops).contains(x) <==> exists|i: int|
                0 <= i < queue.len() && queue[i].id@ == x && dangling(queue[i], ops),
    decreases queue.len(),
{
    if queue.len() > 0 {
        let rest = queue.drop_last();
        lemma_cleared_ids_members(rest, ops);
        assert forall|x: Seq<char>|
            #[trigger] cleared_ids(queue, ops).contains(x) <==> exists|i: int|
                0 <= i < queue.len() && queue[i].id@ == x && dangling(queue[i], ops) by {
            let prev = cleared_ids(rest, ops);
            let last = queue.last();
            if dangling(last, ops) {
                assert(prev.push(last.id@)[prev.len() as int] == last.id@);
                assert(queue[queue.len() - 1] == last);
                if prev.push(last.id@).contains(x) && x != last.id@ {
                    let j = choose|j: int| 0 <= j < prev.len() + 1 && prev.push(last.id@)[j] == x;
                    assert(prev[j] == x);
                }
                if prev.contains(x) {
                    let j = choose|j: int| 0 <= j < prev.len() && prev[j] == x;
                    assert(prev.push(last.id@)[j] == x);
                }
            }
            if exists|i: int| 0 <= i < queue.len() && queue[i].id@ == x && dangling(queue[i], ops) {
                let i = choose|i: int| 0 <= i < queue.len() && queue[i].id@ == x && dangling(queue[i], ops);
                if i < rest.len() {
                    assert(rest[i] == queue[i]);
                }
            }
            if exists|i: int| 0 <= i < rest.len() && rest[i].id@ == x && dangling(rest[i], ops) {
                let i = choose|i: int| 0 <= i < rest.len() && rest[i].id@ == x && dangling(rest[i], ops);
                assert(queue[i] == rest[i]);
            }
        }
    }
}

/// A retention pass keeps, in creation order, only records it found: each
/// kept record was in the journal and is kept by retention. It reports as
/// removed exactly the ids of the records retention drops, and as cleared
/// exactly the items whose latest-operation link it set to none; after it,
/// every link names a kept record.
pub proof fn law_pruning_keeps_a_sorted_subset(
    old: PersistentJournal,
    new: PersistentJournal,
    now_ms: u64,
    removed: Seq<Seq<char>>,
    cleared: Seq<Seq<char>>,
)
    requires
        pruned(old, new, now_ms),
        removed == dropped_ids(old.operations@, kept_by(old, now_ms)),
        cleared == cleared_ids(old.queue@, new.operations@),
    ensures
        sorted_by_creation(new.operations@),
        forall|k: int|
            0 <= k < new.operations@.len() ==> old.operations@.contains(#[trigger] new.operations@[k])
                && keeps_operation(old, now_ms, new.operations@[k].id@),
        forall|x: Seq<char>|
            #[trigger] removed.contains(x) <==> (!keeps_operation(old, now_ms, x) && exists|k: int|
                0 <= k < old.operations@.len() && old.operations@[k].id@ == x),
        forall|x: Seq<char>|
            #[trigger] cleared.contains(x) <==> exists|i: int|
                0 <= i < old.queue@.len() && old.queue@[i].id@ == x && old.queue@[i].latest_operation_id
                    is Some && new.queue@[i].latest_operation_id is None,
        forall|i: int|
            0 <= i < new.queue@.len() ==> ((#[trigger] new.queue@[i]).latest_operation_id matches Some(x)
                ==> has_operation(new.operations@, x@)),
{
    broadcast use vstd::seq_lib::group_to_multiset_ensures;

    let keep = kept_by(old, now_ms);
    law_pruning_leaves_no_dangling_link(old, new, now_ms);
    assert forall|k: int| 0 <= k < new.operations@.len() implies old.operations@.contains(
        #[trigger] new.operations@[k],
    ) && keeps_operation(old, now_ms, new.operations@[k].id@) by {
        let x = new.operations@[k];
        assert(new.operations@.contains(x));
        lemma_kept_record_comes_from(old.operations@, keep, x);
    }
    lemma_dropped_ids_members(old.operations@, keep);
    assert forall|x: Seq<char>| #[trigger] removed.contains(x) <==> (!keeps_operation(old, now_ms, x) && exists|k: int|
        0 <= k < old.operations@.len() && old.operations@[k].id@ == x) by {
        assert(keep(x) == keeps_operation(old, now_ms, x));
    }
    lemma_cleared_ids_members(old.queue@, new.operations@);
    assert forall|x: Seq<char>| #[trigger] cleared.contains(x) <==> exists|i: int|
        0 <= i < old.queue@.len() && old.queue@[i].id@ == x && old.queue@[i].latest_operation_id is Some
            && new.queue@[i].latest_operation_id is None by {
        if exists|i: int|
            0 <= i < old.queue@.len() && old.queue@[i].id@ == x && old.queue@[i].latest_operation_id is Some
                && new.queue@[i].latest_operation_id is None {
            let i = choose|i: int|
                0 <= i < old.queue@.len() && old.queue@[i].id@ == x && old.queue@[i].latest_operation_id
                    is Some && new.queue@[i].latest_operation_id is None;
            assert(new.queue@[i] == repaired(old.queue@[i], new.operations@));
        }
        if exists|i: int|
            0 <= i < old.queue@.len() && old.queue@[i].id@ == x && dangling(old.queue@[i], new.operations@) {
            let i = choose|i: int|
                0 <= i < old.queue@.len() && old.queue@[i].id@ == x && dangling(old.queue@[i], new.operations@);
            assert(new.queue@[i] == repaired(old.queue@[i], new.operations@));
        }
    }
}

/// Opening a journal repairs every queue item whose latest-operation link
/// names no operation: the open reports a change, clears the link, and moves
/// the revision one past the stored one (saturating) so that the repair is
/// written back. After an open every link names an operation of the journal,
/// and an open that changes nothing keeps the stored revision.
pub proof fn law_open_repairs_dangling_links(
    j0: PersistentJournal,
    j1: PersistentJournal,
    now_ms: u64,
    changed: bool,
)
    requires
        reopened(j0, j1, now_ms, changed),
    ensures
        changed ==> j1.revision == (if j0.revision < u64::MAX {
            (j0.revision + 1) as u64
        } else {
            u64::MAX
        }),
        !changed ==> j1.revision == j0.revision,
        j1.queue@.len() == j0.queue@.len(),
        forall|i: int|
            0 <= i < j1.queue@.len() ==> ((#[trigger] j1.queue@[i]).latest_operation_id matches Some(x)
                ==> has_operation(j1.operations@, x@)),
        forall|i: int|
            0 <= i < j0.queue@.len() && dangling(#[trigger] j0.queue@[i], j0.operations@) ==> changed
                && j1.queue@[i].latest_operation_id is None,
{
    broadcast use vstd::seq_lib::group_to_multiset_ensures;

    let (mid, kept) = choose|mid: PersistentJournal, kept: PersistentJournal|
        {
            &&& restarted(j0, mid, now_ms)
            &&& pruned(mid, kept, now_ms)
            &&& changed == (restart_changed(j0, mid, now_ms) || prune_changed(mid, kept, now_ms))
            &&& j1 == with_revision(
                kept,
                if changed {
                    if j0.revision < u64::MAX {
                        (j0.revision + 1) as u64
                    } else {
                        u64::MAX
                    }
                } else {
                    j0.revision
                },
            )
        };
    law_pruning_leaves_no_dangling_link(mid, kept, now_ms);
    lemma_cleared_ids_members(mid.queue@, kept.operations@);
    assert forall|i: int|
        0 <= i < j0.queue@.len() && dangling(#[trigger] j0.queue@[i], j0.operations@) implies changed
            && j1.queue@[i].latest_operation_id is None by {
        let q = j0.queue@[i];
        let x = q.latest_operation_id->0;
        assert(mid.queue@[i] == prepared_item(restarted_item(q, now_ms), mid.operations@, now_ms));
        assert(mid.queue@[i].latest_operation_id == q.latest_operation_id);
        assert(!has_operation(kept.operations@, x@)) by {
            if has_operation(kept.operations@, x@) {
                let k = choose|k: int| 0 <= k < kept.operations@.len() && kept.operations@[k].id@ == x@;
                let y = kept.operations@[k];
                assert(kept.operations@.contains(y));
                lemma_kept_record_comes_from(mid.operations@, kept_by(mid, now_ms), y);
                let w = choose|w: int| 0 <= w < mid.operations@.len() && mid.operations@[w] == y;
                assert(restarted_operation(j0.operations@[w], mid.operations@[w], pending_id(j0), now_ms));
                assert(j0.operations@[w].id@ == x@);
            }
        }
        assert(dangling(mid.queue@[i], kept.operations@));
        assert(kept.queue@[i] == repaired(mid.queue@[i], kept.operations@));
        assert(cleared_ids(mid.queue@, kept.operations@).contains(mid.queue@[i].id@));
    }
}

/// A retention pass keeps every unfinished operation and the pending app
/// update's operation.
pub proof fn law_pruning_keeps_unfinished_operations(old: PersistentJournal, new: PersistentJournal, now_ms: u64)
    requires
        pruned(old, new, now_ms),
    ensures
        forall|k: int|
            0 <= k < old.operations@.len() && (!(#[trigger] old.operations@[k]).state.spec_is_terminal()
                || pending_id(old) == Some(old.operations@[k].id@)) ==> new.operations@.contains(
                old.operations@[k],
            ),
{
    assert forall|k: int|
        0 <= k < old.operations@.len() && (!(#[trigger] old.operations@[k]).state.spec_is_terminal()
            || pending_id(old) == Some(old.operations@[k].id@)) implies new.operations@.contains(
        old.operations@[k],
    ) by {
        let ops = old.operations@;
        let ms = metas(ops);
        assert(ms[k] == meta_of(ops[k]));
        assert(kept_at(ms, k, pending_id(old), now_ms));
        assert(retained_id(ms, pending_id(old), now_ms, ops[k].id@));
        assert(kept_by(old, now_ms)(ops[k].id@));
        lemma_kept_record_stays(ops, kept_by(old, now_ms), k);
        broadcast use vstd::seq_lib::group_to_multiset_ensures;

        assert(new.operations@.to_multiset().count(ops[k]) > 0);
    }
}

/// How many records of `s` satisfy `p`.
pub open spec fn count_where(s: Seq<OperationRecord>, p: spec_fn(OperationRecord) -> bool) -> nat
    decreases s.len(),
{
    if s.len() == 0 {
        0
    } else {
        count_where(s.drop_last(), p) + if p(s.last()) {
            1nat
        } else {
            0nat
        }
    }
}

proof fn lemma_count_append(a: Seq<OperationRecord>, b: Seq<OperationRecord>, p: spec_fn(OperationRecord) -> bool)
    ensures
        count_where(a + b, p) == count_where(a, p) + count_where(b, p),
    decreases b.len(),
{
    if b.len() == 0 {
        assert(a + b =~= a);
    } else {
        assert((a + b).drop_last() =~= a + b.drop_last());
        lemma_count_append(a, b.drop_last(), p);
    }
}

proof fn lemma_count_remove(s: Seq<OperationRecord>, p: spec_fn(OperationRecord) -> bool, j: int)
    requires
        0 <= j < s.len(),
    ensures
        count_where(s, p) == count_where(s.remove(j), p) + if p(s[j]) {
            1nat
        } else {
            0nat
        },
{
    let single = seq![s[j]];
    assert(s =~= s.take(j) + single + s.skip(j + 1));
    assert(s.remove(j) =~= s.take(j) + s.skip(j + 1));
    lemma_count_append(s.take(j) + single, s.skip(j + 1), p);
    lemma_count_append(s.take(j), single, p);
    lemma_count_append(s.take(j), s.skip(j + 1), p);
    assert(single.drop_last() =~= Seq::<OperationRecord>::empty());
    assert(count_where(Seq::<OperationRecord>::empty(), p) == 0);
    assert(single.last() == s[j]);
    assert(count_where(single, p) == if p(s[j]) {
        1nat
    } else {
        0nat
    });
}

/// A count does not depend on the order of the records.
proof fn lemma_count_permutation(s: Seq<OperationRecord>, t: Seq<OperationRecord>, p: spec_fn(OperationRecord) -> bool)
    requires
        s.to_multiset() == t.to_multiset(),
    ensures
        count_where(s, p) == count_where(t, p),
    decreases s.len(),
{
    broadcast use vstd::seq_lib::group_to_multiset_ensures;

    if s.len() == 0 {
        assert(s.to_multiset().len() == s.len());
        assert(t.to_multiset().len() == t.len());
        assert(t.len() == 0);
    } else {
        let x = s.last();
        assert(s.to_multiset().count(x) > 0) by {
            assert(s.contains(x));
        }
        assert(t.contains(x));
        let j = choose|j: int| 0 <= j < t.len() && t[j] == x;
        assert(s.drop_last().push(x) =~= s);
        assert(s.drop_last().to_multiset() =~= s.to_multiset().remove(x));
        assert(t.remove(j).to_multiset() =~= t.to_multiset().remove(x));
        lemma_count_permutation(s.drop_last(), t.remove(j), p);
        lemma_count_remove(t, p, j);
    }
}

proof fn lemma_count_kept_at_most(s: Seq<OperationRecord>, keep: spec_fn(Seq<char>) -> bool, p: spec_fn(OperationRecord) -> bool)
    ensures
        count_where(kept_records(s, keep), p) <= count_where(s, p),
    decreases s.len(),
{
    if s.len() > 0 {
        lemma_count_kept_at_most(s.drop_last(), keep, p);
        if keep(s.last().id@) {
            assert(kept_records(s, keep).drop_last() =~= kept_records(s.drop_last(), keep));
        }
    }
}

/// What `rank_among` counts for the operation view `m`.
pub open spec fn ranks_before(m: OperationRetentionMetadata, pending: Option<Seq<char>>, now_ms: u64) -> spec_fn(
    OperationRecord,
) -> bool {
    |r: OperationRecord| recent_terminal(meta_of(r), pending, now_ms) && retained_before(meta_of(r), m)
}

proof fn lemma_rank_is_count(
    s: Seq<OperationRecord>,
    k: int,
    m: OperationRetentionMetadata,
    pending: Option<Seq<char>>,
    now_ms: u64,
)
    requires
        0 <= k <= s.len(),
    ensures
        rank_among(metas(s), k, m, pending, now_ms) == count_where(s.take(k), ranks_before(m, pending, now_ms)),
    decreases k,
{
    if k > 0 {
        lemma_rank_is_count(s, k - 1, m, pending, now_ms);
        assert(s.take(k).drop_last() =~= s.take(k - 1));
        assert(metas(s)[k - 1] == meta_of(s[k - 1]));
    } else {
        assert(s.take(0) =~= Seq::<OperationRecord>::empty());
    }
}

proof fn lemma_kept_records_all(s: Seq<OperationRecord>, keep: spec_fn(Seq<char>) -> bool)
    requires
        forall|k: int| 0 <= k < s.len() ==> keep(#[trigger] s[k].id@),
    ensures
        kept_records(s, keep) == s,
        dropped_ids(s, keep).len() == 0,
    decreases s.len(),
{
    if s.len() > 0 {
        assert forall|k: int| 0 <= k < s.drop_last().len() implies keep(#[trigger] s.drop_last()[k].id@) by {
            assert(s.drop_last()[k] == s[k]);
        }
        lemma_kept_records_all(s.drop_last(), keep);
        assert(keep(s[s.len() - 1].id@));
        assert(s.drop_last().push(s.last()) =~= s);
    }
}

proof fn lemma_no_cleared(queue: Seq<QueueItemRecord>, ops: Seq<OperationRecord>)
    requires
        forall|i: int| 0 <= i < queue.len() ==> !dangling(#[trigger] queue[i], ops),
    ensures
        cleared_ids(queue, ops).len() == 0,
    decreases queue.len(),
{
    if queue.len() > 0 {
        assert forall|i: int| 0 <= i < queue.drop_last().len() implies !dangling(#[trigger] queue.drop_last()[i], ops) by {
            assert(queue.drop_last()[i] == queue[i]);
        }
        lemma_no_cleared(queue.drop_last(), ops);
        assert(!dangling(queue[queue.len() - 1], ops));
    }
}

/// Every operation a retention pass leaves is kept again by a second pass
/// at the same time.
proof fn lemma_retention_keeps_its_result(mid: PersistentJournal, j1: PersistentJournal, now_ms: u64)
    requires
        pruned(mid, j1, now_ms),
    ensures
        forall|k: int|
            0 <= k < j1.operations@.len() ==> keeps_operation(j1, now_ms, #[trigger] j1.operations@[k].id@),
{
    broadcast use vstd::seq_lib::group_to_multiset_ensures;

    let keep = kept_by(mid, now_ms);
    let kept = kept_records(mid.operations@, keep);
    let ops = j1.operations@;
    let pending = pending_id(mid);
    assert(pending_id(j1) == pending);
    assert forall|i: int| 0 <= i < j1.queue@.len() implies (#[trigger] j1.queue@[i]).id@ == mid.queue@[i].id@
        && j1.queue@[i].preparation_operation_id == mid.queue@[i].preparation_operation_id by {
        assert(j1.queue@[i] == repaired(mid.queue@[i], ops));
    }
    assert forall|id: Seq<char>| queue_has_id(mid.queue@, id) implies queue_has_id(j1.queue@, id) by {
        let i = choose|i: int| 0 <= i < mid.queue@.len() && mid.queue@[i].id@ == id;
        assert(j1.queue@[i].id@ == mid.queue@[i].id@);
    }
    // A record that the first pass kept is in the result.
    assert forall|w: int| 0 <= w < mid.operations@.len() && keep(mid.operations@[w].id@) implies ops.contains(
        #[trigger] mid.operations@[w],
    ) by {
        lemma_kept_record_stays(mid.operations@, keep, w);
        assert(ops.to_multiset().count(mid.operations@[w]) > 0);
    }
    assert forall|k: int| 0 <= k < ops.len() implies keeps_operation(j1, now_ms, #[trigger] ops[k].id@) by {
        let o = ops[k];
        let id = o.id@;
        assert(ops.to_multiset().count(o) > 0) by {
            assert(ops.contains(o));
        }
        lemma_kept_record_comes_from(mid.operations@, keep, o);
        assert(keeps_operation(mid, now_ms, id));
        if prepares(mid.queue@, id) {
            let i = choose|i: int| 0 <= i < mid.queue@.len() && #[trigger] prepared_by(mid.queue@[i], id);
            assert(prepared_by(j1.queue@[i], id));
        } else if admitted_by(mid.operations@, mid.queue@, id) {
            let w = choose|w: int|
                0 <= w < mid.operations@.len() && mid.operations@[w].id@ == id && admits_queued_item(
                    mid.operations@[w],
                    mid.queue@,
                );
            let r = mid.operations@[w];
            assert(ops.contains(r));
            let v = choose|v: int| 0 <= v < ops.len() && ops[v] == r;
            let rec = r.playlist_admission->0;
            let mm = choose|mm: int| 0 <= mm < rec.item_ids@.len() && queue_has_id(mid.queue@, rec.item_ids@[mm]@);
            assert(queue_has_id(j1.queue@, rec.item_ids@[mm]@));
            assert(admits_queued_item(ops[v], j1.queue@));
        } else {
            let ms = metas(mid.operations@);
            let w = choose|w: int| 0 <= w < ms.len() && ms[w].id@ == id && kept_at(ms, w, pending, now_ms);
            assert(ms[w] == meta_of(mid.operations@[w]));
            let r = mid.operations@[w];
            assert(ops.contains(r));
            let v = choose|v: int| 0 <= v < ops.len() && ops[v] == r;
            let ns = metas(ops);
            assert(ns[v] == meta_of(r));
            if always_kept(ms[w], pending) {
                assert(kept_at(ns, v, pending, now_ms));
            } else {
                let pr = ranks_before(meta_of(r), pending, now_ms);
                lemma_rank_is_count(mid.operations@, mid.operations@.len() as int, meta_of(r), pending, now_ms);
                lemma_rank_is_count(ops, ops.len() as int, meta_of(r), pending, now_ms);
                assert(mid.operations@.take(mid.operations@.len() as int) =~= mid.operations@);
                assert(ops.take(ops.len() as int) =~= ops);
                lemma_count_permutation(ops, kept, pr);
                lemma_count_kept_at_most(mid.operations@, keep, pr);
                assert(kept_at(ns, v, pending, now_ms));
            }
            assert(retained_id(ns, pending, now_ms, id));
        }
    }
}

/// Different texts are ordered one way or the other.
proof fn lemma_text_less_total(a: Seq<char>, b: Seq<char>)
    requires
        a != b,
    ensures
        text_less(a, b) || text_less(b, a),
    decreases a.len(),
{
    if a.len() > 0 && b.len() > 0 && a[0] == b[0] {
        if a.drop_first() == b.drop_first() {
            assert(a =~= seq![a[0]] + a.drop_first());
            assert(b =~= seq![b[0]] + b.drop_first());
        }
        lemma_text_less_total(a.drop_first(), b.drop_first());
    } else if a.len() > 0 && b.len() > 0 {
        let ca = a[0];
        let cb = b[0];
        if (ca as u32) == (cb as u32) {
            vstd::utf8::char_u32_cast(ca, ca as u32);
            vstd::utf8::char_u32_cast(cb, cb as u32);
        }
    } else if a.len() == 0 && b.len() == 0 {
        assert(a =~= b);
    }
}

proof fn lemma_insert_position_is(v: Seq<OperationRecord>, op: OperationRecord, p: int)
    requires
        0 <= p <= v.len(),
        forall|i: int| 0 <= i < p ==> !created_before(op, #[trigger] v[i]),
        p == v.len() || created_before(op, v[p]),
    ensures
        insert_position(v, op) == p,
    decreases p,
{
    if p > 0 {
        assert(!created_before(op, v[0]));
        assert forall|i: int| 0 <= i < p - 1 implies !created_before(op, #[trigger] v.drop_first()[i]) by {
            assert(v.drop_first()[i] == v[i + 1]);
        }
        if p < v.len() {
            assert(v.drop_first()[p - 1] == v[p]);
        }
        lemma_insert_position_is(v.drop_first(), op, p - 1);
    }
}

/// Sorting records that are already in creation order leaves them as they
/// are, ties included.
pub proof fn lemma_sort_of_sorted(s: Seq<OperationRecord>)
    requires
        sorted_by_creation(s),
    ensures
        sort_by_creation(s) == s,
    decreases s.len(),
{
    if s.len() > 0 {
        let prev = s.drop_last();
        assert(sorted_by_creation(prev)) by {
            assert forall|i: int, j: int| 0 <= i < j < prev.len() implies !created_before(
                #[trigger] prev[j],
                #[trigger] prev[i],
            ) by {
                assert(prev[i] == s[i] && prev[j] == s[j]);
            }
        }
        lemma_sort_of_sorted(prev);
        assert forall|i: int| 0 <= i < prev.len() implies !created_before(s.last(), #[trigger] prev[i]) by {
            assert(prev[i] == s[i]);
            assert(!created_before(s[s.len() - 1], s[i]));
        }
        lemma_insert_position_is(prev, s.last(), prev.len() as int);
        assert(prev.insert(prev.len() as int, s.last()) =~= s);
    }
}

/// A second restart at the same time changes nothing: it reports no change,
/// and leaves every queue item and every operation record as it is, in the
/// same order.
pub proof fn law_second_restart_changes_nothing(
    j0: PersistentJournal,
    j1: PersistentJournal,
    j2: PersistentJournal,
    now_ms: u64,
)
    requires
        exists|mid: PersistentJournal| restarted(j0, mid, now_ms) && pruned(mid, j1, now_ms),
        exists|mid: PersistentJournal| restarted(j1, mid, now_ms) && pruned(mid, j2, now_ms),
    ensures
        forall|mid: PersistentJournal|
            restarted(j1, mid, now_ms) && pruned(mid, j2, now_ms) ==> !restart_changed(j1, mid, now_ms)
                && !prune_changed(mid, j2, now_ms),
        j2.queue@ == j1.queue@,
        j2.operations@.to_multiset() == j1.operations@.to_multiset(),
        j2.schema_version == j1.schema_version,
        j2.revision == j1.revision,
        j2.pending_app_update == j1.pending_app_update,
        j2.operations@ == j1.operations@,
{
    broadcast use vstd::seq_lib::group_to_multiset_ensures;

    let m1 = choose|mid: PersistentJournal| restarted(j0, mid, now_ms) && pruned(mid, j1, now_ms);
    law_restart_settles_all_work(j0, j1, now_ms);
    law_pruning_leaves_no_dangling_link(m1, j1, now_ms);
    lemma_retention_keeps_its_result(m1, j1, now_ms);
    let ops = j1.operations@;
    // Every record of j1 has no inspection payload and came from m1.
    assert forall|k: int| 0 <= k < ops.len() implies !(#[trigger] ops[k]).has_inspection_result by {
        assert(ops.to_multiset().count(ops[k]) > 0) by {
            assert(ops.contains(ops[k]));
        }
        lemma_kept_record_comes_from(m1.operations@, kept_by(m1, now_ms), ops[k]);
        let w = choose|w: int| 0 <= w < m1.operations@.len() && m1.operations@[w] == ops[k];
        assert(restarted_operation(j0.operations@[w], m1.operations@[w], pending_id(j0), now_ms));
    }
    assert forall|k: int| 0 <= k < ops.len() implies !#[trigger] restart_touches(ops[k], pending_id(j1)) by {
        assert(!ops[k].has_inspection_result);
    }
    // No item of j1 waits on an interrupted preparation.
    assert forall|i: int| 0 <= i < j1.queue@.len() implies !stranded(#[trigger] j1.queue@[i], ops) by {
        let q = j1.queue@[i];
        assert(q == repaired(m1.queue@[i], ops));
        assert(m1.queue@[i] == prepared_item(restarted_item(j0.queue@[i], now_ms), m1.operations@, now_ms));
        if stranded(q, ops) {
            let k = choose|k: int| 0 <= k < ops.len() && #[trigger] interrupted_preparation_of(ops[k], q.id@);
            assert(ops.to_multiset().count(ops[k]) > 0) by {
                assert(ops.contains(ops[k]));
            }
            lemma_kept_record_comes_from(m1.operations@, kept_by(m1, now_ms), ops[k]);
            let w = choose|w: int| 0 <= w < m1.operations@.len() && m1.operations@[w] == ops[k];
            assert(interrupted_preparation_of(m1.operations@[w], q.id@));
            assert(preparation_interrupted(m1.operations@, q.id@));
        }
    }
    assert forall|mid: PersistentJournal|
        restarted(j1, mid, now_ms) && pruned(mid, j2, now_ms) implies !restart_changed(j1, mid, now_ms)
        && !prune_changed(mid, j2, now_ms) && j2.queue@ == j1.queue@ && j2.operations@.to_multiset()
        == j1.operations@.to_multiset() && j2.operations@ == ops by {
        assert forall|k: int| 0 <= k < ops.len() implies #[trigger] mid.operations@[k] == ops[k] by {
            assert(restarted_operation(ops[k], mid.operations@[k], pending_id(j1), now_ms));
            assert(!interrupted_by_restart(ops[k], pending_id(j1)));
        }
        assert(mid.operations@ =~= ops);
        assert forall|i: int| 0 <= i < j1.queue@.len() implies #[trigger] mid.queue@[i] == j1.queue@[i] by {
            assert(!was_active(j1.queue@[i]));
            assert(restarted_item(j1.queue@[i], now_ms) == j1.queue@[i]);
            assert(!stranded(j1.queue@[i], ops));
        }
        assert(mid.queue@ =~= j1.queue@);
        assert(!restart_changed(j1, mid, now_ms)) by {
            assert forall|i: int| 0 <= i < j1.queue@.len() implies !stranded(
                #[trigger] restarted_item(j1.queue@[i], now_ms),
                mid.operations@,
            ) by {
                assert(restarted_item(j1.queue@[i], now_ms) == j1.queue@[i]);
            }
        }
        assert(metas(mid.operations@) == metas(ops));
        assert(pending_id(mid) == pending_id(j1));
        assert forall|id: Seq<char>| #[trigger] keeps_operation(mid, now_ms, id) == keeps_operation(j1, now_ms, id) by {
        }
        assert(kept_by(mid, now_ms) =~= kept_by(j1, now_ms));
        lemma_kept_records_all(ops, kept_by(j1, now_ms));
        lemma_sort_of_sorted(ops);
        assert(j2.operations@ == ops);
        assert(j2.operations@.to_multiset() == ops.to_multiset());
        assert forall|i: int| 0 <= i < j1.queue@.len() implies !dangling(#[trigger] j1.queue@[i], j2.operations@) by {
            let q = j1.queue@[i];
            if let Some(x) = q.latest_operation_id {
                let k = choose|k: int| 0 <= k < ops.len() && ops[k].id@ == x@;
                assert(j2.operations@.to_multiset().count(ops[k]) > 0) by {
                    assert(ops.contains(ops[k]));
                }
                assert(j2.operations@.contains(ops[k]));
            }
        }
        lemma_no_cleared(j1.queue@, j2.operations@);
        assert forall|i: int| 0 <= i < j1.queue@.len() implies #[trigger] j2.queue@[i] == j1.queue@[i] by {
            assert(j2.queue@[i] == repaired(mid.queue@[i], j2.operations@));
        }
        assert(j2.queue@ =~= j1.queue@);
    }
    let m2 = choose|mid: PersistentJournal| restarted(j1, mid, now_ms) && pruned(mid, j2, now_ms);
    assert(restarted(j1, m2, now_ms) && pruned(m2, j2, now_ms));
}

/// `j` with its revision replaced.
pub open spec fn with_revision(j: PersistentJournal, revision: u64) -> PersistentJournal {
    PersistentJournal { revision, ..j }
}

/// The journal an open produces from `old` at `now_ms`: the restart step and
/// a retention pass, and a revision one past the stored one (saturating) when
/// that changed anything, so that the result is written back.
pub open spec fn reopened(old: PersistentJournal, new: PersistentJournal, now_ms: u64, changed: bool) -> bool {
    exists|mid: PersistentJournal, kept: PersistentJournal|
        {
            &&& restarted(old, mid, now_ms)
            &&& pruned(mid, kept, now_ms)
            &&& changed == (restart_changed(old, mid, now_ms) || prune_changed(mid, kept, now_ms))
            &&& new == with_revision(
                kept,
                if changed {
                    if old.revision < u64::MAX {
                        (old.revision + 1) as u64
                    } else {
                        u64::MAX
                    }
                } else {
                    old.revision
                },
            )
        }
}

impl PersistentJournal {
    /// Brings a journal read from disk up to date at `now_ms`
    /// ([`PersistentJournal::normalize_after_restart`]) and, when that changed
    /// anything, moves its revision one past the stored one so that it is
    /// written back. Returns whether it changed.
    pub fn restart_after_open(&mut self, now_ms: u64) -> (changed: bool)
        ensures
            reopened(*old(self), *final(self), now_ms, changed),
    {
        let persisted = self.revision;
        let ghost j0 = *self;
        let restart = self.interrupt_unfinished(now_ms);
        let ghost mid = *self;
        let retention = self.prune_and_repair_latest_references(now_ms);
        let ghost kept = *self;
        proof {
            assert(views_of_strings(retention.removed_operation_ids@).len() == retention.removed_operation_ids@.len());
            assert(views_of_strings(retention.cleared_latest_operation_item_ids@).len()
                == retention.cleared_latest_operation_item_ids@.len());
        }
        let changed = restart || retention.changed();
        if changed {
            self.revision = persisted.saturating_add(1);
        }
        proof {
            assert(*self == with_revision(kept, self.revision));
            assert(restarted(j0, mid, now_ms) && pruned(mid, kept, now_ms));
        }
        changed
    }
}

proof fn lemma_restarted_revision(a: PersistentJournal, b: PersistentJournal, now_ms: u64, r: u64)
    requires
        restarted(a, b, now_ms),
    ensures
        restarted(with_revision(a, r), with_revision(b, r), now_ms),
        restart_changed(with_revision(a, r), with_revision(b, r), now_ms) == restart_changed(a, b, now_ms),
{
}

proof fn lemma_pruned_revision(a: PersistentJournal, b: PersistentJournal, now_ms: u64, r: u64)
    requires
        pruned(a, b, now_ms),
    ensures
        pruned(with_revision(a, r), with_revision(b, r), now_ms),
        prune_changed(with_revision(a, r), with_revision(b, r), now_ms) == prune_changed(a, b, now_ms),
{
    assert(kept_by(with_revision(a, r), now_ms) =~= kept_by(a, now_ms)) by {
        assert forall|id: Seq<char>| #[trigger] keeps_operation(with_revision(a, r), now_ms, id)
            == keeps_operation(a, now_ms, id) by {
            assert(metas(with_revision(a, r).operations@) == metas(a.operations@));
        }
    }
}

/// Opening a journal that an open has already brought up to date changes
/// nothing: the second open reports no change, so nothing is written back,
/// and it keeps the revision, every queue item and every operation record,
/// in the same order.
pub proof fn law_second_open_writes_nothing(
    j0: PersistentJournal,
    j1: PersistentJournal,
    j2: PersistentJournal,
    now_ms: u64,
    first: bool,
    second: bool,
)
    requires
        reopened(j0, j1, now_ms, first),
        reopened(j1, j2, now_ms, second),
    ensures
        !second,
        j2.revision == j1.revision,
        j2.queue@ == j1.queue@,
        j2.operations@.to_multiset() == j1.operations@.to_multiset(),
        j2.pending_app_update == j1.pending_app_update,
        j2.operations@ == j1.operations@,
{
    let (m1, k1) = choose|mid: PersistentJournal, kept: PersistentJournal|
        {
            &&& restarted(j0, mid, now_ms)
            &&& pruned(mid, kept, now_ms)
            &&& first == (restart_changed(j0, mid, now_ms) || prune_changed(mid, kept, now_ms))
            &&& j1 == with_revision(
                kept,
                if first {
                    if j0.revision < u64::MAX {
                        (j0.revision + 1) as u64
                    } else {
                        u64::MAX
                    }
                } else {
                    j0.revision
                },
            )
        };
    let (m2, k2) = choose|mid: PersistentJournal, kept: PersistentJournal|
        {
            &&& restarted(j1, mid, now_ms)
            &&& pruned(mid, kept, now_ms)
            &&& second == (restart_changed(j1, mid, now_ms) || prune_changed(mid, kept, now_ms))
            &&& j2 == with_revision(
                kept,
                if second {
                    if j1.revision < u64::MAX {
                        (j1.revision + 1) as u64
                    } else {
                        u64::MAX
                    }
                } else {
                    j1.revision
                },
            )
        };
    let r = j1.revision;
    lemma_restarted_revision(j0, m1, now_ms, r);
    lemma_pruned_revision(m1, k1, now_ms, r);
    assert(with_revision(k1, r) == j1);
    assert(m2.revision == r && k2.revision == r);
    assert(with_revision(k2, r) == k2);
    law_second_restart_changes_nothing(with_revision(j0, r), j1, k2, now_ms);
    assert(j2 == k2);
}

} // verus!
