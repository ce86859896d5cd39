//! The bounded queue of state publications between the state owner and the
//! single event publisher. Batches of deltas are kept in order; when a batch
//! would push the queue past one of its limits, everything queued is replaced
//! by one request to resynchronise at the latest sequence, and later batches
//! coalesce into it until the publisher takes it.
use crate::app_error::AppError;
use crate::models::{CookieConfig, QueueItemRecord};
use crate::text::{str_byte_len, utf8_len};
use std::collections::VecDeque;
use vstd::prelude::*;

verus! {

/// Most batches held at once.
pub const MAX_OUTBOX_BATCHES: usize = 256;

/// Most deltas held at once, over all batches.
pub const MAX_OUTBOX_DELTAS: usize = 4096;

/// Most estimated bytes held at once, over all batches.
pub const MAX_OUTBOX_ESTIMATED_BYTES: usize = 16777216;

/// The publisher must fetch a full snapshot at or after this sequence.
#[derive(Clone, Copy, Debug, PartialEq, Eq, Structural)]
pub struct AppStateResyncRequired {
    pub latest_sequence: u64,
}

/// What the publisher takes from the outbox.
#[derive(Debug)]
pub enum StatePublication<T> {
    Deltas(Vec<T>),
    ResyncRequired(AppStateResyncRequired),
}

/// Counters of the outbox, for diagnostics.
#[derive(Clone, Copy, Debug, PartialEq, Eq, Structural)]
pub struct StateOutboxStats {
    pub queued_batches: usize,
    pub queued_deltas: usize,
    pub estimated_bytes: usize,
    pub coalesced_resyncs: u64,
}

enum QueuedPublication<T> {
    Deltas { deltas: Vec<T>, estimated_bytes: usize },
    ResyncRequired(AppStateResyncRequired),
}

/// A queued publication as a value: a batch with its byte estimate, or a
/// resynchronisation request with its sequence.
pub enum PendingModel<T> {
    Deltas(Seq<T>, nat),
    Resync(u64),
}

pub struct OutboxModel<T> {
    pub items: Seq<PendingModel<T>>,
    pub coalesced_resyncs: u64,
    pub high_water_sequence: u64,
    pub reader_claimed: bool,
}

spec fn queued_view<T>(q: QueuedPublication<T>) -> PendingModel<T> {
    match q {
        QueuedPublication::Deltas { deltas, estimated_bytes } => PendingModel::Deltas(
            deltas@,
            estimated_bytes as nat,
        ),
        QueuedPublication::ResyncRequired(r) => PendingModel::Resync(r.latest_sequence),
    }
}

pub open spec fn pending_deltas<T>(p: PendingModel<T>) -> nat {
    match p {
        PendingModel::Deltas(d, _) => d.len(),
        PendingModel::Resync(_) => 0,
    }
}

pub open spec fn pending_bytes<T>(p: PendingModel<T>) -> nat {
    match p {
        PendingModel::Deltas(_, b) => b,
        PendingModel::Resync(_) => 0,
    }
}

/// Number of deltas in the queued batches.
pub open spec fn delta_total<T>(items: Seq<PendingModel<T>>) -> nat
    decreases items.len(),
{
    if items.len() == 0 {
        0
    } else {
        pending_deltas(items[0]) + delta_total(items.drop_first())
    }
}

/// Estimated bytes of the queued batches.
pub open spec fn byte_total<T>(items: Seq<PendingModel<T>>) -> nat
    decreases items.len(),
{
    if items.len() == 0 {
        0
    } else {
        pending_bytes(items[0]) + byte_total(items.drop_first())
    }
}

pub open spec fn max_u64(a: u64, b: u64) -> u64 {
    if a >= b {
        a
    } else {
        b
    }
}

pub open spec fn sat_inc_u64(n: u64) -> u64 {
    if n < u64::MAX {
        (n + 1) as u64
    } else {
        n
    }
}

pub open spec fn ends_with_resync<T>(items: Seq<PendingModel<T>>) -> bool {
    items.len() > 0 && items.last() is Resync
}

/// Whether one more batch of `count` deltas and `bytes` estimated bytes would
/// break a limit of the outbox.
pub open spec fn would_overflow<T>(items: Seq<PendingModel<T>>, count: nat, bytes: nat) -> bool {
    ||| items.len() + 1 > MAX_OUTBOX_BATCHES
    ||| delta_total(items) + count > MAX_OUTBOX_DELTAS
    ||| byte_total(items) + bytes > MAX_OUTBOX_ESTIMATED_BYTES
}

/// The outbox after a batch is offered.
pub open spec fn enqueue_result<T>(m: OutboxModel<T>, deltas: Seq<T>, bytes: nat, latest_sequence: u64) -> OutboxModel<T> {
    if deltas.len() == 0 {
        m
    } else {
        let hw = max_u64(m.high_water_sequence, latest_sequence);
        if ends_with_resync(m.items) {
            let last = m.items.last()->Resync_0;
            OutboxModel {
                items: m.items.update(m.items.len() - 1, PendingModel::Resync(max_u64(last, hw))),
                coalesced_resyncs: sat_inc_u64(m.coalesced_resyncs),
                high_water_sequence: hw,
                ..m
            }
        } else if would_overflow(m.items, deltas.len(), bytes) {
            OutboxModel {
                items: seq![PendingModel::Resync(hw)],
                coalesced_resyncs: sat_inc_u64(m.coalesced_resyncs),
                high_water_sequence: hw,
                ..m
            }
        } else {
            OutboxModel {
                items: m.items.push(PendingModel::Deltas(deltas, bytes)),
                high_water_sequence: hw,
                ..m
            }
        }
    }
}

/// The outbox after a resynchronisation is required.
pub open spec fn require_resync_result<T>(m: OutboxModel<T>, latest_sequence: u64) -> OutboxModel<T> {
    let hw = max_u64(m.high_water_sequence, latest_sequence);
    OutboxModel {
        items: if ends_with_resync(m.items) {
            m.items.update(
                m.items.len() - 1,
                PendingModel::Resync(max_u64(m.items.last()->Resync_0, hw)),
            )
        } else {
            seq![PendingModel::Resync(hw)]
        },
        coalesced_resyncs: sat_inc_u64(m.coalesced_resyncs),
        high_water_sequence: hw,
        ..m
    }
}

pub open spec fn publication_view<T>(p: StatePublication<T>) -> PendingModel<T> {
    match p {
        StatePublication::Deltas(d) => PendingModel::Deltas(d@, 0),
        StatePublication::ResyncRequired(r) => PendingModel::Resync(r.latest_sequence),
    }
}

/// What the publisher takes for a queued item: the batch's deltas, or the
/// resynchronisation request.
pub open spec fn published_as<T>(p: PendingModel<T>) -> PendingModel<T> {
    match p {
        PendingModel::Deltas(d, _) => PendingModel::Deltas(d, 0),
        PendingModel::Resync(s) => PendingModel::Resync(s),
    }
}

/// Invariant of the outbox: within its limits, and a resynchronisation
/// request is only ever the single item, at the high-water sequence.
pub open spec fn outbox_wf<T>(m: OutboxModel<T>) -> bool {
    &&& m.items.len() <= MAX_OUTBOX_BATCHES
    &&& delta_total(m.items) <= MAX_OUTBOX_DELTAS
    &&& byte_total(m.items) <= MAX_OUTBOX_ESTIMATED_BYTES
    &&& forall|i: int|
        0 <= i < m.items.len() && (#[trigger] m.items[i]) is Resync ==> m.items.len() == 1
            && m.items[i]->Resync_0 == m.high_water_sequence
}

proof fn lemma_totals_push<T>(items: Seq<PendingModel<T>>, p: PendingModel<T>)
    ensures
        delta_total(items.push(p)) == delta_total(items) + pending_deltas(p),
        byte_total(items.push(p)) == byte_total(items) + pending_bytes(p),
    decreases items.len(),
{
    if items.len() > 0 {
        assert(items.push(p).drop_first() =~= items.drop_first().push(p));
        assert(items.push(p)[0] == items[0]);
        lemma_totals_push(items.drop_first(), p);
    } else {
        assert(items.push(p) =~= seq![p]);
        lemma_totals_single(p);
    }
}

proof fn lemma_totals_single<T>(p: PendingModel<T>)
    ensures
        delta_total(seq![p]) == pending_deltas(p),
        byte_total(seq![p]) == pending_bytes(p),
{
    let e = Seq::<PendingModel<T>>::empty();
    assert(seq![p].drop_first() =~= e);
    assert(delta_total(e) == 0);
    assert(byte_total(e) == 0);
}

/// Raising the sequence of the only, trailing resynchronisation request keeps
/// the outbox well formed at the new high-water sequence.
proof fn lemma_single_resync_totals<T>(m: OutboxModel<T>, items: Seq<PendingModel<T>>, hw: u64)
    requires
        outbox_wf(m),
        ends_with_resync(m.items),
        hw >= m.high_water_sequence,
        items == m.items.update(m.items.len() - 1, PendingModel::Resync(max_u64(m.items.last()->Resync_0, hw))),
    ensures
        m.items.len() == 1,
        items == seq![PendingModel::<T>::Resync(hw)],
        delta_total(m.items) == 0,
        byte_total(m.items) == 0,
        delta_total(items) == 0,
        byte_total(items) == 0,
{
    assert(m.items[m.items.len() - 1] is Resync);
    assert(m.items =~= seq![m.items[0]]);
    lemma_totals_single(m.items[0]);
    assert(items =~= seq![PendingModel::<T>::Resync(hw)]);
    lemma_totals_single(PendingModel::<T>::Resync(hw));
}

/// The queue of state publications, with the claim of its single reader.
pub struct StateOutbox<T> {
    items: VecDeque<QueuedPublication<T>>,
    delta_count: usize,
    estimated_bytes: usize,
    coalesced_resyncs: u64,
    high_water_sequence: u64,
    reader_claimed: bool,
}

impl<T> View for StateOutbox<T> {
    type V = OutboxModel<T>;

    closed spec fn view(&self) -> OutboxModel<T> {
        OutboxModel {
            items: self.items@.map_values(|q: QueuedPublication<T>| queued_view(q)),
            coalesced_resyncs: self.coalesced_resyncs,
            high_water_sequence: self.high_water_sequence,
            reader_claimed: self.reader_claimed,
        }
    }
}

impl<T> StateOutbox<T> {
    pub closed spec fn wf(&self) -> bool {
        &&& outbox_wf(self@)
        &&& self.delta_count == delta_total(self@.items)
        &&& self.estimated_bytes == byte_total(self@.items)
    }

    /// An empty outbox whose high-water sequence starts at `initial_sequence`.
    pub fn new(initial_sequence: u64) -> (o: Self)
        ensures
            o.wf(),
            o@.items.len() == 0,
            o@.coalesced_resyncs == 0,
            o@.high_water_sequence == initial_sequence,
            !o@.reader_claimed,
    {
        let o = StateOutbox {
            items: VecDeque::new(),
            delta_count: 0,
            estimated_bytes: 0,
            coalesced_resyncs: 0,
            high_water_sequence: initial_sequence,
            reader_claimed: false,
        };
        proof {
            assert(o@.items =~= Seq::<PendingModel<T>>::empty());
        }
        o
    }

    /// Claims the single reader; a second claim is refused until the first is
    /// released.
    pub fn take_reader(&mut self) -> (res: Result<(), AppError>)
        requires
            old(self).wf(),
        ensures
            final(self).wf(),
            old(self)@.reader_claimed ==> (res matches Err(e) && e.code@ == "busy"@ && final(self)@
                == old(self)@),
            !old(self)@.reader_claimed ==> res is Ok && final(self)@ == (OutboxModel {
                reader_claimed: true,
                ..old(self)@
            }),
    {
        if self.reader_claimed {
            return Err(AppError::busy("The application state publisher is already running."));
        }
        self.reader_claimed = true;
        Ok(())
    }

    /// Releases the reader claim.
    pub fn release_reader(&mut self)
        requires
            old(self).wf(),
        ensures
            final(self).wf(),
            final(self)@ == (OutboxModel { reader_claimed: false, ..old(self)@ }),
    {
        self.reader_claimed = false;
    }

    /// Rewrites the sequence of the trailing resynchronisation request.
    fn raise_trailing_resync(&mut self, hw: u64)
        requires
            old(self).wf(),
            ends_with_resync(old(self)@.items),
            hw >= old(self)@.high_water_sequence,
        ensures
            final(self)@.items == old(self)@.items.update(
                old(self)@.items.len() - 1,
                PendingModel::Resync(max_u64(old(self)@.items.last()->Resync_0, hw)),
            ),
            final(self)@.items.len() == 1,
            final(self).delta_count == old(self).delta_count,
            final(self).estimated_bytes == old(self).estimated_bytes,
            final(self).coalesced_resyncs == old(self).coalesced_resyncs,
            final(self).high_water_sequence == old(self).high_water_sequence,
            final(self).reader_claimed == old(self).reader_claimed,
    {
        let ghost n = self.items@.len();
        proof {
            assert(self@.items[n - 1] is Resync);
        }
        let last = self.items.pop_back();
        let s = match last {
            Some(QueuedPublication::ResyncRequired(r)) => r.latest_sequence,
            _ => hw,
        };
        let raised = if s >= hw {
            s
        } else {
            hw
        };
        self.items.push_back(
            QueuedPublication::ResyncRequired(AppStateResyncRequired { latest_sequence: raised }),
        );
        proof {
            assert(self@.items =~= old(self)@.items.update(
                n - 1,
                PendingModel::Resync(max_u64(old(self)@.items.last()->Resync_0, hw)),
            ));
        }
    }

    /// Replaces everything queued by one resynchronisation request.
    fn replace_with_resync(&mut self, hw: u64)
        ensures
            final(self)@.items == seq![PendingModel::<T>::Resync(hw)],
            final(self).delta_count == 0,
            final(self).estimated_bytes == 0,
            final(self).coalesced_resyncs == old(self).coalesced_resyncs,
            final(self).high_water_sequence == old(self).high_water_sequence,
            final(self).reader_claimed == old(self).reader_claimed,
    {
        self.items.clear();
        self.delta_count = 0;
        self.estimated_bytes = 0;
        self.items.push_back(
            QueuedPublication::ResyncRequired(AppStateResyncRequired { latest_sequence: hw }),
        );
        proof {
            assert(self@.items =~= seq![PendingModel::<T>::Resync(hw)]);
        }
    }

    /// Offers a batch of deltas whose estimated size is `estimated_bytes`,
    /// observed at `latest_sequence`. An empty batch changes nothing.
    pub fn enqueue(&mut self, deltas: Vec<T>, estimated_bytes: usize, latest_sequence: u64)
        requires
            old(self).wf(),
        ensures
            final(self).wf(),
            final(self)@ == enqueue_result(old(self)@, deltas@, estimated_bytes as nat, latest_sequence),
    {
        if deltas.len() == 0 {
            return;
        }
        let hw = if self.high_water_sequence >= latest_sequence {
            self.high_water_sequence
        } else {
            latest_sequence
        };
        let ghost m = self@;
        let n = self.items.len();
        let back_is_resync = n > 0 && match &self.items[n - 1] {
            QueuedPublication::ResyncRequired(_) => true,
            QueuedPublication::Deltas { .. } => false,
        };
        proof {
            assert(back_is_resync == ends_with_resync(m.items)) by {
                if n > 0 {
                    assert(m.items.last() == queued_view(self.items@[n - 1]));
                }
            }
        }
        if back_is_resync {
            self.raise_trailing_resync(hw);
            self.high_water_sequence = hw;
            self.coalesced_resyncs = self.coalesced_resyncs.saturating_add(1);
            proof {
                lemma_single_resync_totals(m, self@.items, hw);
            }
        } else if n.saturating_add(1) > MAX_OUTBOX_BATCHES || self.delta_count.saturating_add(
            deltas.len(),
        ) > MAX_OUTBOX_DELTAS || self.estimated_bytes.saturating_add(estimated_bytes)
            > MAX_OUTBOX_ESTIMATED_BYTES {
            self.replace_with_resync(hw);
            self.high_water_sequence = hw;
            self.coalesced_resyncs = self.coalesced_resyncs.saturating_add(1);
            proof {
                lemma_totals_single(PendingModel::<T>::Resync(hw));
            }
        } else {
            let ghost batch = deltas@;
            self.delta_count = self.delta_count + deltas.len();
            self.estimated_bytes = self.estimated_bytes + estimated_bytes;
            self.items.push_back(QueuedPublication::Deltas { deltas, estimated_bytes });
            self.high_water_sequence = hw;
            proof {
                let p = PendingModel::Deltas(batch, estimated_bytes as nat);
                assert(self@.items =~= m.items.push(p));
                lemma_totals_push(m.items, p);
                assert forall|i: int| 0 <= i < self@.items.len() implies !(#[trigger] self@.items[i] is Resync) by {
                    if i < m.items.len() {
                        assert(self@.items[i] == m.items[i]);
                        if m.items[i] is Resync {
                            assert(m.items.len() == 1);
                        }
                    }
                }
            }
        }
    }

    /// Requires the publisher to resynchronise at the outbox's high-water
    /// sequence, which `latest_sequence` may raise but never lower.
    pub fn require_resync(&mut self, latest_sequence: u64)
        requires
            old(self).wf(),
        ensures
            final(self).wf(),
            final(self)@ == require_resync_result(old(self)@, latest_sequence),
    {
        let hw = if self.high_water_sequence >= latest_sequence {
            self.high_water_sequence
        } else {
            latest_sequence
        };
        let ghost m = self@;
        let n = self.items.len();
        let back_is_resync = n > 0 && match &self.items[n - 1] {
            QueuedPublication::ResyncRequired(_) => true,
            QueuedPublication::Deltas { .. } => false,
        };
        proof {
            assert(back_is_resync == ends_with_resync(m.items)) by {
                if n > 0 {
                    assert(m.items.last() == queued_view(self.items@[n - 1]));
                }
            }
        }
        if back_is_resync {
            self.raise_trailing_resync(hw);
            proof {
                lemma_single_resync_totals(m, self@.items, hw);
            }
        } else {
            self.replace_with_resync(hw);
            proof {
                lemma_totals_single(PendingModel::<T>::Resync(hw));
            }
        }
        self.high_water_sequence = hw;
        self.coalesced_resyncs = self.coalesced_resyncs.saturating_add(1);
        proof {
            assert(self@.items[0] is Resync);
        }
    }

    /// The outbox's counters.
    pub fn stats(&self) -> (s: StateOutboxStats)
        requires
            self.wf(),
        ensures
            s.queued_batches == self@.items.len(),
            s.queued_deltas == delta_total(self@.items),
            s.estimated_bytes == byte_total(self@.items),
            s.coalesced_resyncs == self@.coalesced_resyncs,
    {
        StateOutboxStats {
            queued_batches: self.items.len(),
            queued_deltas: self.delta_count,
            estimated_bytes: self.estimated_bytes,
            coalesced_resyncs: self.coalesced_resyncs,
        }
    }

    /// Takes the oldest queued publication, if any.
    pub fn try_recv(&mut self) -> (p: Option<StatePublication<T>>)
        requires
            old(self).wf(),
        ensures
            final(self).wf(),
            old(self)@.items.len() == 0 ==> p is None && final(self)@ == old(self)@,
            old(self)@.items.len() > 0 ==> (p matches Some(x) && publication_view(x) == published_as(
                old(self)@.items[0],
            ) && final(self)@ == (OutboxModel { items: old(self)@.items.drop_first(), ..old(self)@ })),
    {
        let ghost m = self@;
        match self.items.pop_front() {
            None => None,
            Some(QueuedPublication::Deltas { deltas, estimated_bytes }) => {
                self.delta_count = self.delta_count - deltas.len();
                self.estimated_bytes = self.estimated_bytes - estimated_bytes;
                proof {
                    assert(self@.items =~= m.items.drop_first());
                    assert forall|i: int| 0 <= i < self@.items.len() implies !(#[trigger] self@.items[i] is Resync) by {
                        assert(self@.items[i] == m.items[i + 1]);
                        if m.items[i + 1] is Resync {
                            assert(m.items.len() == 1);
                        }
                    }
                }
                Some(StatePublication::Deltas(deltas))
            },
            Some(QueuedPublication::ResyncRequired(required)) => {
                proof {
                    assert(m.items[0] is Resync);
                    assert(self@.items =~= m.items.drop_first());
                    assert(self@.items.len() == 0);
                }
                Some(StatePublication::ResyncRequired(required))
            },
        }
    }
}

/// Overflow never loses the newest state: once a batch is refused for a
/// limit, the outbox holds a single resynchronisation request at the highest
/// sequence it has seen, and later batches coalesce into that request.
pub proof fn law_overflow_coalesces_to_one_latest_resync<T>(
    m: OutboxModel<T>,
    deltas: Seq<T>,
    bytes: nat,
    latest_sequence: u64,
)
    requires
        outbox_wf(m),
        deltas.len() > 0,
        ends_with_resync(m.items) || would_overflow(m.items, deltas.len(), bytes),
    ensures
        ({
            let m1 = enqueue_result(m, deltas, bytes, latest_sequence);
            &&& m1.items == seq![PendingModel::<T>::Resync(max_u64(m.high_water_sequence, latest_sequence))]
            &&& delta_total(m1.items) == 0
            &&& m1.coalesced_resyncs == sat_inc_u64(m.coalesced_resyncs)
        }),
{
    if ends_with_resync(m.items) {
        assert(m.items[m.items.len() - 1] is Resync);
        assert(m.items.len() == 1);
        let m1 = enqueue_result(m, deltas, bytes, latest_sequence);
        assert(m1.items =~= seq![PendingModel::<T>::Resync(max_u64(m.high_water_sequence, latest_sequence))]);
    }
    lemma_totals_single(PendingModel::<T>::Resync(max_u64(m.high_water_sequence, latest_sequence)));
}

/// Batches that fit are published in the order they were offered, each with
/// its deltas in their own order, before anything offered later.
pub proof fn law_batches_keep_their_order<T>(
    m: OutboxModel<T>,
    first: Seq<T>,
    first_bytes: nat,
    second: Seq<T>,
    second_bytes: nat,
    first_sequence: u64,
    second_sequence: u64,
)
    requires
        outbox_wf(m),
        m.items.len() == 0,
        first.len() > 0,
        second.len() > 0,
        !would_overflow(Seq::<PendingModel<T>>::empty(), first.len() + second.len(), first_bytes + second_bytes),
    ensures
        ({
            let m2 = enqueue_result(
                enqueue_result(m, first, first_bytes, first_sequence),
                second,
                second_bytes,
                second_sequence,
            );
            &&& m2.items.len() == 2
            &&& published_as(m2.items[0]) == PendingModel::<T>::Deltas(first, 0)
            &&& published_as(m2.items.drop_first()[0]) == PendingModel::<T>::Deltas(second, 0)
        }),
{
    let m1 = enqueue_result(m, first, first_bytes, first_sequence);
    lemma_totals_single(PendingModel::Deltas(first, first_bytes));
    assert(m1.items =~= seq![PendingModel::Deltas(first, first_bytes)]);
    assert(delta_total(Seq::<PendingModel<T>>::empty()) == 0);
    assert(byte_total(Seq::<PendingModel<T>>::empty()) == 0);
}

/// A resynchronisation never goes back in time: it carries the outbox's
/// high-water sequence even when the caller observed an older one.
pub proof fn law_resync_uses_the_high_water<T>(m: OutboxModel<T>, latest_sequence: u64)
    requires
        outbox_wf(m),
    ensures
        ({
            let m1 = require_resync_result(m, latest_sequence);
            &&& m1.items.len() == 1
            &&& m1.items[0] == PendingModel::<T>::Resync(max_u64(m.high_water_sequence, latest_sequence))
            &&& m1.high_water_sequence >= m.high_water_sequence
            &&& outbox_wf(m1)
        }),
{
    let hw = max_u64(m.high_water_sequence, latest_sequence);
    if ends_with_resync(m.items) {
        let items = m.items.update(m.items.len() - 1, PendingModel::Resync(max_u64(m.items.last()->Resync_0, hw)));
        lemma_single_resync_totals(m, items, hw);
    }
    lemma_totals_single(PendingModel::<T>::Resync(hw));
}

/// Estimated size of one optional string.
pub open spec fn opt_bytes(s: Option<String>) -> nat {
    match s {
        Some(t) => utf8_len(t@),
        None => 0,
    }
}

/// Estimated size of the strings of a cookie configuration.
pub open spec fn cookie_bytes(c: Option<CookieConfig>) -> nat {
    match c {
        Some(k) => utf8_len(k.mode@) + utf8_len(k.browser@) + opt_bytes(k.cookie_file),
        None => 0,
    }
}

/// Sum of the byte lengths of a list of strings.
pub open spec fn strings_bytes(v: Seq<String>) -> nat
    decreases v.len(),
{
    if v.len() == 0 {
        0
    } else {
        strings_bytes(v.drop_last()) + utf8_len(v.last()@)
    }
}

/// Estimated size of a queue item: a fixed overhead and its strings.
pub open spec fn queue_item_bytes(item: QueueItemRecord) -> nat {
    192 + utf8_len(item.id@) + utf8_len(item.source_url@) + utf8_len(item.title@) + strings_bytes(
        item.available_qualities@,
    ) + utf8_len(item.format@) + utf8_len(item.quality@) + utf8_len(item.output_dir@) + opt_bytes(
        item.filename_override,
    ) + opt_bytes(item.compat_config_path) + opt_bytes(item.latest_operation_id) + cookie_bytes(
        item.cookie_config,
    )
}

fn opt_byte_len(s: &Option<String>) -> (n: usize)
    ensures
        n == opt_bytes(*s),
{
    match s {
        Some(t) => str_byte_len(t.as_str()),
        None => 0,
    }
}

/// Estimated size of a queue item, for the outbox's byte limit.
pub fn estimate_queue_item_bytes(item: &QueueItemRecord) -> (n: usize)
    requires
        queue_item_bytes(*item) <= usize::MAX,
    ensures
        n == queue_item_bytes(*item),
{
    let mut qualities: usize = 0;
    let mut i: usize = 0;
    while i < item.available_qualities.len()
        invariant
            i <= item.available_qualities@.len(),
            qualities == strings_bytes(item.available_qualities@.take(i as int)),
            strings_bytes(item.available_qualities@) <= usize::MAX,
        decreases item.available_qualities@.len() - i,
    {
        proof {
            let v = item.available_qualities@;
            assert(v.take(i + 1).drop_last() =~= v.take(i as int));
            lemma_strings_bytes_prefix(v, i + 1);
        }
        qualities = qualities + str_byte_len(item.available_qualities[i].as_str());
        i += 1;
    }
    proof {
        assert(item.available_qualities@.take(i as int) =~= item.available_qualities@);
    }
    let cookie = match &item.cookie_config {
        Some(c) => str_byte_len(c.mode.as_str()) + str_byte_len(c.browser.as_str()) + opt_byte_len(
            &c.cookie_file,
        ),
        None => 0,
    };
    192 + str_byte_len(item.id.as_str()) + str_byte_len(item.source_url.as_str()) + str_byte_len(
        item.title.as_str(),
    ) + qualities + str_byte_len(item.format.as_str()) + str_byte_len(item.quality.as_str())
        + str_byte_len(item.output_dir.as_str()) + opt_byte_len(&item.filename_override)
        + opt_byte_len(&item.compat_config_path) + opt_byte_len(&item.latest_operation_id) + cookie
}

proof fn lemma_strings_bytes_prefix(v: Seq<String>, k: int)
    requires
        0 <= k <= v.len(),
    ensures
        strings_bytes(v.take(k)) <= strings_bytes(v),
    decreases v.len(),
{
    if k < v.len() {
        assert(v.drop_last().take(k) =~= v.take(k));
        lemma_strings_bytes_prefix(v.drop_last(), k);
    } else {
        assert(v.take(k) =~= v);
    }
}

} // verus!
