//! Rules of the persisted application journal: its size limits, the errors it
//! reports, and which operation records survive retention.
use crate::app_error::{error_is_bounded, safe_text_of, AppError, MAX_ERROR_SUMMARY_BYTES};
use crate::bounded_read::{read_bounded, BoundedReadError};
use crate::models::OperationState;
use crate::text::{chars_of, str_eq, views_of_strings};
use vstd::prelude::*;

pub mod records;
pub mod validation;

verus! {

/// Terminal operations older than seven days are dropped.
pub const TERMINAL_RETENTION_MS: u64 = 604800000;

/// At most this many recent terminal operations are kept.
pub const MAX_TERMINAL_ATTEMPTS: usize = 200;

pub const MAX_DECRYPTED_JOURNAL_BYTES: usize = 33554432;

pub const MAX_ENCRYPTED_JOURNAL_BYTES: u64 = 41943040;

pub const JOURNAL_FILENAME: &'static str = "state-v1.dpapi";

pub const JOURNAL_TOO_LARGE: &'static str =
    "The saved application state is too large to load safely. The existing journal was preserved.";

pub const JOURNAL_UNSUPPORTED_VERSION: &'static str =
    "The application journal was created by an unsupported version.";

pub const JOURNAL_UNREADABLE: &'static str = "Could not read the application journal.";

pub const JOURNAL_INVALID_LIMIT: &'static str = "The application journal read limit was invalid.";

/// The error for a journal over its size limit.
pub fn journal_too_large() -> (e: AppError)
    ensures
        e.code@ == "journal_too_large"@,
        e.summary@ == safe_text_of(JOURNAL_TOO_LARGE@, MAX_ERROR_SUMMARY_BYTES as nat),
        e.detail is None,
        !e.retryable,
        error_is_bounded(e),
{
    AppError::new("journal_too_large", JOURNAL_TOO_LARGE)
}

/// The error for a journal written by another schema version.
pub fn journal_migration_required() -> (e: AppError)
    ensures
        e.code@ == "journal_migration_required"@,
        e.summary@ == safe_text_of(JOURNAL_UNSUPPORTED_VERSION@, MAX_ERROR_SUMMARY_BYTES as nat),
        e.detail is None,
        e.retryable,
        error_is_bounded(e),
{
    AppError::new("journal_migration_required", JOURNAL_UNSUPPORTED_VERSION).retryable(true)
}

/// Reads the encrypted journal through `read` (see [`read_bounded`]), asking
/// for one byte past [`MAX_ENCRYPTED_JOURNAL_BYTES`] and refusing a larger
/// journal: an oversized journal is reported as `journal_too_large`, a failed
/// read as a retryable internal error.
pub fn read_encrypted_journal<F>(read: F) -> (res: Result<Vec<u8>, AppError>)
    where
        F: FnOnce(u64) -> Result<Vec<u8>, std::io::Error>,
    requires
        call_requires(read, ((MAX_ENCRYPTED_JOURNAL_BYTES + 1) as u64,)),
    ensures
        exists|r: Result<Vec<u8>, std::io::Error>|
            #[trigger] call_ensures(read, ((MAX_ENCRYPTED_JOURNAL_BYTES + 1) as u64,), r) && match r {
                Ok(bytes) => if bytes@.len() <= MAX_ENCRYPTED_JOURNAL_BYTES {
                    res matches Ok(out) && out@ == bytes@
                } else {
                    res matches Err(e) && e.code@ == "journal_too_large"@
                },
                Err(_) => res matches Err(e) && e.code@ == "internal_error"@,
            },
        res matches Ok(bytes) ==> bytes@.len() <= MAX_ENCRYPTED_JOURNAL_BYTES,
        res matches Err(e) ==> error_is_bounded(e) && e.detail is None && ((e.code@
            == "journal_too_large"@ && e.summary@ == safe_text_of(
            JOURNAL_TOO_LARGE@,
            MAX_ERROR_SUMMARY_BYTES as nat,
        ) && !e.retryable) || (e.code@ == "internal_error"@ && e.summary@ == safe_text_of(
            JOURNAL_UNREADABLE@,
            MAX_ERROR_SUMMARY_BYTES as nat,
        ) && e.retryable)),
{
    match read_bounded(read, MAX_ENCRYPTED_JOURNAL_BYTES) {
        Ok(bytes) => Ok(bytes),
        Err(BoundedReadError::LimitExceeded) => Err(journal_too_large()),
        Err(BoundedReadError::Io(_)) => Err(AppError::internal(JOURNAL_UNREADABLE)),
        Err(BoundedReadError::InvalidLimit) => Err(AppError::internal(JOURNAL_INVALID_LIMIT)),
    }
}

/// Milliseconds since the Unix epoch on the system clock, `None` when the
/// clock is set before the epoch (`SystemTime::duration_since(UNIX_EPOCH)`,
/// `Duration::as_millis`). The value depends on the clock, so nothing is
/// stated of it.
#[verifier::external_body]
fn system_millis_since_epoch() -> Option<u128> {
    std::time::SystemTime::now().duration_since(std::time::UNIX_EPOCH).ok().map(|d| d.as_millis())
}

/// A clock reading in milliseconds as a `u64`: zero before the epoch, capped
/// at `u64::MAX`.
pub fn clamp_epoch_millis(millis: Option<u128>) -> (ms: u64)
    ensures
        ms == match millis {
            Some(m) => if m <= u64::MAX {
                m as u64
            } else {
                u64::MAX
            },
            None => 0,
        },
{
    match millis {
        Some(m) => {
            if m <= u64::MAX as u128 {
                m as u64
            } else {
                u64::MAX
            }
        },
        None => 0,
    }
}

/// The current time in milliseconds since the Unix epoch.
pub fn now_ms() -> u64 {
    clamp_epoch_millis(system_millis_since_epoch())
}

/// What retention reads of an operation record.
pub struct OperationRetentionMetadata {
    pub id: String,
    pub state: OperationState,
    pub finished_at_ms: Option<u64>,
    pub updated_at_ms: u64,
}

/// When a terminal operation ended: its finish time, else its last update.
pub open spec fn ended_at(o: OperationRetentionMetadata) -> u64 {
    match o.finished_at_ms {
        Some(f) => f,
        None => o.updated_at_ms,
    }
}

/// The oldest end time that is still retained.
pub open spec fn retention_cutoff(now_ms: u64) -> u64 {
    if now_ms >= TERMINAL_RETENTION_MS {
        (now_ms - TERMINAL_RETENTION_MS) as u64
    } else {
        0
    }
}

pub open spec fn is_pending_update(o: OperationRetentionMetadata, pending: Option<Seq<char>>) -> bool {
    pending == Some(o.id@)
}

/// Operations that are always kept: unfinished ones and the pending app update.
pub open spec fn always_kept(o: OperationRetentionMetadata, pending: Option<Seq<char>>) -> bool {
    !o.state.spec_is_terminal() || is_pending_update(o, pending)
}

/// Terminal operations that ended within the retention period.
pub open spec fn recent_terminal(o: OperationRetentionMetadata, pending: Option<Seq<char>>, now_ms: u64) -> bool {
    !always_kept(o, pending) && ended_at(o) >= retention_cutoff(now_ms)
}

/// Character-code order of texts, which is the byte order of their UTF-8
/// encodings.
pub open spec fn text_less(a: Seq<char>, b: Seq<char>) -> bool
    decreases a.len(),
{
    if a.len() == 0 {
        b.len() > 0
    } else if b.len() == 0 {
        false
    } else if a[0] != b[0] {
        (a[0] as u32) < (b[0] as u32)
    } else {
        text_less(a.drop_first(), b.drop_first())
    }
}

/// `a` comes before `b` among recent terminal operations: later end first,
/// then later update first, then smaller id first.
pub open spec fn retained_before(a: OperationRetentionMetadata, b: OperationRetentionMetadata) -> bool {
    ||| ended_at(a) > ended_at(b)
    ||| (ended_at(a) == ended_at(b) && a.updated_at_ms > b.updated_at_ms)
    ||| (ended_at(a) == ended_at(b) && a.updated_at_ms == b.updated_at_ms && text_less(a.id@, b.id@))
}

/// Number of recent terminal operations among the first `k` that come before `o`.
pub open spec fn rank_among(
    ops: Seq<OperationRetentionMetadata>,
    k: int,
    o: OperationRetentionMetadata,
    pending: Option<Seq<char>>,
    now_ms: u64,
) -> nat
    decreases k,
{
    if k <= 0 {
        0
    } else {
        rank_among(ops, k - 1, o, pending, now_ms) + if recent_terminal(ops[k - 1], pending, now_ms)
            && retained_before(ops[k - 1], o) {
            1nat
        } else {
            0nat
        }
    }
}

/// Whether retention keeps the operation at index `i`: it is always kept, or
/// it is a recent terminal operation with fewer than
/// [`MAX_TERMINAL_ATTEMPTS`] recent terminal operations before it.
pub open spec fn kept_at(ops: Seq<OperationRetentionMetadata>, i: int, pending: Option<Seq<char>>, now_ms: u64) -> bool {
    ||| always_kept(ops[i], pending)
    ||| (recent_terminal(ops[i], pending, now_ms) && rank_among(ops, ops.len() as int, ops[i], pending, now_ms)
        < MAX_TERMINAL_ATTEMPTS)
}

/// The ids that retention keeps.
pub open spec fn retained_id(ops: Seq<OperationRetentionMetadata>, pending: Option<Seq<char>>, now_ms: u64, id: Seq<char>) -> bool {
    exists|i: int| 0 <= i < ops.len() && ops[i].id@ == id && kept_at(ops, i, pending, now_ms)
}

pub(crate) fn text_less_exec(a: &[char], b: &[char]) -> (r: bool)
    ensures
        r == text_less(a@, b@),
{
    let mut i: usize = 0;
    proof {
        assert(a@.skip(0) =~= a@);
        assert(b@.skip(0) =~= b@);
    }
    while i < a.len() && i < b.len()
        invariant
            i <= a@.len(),
            i <= b@.len(),
            text_less(a@, b@) == text_less(a@.skip(i as int), b@.skip(i as int)),
        decreases a@.len() - i,
    {
        proof {
            assert(a@.skip(i as int)[0] == a@[i as int]);
            assert(b@.skip(i as int)[0] == b@[i as int]);
        }
        if a[i] != b[i] {
            return (a[i] as u32) < (b[i] as u32);
        }
        proof {
            assert(a@.skip(i as int).drop_first() =~= a@.skip(i + 1));
            assert(b@.skip(i as int).drop_first() =~= b@.skip(i + 1));
        }
        i += 1;
    }
    i < b.len() && i == a.len()
}

fn ended_at_exec(o: &OperationRetentionMetadata) -> (t: u64)
    ensures
        t == ended_at(*o),
{
    match o.finished_at_ms {
        Some(f) => f,
        None => o.updated_at_ms,
    }
}

fn is_always_kept(o: &OperationRetentionMetadata, pending: Option<&str>) -> (b: bool)
    ensures
        b == always_kept(*o, match pending {
            Some(p) => Some(p@),
            None => None,
        }),
{
    if !o.state.is_terminal() {
        return true;
    }
    match pending {
        Some(p) => str_eq(p, o.id.as_str()),
        None => false,
    }
}

fn is_recent_terminal(o: &OperationRetentionMetadata, pending: Option<&str>, cutoff: u64, now_ms: u64) -> (b: bool)
    requires
        cutoff == retention_cutoff(now_ms),
    ensures
        b == recent_terminal(*o, match pending {
            Some(p) => Some(p@),
            None => None,
        }, now_ms),
{
    !is_always_kept(o, pending) && ended_at_exec(o) >= cutoff
}

fn comes_before(a: &OperationRetentionMetadata, b: &OperationRetentionMetadata) -> (r: bool)
    ensures
        r == retained_before(*a, *b),
{
    let ea = ended_at_exec(a);
    let eb = ended_at_exec(b);
    if ea != eb {
        return ea > eb;
    }
    if a.updated_at_ms != b.updated_at_ms {
        return a.updated_at_ms > b.updated_at_ms;
    }
    let x = chars_of(a.id.as_str());
    let y = chars_of(b.id.as_str());
    text_less_exec(x.as_slice(), y.as_slice())
}

pub(crate) fn contains_id(v: &Vec<String>, id: &str) -> (b: bool)
    ensures
        b == views_of_strings(v@).contains(id@),
{
    let mut i: usize = 0;
    while i < v.len()
        invariant
            i <= v@.len(),
            forall|j: int| 0 <= j < i ==> v@[j]@ != id@,
        decreases v@.len() - i,
    {
        if str_eq(v[i].as_str(), id) {
            proof {
                assert(views_of_strings(v@)[i as int] == id@);
            }
            return true;
        }
        i += 1;
    }
    proof {
        if views_of_strings(v@).contains(id@) {
            let k = choose|k: int| 0 <= k < views_of_strings(v@).len() && views_of_strings(v@)[k] == id@;
            assert(v@[k]@ == id@);
        }
    }
    false
}

/// The ids of the operation records that retention keeps, each once: every
/// unfinished operation, the pending app update, and the
/// [`MAX_TERMINAL_ATTEMPTS`] most recently ended terminal operations of the
/// last seven days.
pub fn retained_operation_ids(
    operations: &Vec<OperationRetentionMetadata>,
    pending_app_update_id: Option<&str>,
    now_ms: u64,
) -> (ids: Vec<String>)
    ensures
        forall|id: Seq<char>|
            views_of_strings(ids@).contains(id) <==> retained_id(
                operations@,
                match pending_app_update_id {
                    Some(p) => Some(p@),
                    None => None,
                },
                now_ms,
                id,
            ),
        forall|a: int, b: int| 0 <= a < b < ids@.len() ==> ids@[a]@ != ids@[b]@,
{
    let ghost pending = match pending_app_update_id {
        Some(p) => Some(p@),
        None => None,
    };
    let ghost ops = operations@;
    let cutoff = now_ms.saturating_sub(TERMINAL_RETENTION_MS);
    let mut ids: Vec<String> = Vec::new();
    let mut i: usize = 0;
    while i < operations.len()
        invariant
            i <= ops.len(),
            ops == operations@,
            cutoff == retention_cutoff(now_ms),
            pending == match pending_app_update_id {
                Some(p) => Some(p@),
                None => None,
            },
            forall|id: Seq<char>|
                views_of_strings(ids@).contains(id) <==> exists|k: int|
                    0 <= k < i && ops[k].id@ == id && kept_at(ops, k, pending, now_ms),
            forall|a: int, b: int| 0 <= a < b < ids@.len() ==> ids@[a]@ != ids@[b]@,
        decreases ops.len() - i,
    {
        let o = &operations[i];
        let keep = if is_always_kept(o, pending_app_update_id) {
            true
        } else if is_recent_terminal(o, pending_app_update_id, cutoff, now_ms) {
            let mut rank: usize = 0;
            let mut j: usize = 0;
            while j < operations.len()
                invariant
                    j <= ops.len(),
                    ops == operations@,
                    i < ops.len(),
                    cutoff == retention_cutoff(now_ms),
                    pending == match pending_app_update_id {
                        Some(p) => Some(p@),
                        None => None,
                    },
                    *o == ops[i as int],
                    rank == rank_among(ops, j as int, ops[i as int], pending, now_ms),
                    rank <= j,
                decreases ops.len() - j,
            {
                if is_recent_terminal(&operations[j], pending_app_update_id, cutoff, now_ms)
                    && comes_before(&operations[j], o) {
                    rank = rank + 1;
                }
                j += 1;
            }
            rank < MAX_TERMINAL_ATTEMPTS
        } else {
            false
        };
        proof {
            assert(keep == kept_at(ops, i as int, pending, now_ms));
        }
        let ghost before = ids@;
        let present = contains_id(&ids, o.id.as_str());
        if keep && !present {
            ids.push(o.id.clone());
            proof {
                assert(views_of_strings(ids@) =~= views_of_strings(before).push(o.id@));
                assert forall|a: int, b: int| 0 <= a < b < ids@.len() implies ids@[a]@ != ids@[b]@ by {
                    if b == ids@.len() - 1 {
                        assert(views_of_strings(before)[a] == ids@[a]@);
                    }
                }
            }
        }
        proof {
            let idi = ops[i as int].id@;
            assert forall|id: Seq<char>|
                views_of_strings(ids@).contains(id) <==> exists|k: int|
                    0 <= k < i + 1 && ops[k].id@ == id && kept_at(ops, k, pending, now_ms) by {
                if id == idi && keep {
                    if present {
                        assert(views_of_strings(before).contains(id));
                        assert(ids@ == before);
                    } else {
                        assert(views_of_strings(ids@)[ids@.len() - 1] == id);
                    }
                    assert(ops[i as int].id@ == id && kept_at(ops, i as int, pending, now_ms));
                } else {
                    if keep && !present {
                        assert(views_of_strings(ids@).contains(id) <==> views_of_strings(before).contains(id)) by {
                            if views_of_strings(ids@).contains(id) {
                                let q = choose|q: int| 0 <= q < views_of_strings(ids@).len() && views_of_strings(ids@)[q] == id;
                                assert(q < before.len());
                                assert(views_of_strings(before)[q] == id);
                            }
                            if views_of_strings(before).contains(id) {
                                let q = choose|q: int| 0 <= q < views_of_strings(before).len() && views_of_strings(before)[q] == id;
                                assert(views_of_strings(ids@)[q] == id);
                            }
                        }
                    }
                    if exists|k: int| 0 <= k < i + 1 && ops[k].id@ == id && kept_at(ops, k, pending, now_ms) {
                        let k = choose|k: int| 0 <= k < i + 1 && ops[k].id@ == id && kept_at(ops, k, pending, now_ms);
                        assert(k < i);
                    }
                }
            }
        }
        i += 1;
    }
    ids
}

/// What a retention pass removed: operation records, and the latest-operation
/// links of queue items that pointed at them.
pub struct JournalRetentionChanges {
    pub removed_operation_ids: Vec<String>,
    pub cleared_latest_operation_item_ids: Vec<String>,
}

impl JournalRetentionChanges {
    /// Whether the pass changed anything.
    pub fn changed(&self) -> (b: bool)
        ensures
            b == (self.removed_operation_ids@.len() > 0 || self.cleared_latest_operation_item_ids@.len()
                > 0),
    {
        self.removed_operation_ids.len() > 0 || self.cleared_latest_operation_item_ids.len() > 0
    }
}

/// A decrypted journal larger than [`MAX_DECRYPTED_JOURNAL_BYTES`] is
/// neither read nor written.
pub fn check_decrypted_size(len: usize) -> (res: Result<(), AppError>)
    ensures
        len <= MAX_DECRYPTED_JOURNAL_BYTES <==> res is Ok,
        res matches Err(e) ==> e.code@ == "journal_too_large"@ && e.summary@ == safe_text_of(
            JOURNAL_TOO_LARGE@,
            MAX_ERROR_SUMMARY_BYTES as nat,
        ),
{
    if len > MAX_DECRYPTED_JOURNAL_BYTES {
        return Err(journal_too_large());
    }
    Ok(())
}

/// An encrypted journal file larger than [`MAX_ENCRYPTED_JOURNAL_BYTES`] is
/// not read.
pub fn check_encrypted_size(len: u64) -> (res: Result<(), AppError>)
    ensures
        len <= MAX_ENCRYPTED_JOURNAL_BYTES <==> res is Ok,
        res matches Err(e) ==> e.code@ == "journal_too_large"@ && e.summary@ == safe_text_of(
            JOURNAL_TOO_LARGE@,
            MAX_ERROR_SUMMARY_BYTES as nat,
        ),
{
    if len > MAX_ENCRYPTED_JOURNAL_BYTES {
        return Err(journal_too_large());
    }
    Ok(())
}

} // verus!
