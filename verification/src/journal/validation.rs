//! Structural checks of the journal before it is trusted or written.
use crate::app_error::{safe_text_of, AppError, MAX_ERROR_SUMMARY_BYTES};
use crate::journal::records::{pruned, queue_has_id, OperationRecord, PersistentJournal};
use crate::journal::{journal_migration_required, JOURNAL_UNSUPPORTED_VERSION};
use crate::models::{
    selection_error, OperationKind, OperationState, QueueItemRecord, QueuePreparation,
    APP_SCHEMA_VERSION,
};
use crate::text::{
    ascii_lower, char_is_control, chars_eq, chars_of, is_unicode_control, str_byte_len, str_eq, trim,
    trimmed_whitespace, utf8_len,
};
use vstd::prelude::*;

verus! {

/// An ASCII hexadecimal digit, either case.
pub open spec fn uuid_hex_char(c: char) -> bool {
    ('0' <= c && c <= '9') || ('a' <= c && c <= 'f') || ('A' <= c && c <= 'F')
}

/// 32 hexadecimal digits in five groups of 8-4-4-4-12, joined by hyphens.
pub open spec fn hyphenated_uuid_text(s: Seq<char>) -> bool {
    &&& s.len() == 36
    &&& forall|i: int|
        0 <= i < 36 ==> if i == 8 || i == 13 || i == 18 || i == 23 {
            #[trigger] s[i] == '-'
        } else {
            uuid_hex_char(s[i])
        }
}

/// The texts `uuid::Uuid::parse_str` accepts: 32 hexadecimal digits; the
/// hyphenated form; the hyphenated form in braces; or the hyphenated form
/// after a `urn:uuid:` prefix in any ASCII case.
pub open spec fn parses_as_uuid(text: Seq<char>) -> bool {
    ||| (text.len() == 32 && forall|i: int| 0 <= i < 32 ==> uuid_hex_char(#[trigger] text[i]))
    ||| hyphenated_uuid_text(text)
    ||| (text.len() == 38 && text[0] == '{' && text[37] == '}' && hyphenated_uuid_text(
        text.subrange(1, 37),
    ))
    ||| (text.len() == 45 && ascii_lower(text.subrange(0, 9)) == "urn:uuid:"@ && hyphenated_uuid_text(
        text.subrange(9, 45),
    ))
}

/// Whether `uuid::Uuid::parse_str` accepts `text` (see [`parses_as_uuid`];
/// every accepted text is ASCII, so its byte and character lengths agree).
#[verifier::external_body]
fn is_uuid_text(text: &str) -> (b: bool)
    ensures
        b == parses_as_uuid(text@),
{
    match uuid::Uuid::parse_str(text) {
        Ok(_) => true,
        Err(_) => false,
    }
}

/// What `semver::Version::parse` gives for a text: its pre-release and build
/// metadata and its rendering, or `None` when it is not a version.
pub uninterp spec fn semver_parts(text: Seq<char>) -> Option<(Seq<char>, Seq<char>, Seq<char>)>;

/// Parses `text` with `semver::Version::parse` and returns the parsed
/// version's `pre.as_str()`, `build.as_str()` and `to_string()`; the contract
/// names the result and does not restate the SemVer grammar.
#[verifier::external_body]
fn parse_semver(text: &str) -> (res: Option<(String, String, String)>)
    ensures
        match res {
            Some((pre, build, shown)) => semver_parts(text@) == Some((pre@, build@, shown@)),
            None => semver_parts(text@) is None,
        },
{
    match semver::Version::parse(text) {
        Ok(v) => Some((v.pre.as_str().to_string(), v.build.as_str().to_string(), v.to_string())),
        Err(_) => None,
    }
}

/// A plain release version in its canonical form, such as `0.6.0`.
pub open spec fn plain_release(text: Seq<char>) -> bool {
    semver_parts(text) matches Some((pre, build, shown)) && pre.len() == 0 && build.len() == 0
        && shown == text
}

fn is_plain_release(text: &str) -> (b: bool)
    ensures
        b == plain_release(text@),
{
    match parse_semver(text) {
        Some((pre, build, shown)) => str_byte_len(pre.as_str()) == 0 && str_byte_len(build.as_str())
            == 0 && str_eq(shown.as_str(), text),
        None => false,
    }
}

/// Whether a latest-operation link may point at a missing operation.
#[derive(Debug, Clone, Copy, PartialEq, Eq, Structural)]
pub enum LatestReferencePolicy {
    AllowDangling,
    RequirePresent,
}

/// The first structural problem found: its code, summary and retry hint.
pub type Problem = Option<(Seq<char>, Seq<char>, bool)>;

pub open spec fn corrupt(summary: Seq<char>) -> Problem {
    Some(("journal_corrupt"@, summary, false))
}

pub open spec fn migration(summary: Seq<char>) -> Problem {
    Some(("journal_migration_required"@, summary, true))
}

/// `res` reports `p`: success when there is no problem, else an error with
/// the problem's code, summary and retry hint.
pub open spec fn reports(res: Result<(), AppError>, p: Problem) -> bool {
    match p {
        None => res is Ok,
        Some((code, summary, retryable)) => res matches Err(e) && e.code@ == code && e.summary@
            == safe_text_of(summary, MAX_ERROR_SUMMARY_BYTES as nat) && e.retryable == retryable
            && e.detail is None,
    }
}

pub open spec fn has_control(s: Seq<char>) -> bool {
    exists|i: int| 0 <= i < s.len() && is_unicode_control(#[trigger] s[i])
}

fn contains_control(s: &str) -> (b: bool)
    ensures
        b == has_control(s@),
{
    let chars = chars_of(s);
    let mut i: usize = 0;
    while i < chars.len()
        invariant
            chars@ == s@,
            i <= chars@.len(),
            forall|k: int| 0 <= k < i ==> !is_unicode_control(#[trigger] chars@[k]),
        decreases chars@.len() - i,
    {
        if char_is_control(chars[i]) {
            return true;
        }
        i += 1;
    }
    false
}

/// Every record carries the current schema version.
pub open spec fn record_versions_current(j: PersistentJournal) -> bool {
    &&& forall|i: int| 0 <= i < j.queue@.len() ==> (#[trigger] j.queue@[i]).schema_version == APP_SCHEMA_VERSION
    &&& forall|k: int|
        0 <= k < j.operations@.len() ==> (#[trigger] j.operations@[k]).schema_version == APP_SCHEMA_VERSION
}

/// Schema versions and record counts.
pub open spec fn schema_problem(j: PersistentJournal) -> Problem {
    if j.schema_version != APP_SCHEMA_VERSION {
        migration("The application journal was created by an unsupported version."@)
    } else if !record_versions_current(j) {
        migration("The application journal contains records from an unsupported version."@)
    } else if j.queue@.len() > 1000 || j.operations@.len() > 1200 {
        corrupt("The application journal exceeded its record limits."@)
    } else {
        None
    }
}

fn check_schema_and_limits(j: &PersistentJournal) -> (res: Result<(), AppError>)
    ensures
        reports(res, schema_problem(*j)),
{
    if j.schema_version != APP_SCHEMA_VERSION {
        return Err(
            AppError::new(
                "journal_migration_required",
                "The application journal was created by an unsupported version.",
            ).retryable(true),
        );
    }
    let mut current = true;
    let mut i: usize = 0;
    while i < j.queue.len()
        invariant
            i <= j.queue@.len(),
            current == forall|h: int| 0 <= h < i ==> (#[trigger] j.queue@[h]).schema_version == APP_SCHEMA_VERSION,
        decreases j.queue@.len() - i,
    {
        if j.queue[i].schema_version != APP_SCHEMA_VERSION {
            current = false;
        }
        i += 1;
    }
    let mut k: usize = 0;
    while k < j.operations.len()
        invariant
            k <= j.operations@.len(),
            current == ((forall|h: int| 0 <= h < j.queue@.len() ==> (#[trigger] j.queue@[h]).schema_version
                == APP_SCHEMA_VERSION) && forall|h: int|
                0 <= h < k ==> (#[trigger] j.operations@[h]).schema_version == APP_SCHEMA_VERSION),
        decreases j.operations@.len() - k,
    {
        if j.operations[k].schema_version != APP_SCHEMA_VERSION {
            current = false;
        }
        k += 1;
    }
    if !current {
        return Err(
            AppError::new(
                "journal_migration_required",
                "The application journal contains records from an unsupported version.",
            ).retryable(true),
        );
    }
    if j.queue.len() > 1000 || j.operations.len() > 1200 {
        return Err(AppError::new("journal_corrupt", "The application journal exceeded its record limits."));
    }
    Ok(())
}

/// A playlist entry's media id that is empty, over 4 KiB or holds control
/// characters.
pub open spec fn bad_media_id(x: Seq<char>) -> bool {
    x.len() == 0 || utf8_len(x) > 4096 || has_control(x)
}

/// The queue item at `i` is malformed or repeats an earlier item's id.
pub open spec fn queue_item_invalid(queue: Seq<QueueItemRecord>, i: int) -> bool {
    let item = queue[i];
    ||| !parses_as_uuid(item.id@)
    ||| exists|h: int| 0 <= h < i && (#[trigger] queue[h]).id@ == item.id@
    ||| (item.source_media_id matches Some(x) && bad_media_id(x@))
    ||| (item.preparation_operation_id matches Some(p) && !parses_as_uuid(p@))
    ||| (item.selection matches Some(s) && selection_error(s) is Some)
}

pub open spec fn queue_problem(j: PersistentJournal) -> Problem {
    if exists|i: int| 0 <= i < j.queue@.len() && #[trigger] queue_item_invalid(j.queue@, i) {
        corrupt("The application journal contained invalid queue records."@)
    } else {
        None
    }
}

fn id_among_first(queue: &Vec<QueueItemRecord>, n: usize, id: &str) -> (b: bool)
    requires
        n <= queue@.len(),
    ensures
        b == exists|h: int| 0 <= h < n && (#[trigger] queue@[h]).id@ == id@,
{
    let mut h: usize = 0;
    while h < n
        invariant
            n <= queue@.len(),
            h <= n,
            forall|g: int| 0 <= g < h ==> (#[trigger] queue@[g]).id@ != id@,
        decreases n - h,
    {
        if str_eq(queue[h].id.as_str(), id) {
            return true;
        }
        h += 1;
    }
    false
}

fn is_bad_media_id(x: &str) -> (b: bool)
    ensures
        b == bad_media_id(x@),
{
    let n = str_byte_len(x);
    n == 0 || n > 4096 || contains_control(x)
}

fn check_queue_records(j: &PersistentJournal) -> (res: Result<(), AppError>)
    ensures
        reports(res, queue_problem(*j)),
{
    let mut i: usize = 0;
    while i < j.queue.len()
        invariant
            i <= j.queue@.len(),
            forall|h: int| 0 <= h < i ==> !#[trigger] queue_item_invalid(j.queue@, h),
        decreases j.queue@.len() - i,
    {
        let item = &j.queue[i];
        let bad = !is_uuid_text(item.id.as_str()) || id_among_first(&j.queue, i, item.id.as_str())
            || match &item.source_media_id {
            Some(x) => is_bad_media_id(x.as_str()),
            None => false,
        } || match &item.preparation_operation_id {
            Some(p) => !is_uuid_text(p.as_str()),
            None => false,
        } || match &item.selection {
            Some(s) => s.validate().is_err(),
            None => false,
        };
        if bad {
            proof {
                assert(queue_item_invalid(j.queue@, i as int));
            }
            return Err(AppError::new("journal_corrupt", "The application journal contained invalid queue records."));
        }
        i += 1;
    }
    Ok(())
}

/// A lower-case hexadecimal digit.
pub open spec fn lower_hex_digit(c: char) -> bool {
    ('0' <= c && c <= '9') || ('a' <= c && c <= 'f')
}

/// The receipt's request id, fingerprint, counts and item ids are well
/// formed.
pub open spec fn receipt_fields_valid(r: crate::models::PlaylistAdmissionReceipt) -> bool {
    &&& r.request_id@.len() > 0
    &&& utf8_len(r.request_id@) <= 4096
    &&& trim(r.request_id@) == r.request_id@
    &&& !has_control(r.request_id@)
    &&& utf8_len(r.fingerprint@) == 64
    &&& forall|i: int| 0 <= i < r.fingerprint@.len() ==> lower_hex_digit(#[trigger] r.fingerprint@[i])
    &&& r.item_ids@.len() <= 1000
    &&& r.skipped_count <= 1000
    &&& forall|m: int| 0 <= m < r.item_ids@.len() ==> parses_as_uuid(#[trigger] r.item_ids@[m]@)
}

/// A playlist receipt sits on a completed inspection of no queue item and is
/// well formed.
pub open spec fn receipt_invalid(o: OperationRecord) -> bool {
    o.playlist_admission matches Some(r) && !(o.kind is Inspection && o.state is Completed
        && o.queue_item_id is None && receipt_fields_valid(r))
}

/// The operation at `k` is malformed, repeats an earlier id, or names a
/// queue item that does not exist.
pub open spec fn operation_refs_invalid(ops: Seq<OperationRecord>, k: int, queue: Seq<QueueItemRecord>) -> bool {
    let o = ops[k];
    ||| !parses_as_uuid(o.id@)
    ||| !parses_as_uuid(o.correlation_id@)
    ||| exists|h: int| 0 <= h < k && (#[trigger] ops[h]).id@ == o.id@
    ||| (o.queue_item_id matches Some(q) && !queue_has_id(queue, q@))
}

/// The first problem among the first `n` operations.
pub open spec fn operations_problem(ops: Seq<OperationRecord>, queue: Seq<QueueItemRecord>, n: int) -> Problem
    decreases n,
{
    if n <= 0 {
        None
    } else {
        let prev = operations_problem(ops, queue, n - 1);
        if prev is Some {
            prev
        } else if operation_refs_invalid(ops, n - 1, queue) {
            corrupt("The application journal contained invalid operation references."@)
        } else if receipt_invalid(ops[n - 1]) {
            corrupt("The application journal contained an invalid playlist admission receipt."@)
        } else {
            None
        }
    }
}

proof fn lemma_operations_problem_sticks(ops: Seq<OperationRecord>, queue: Seq<QueueItemRecord>, a: int, b: int)
    requires
        0 <= a <= b,
        operations_problem(ops, queue, a) is Some,
    ensures
        operations_problem(ops, queue, b) == operations_problem(ops, queue, a),
    decreases b - a,
{
    if b > a {
        lemma_operations_problem_sticks(ops, queue, a, b - 1);
    }
}

fn is_lower_hex_text(s: &str) -> (b: bool)
    ensures
        b == forall|i: int| 0 <= i < s@.len() ==> lower_hex_digit(#[trigger] s@[i]),
{
    let chars = chars_of(s);
    let mut i: usize = 0;
    while i < chars.len()
        invariant
            chars@ == s@,
            i <= chars@.len(),
            forall|k: int| 0 <= k < i ==> lower_hex_digit(#[trigger] chars@[k]),
        decreases chars@.len() - i,
    {
        let c = chars[i];
        if !(('0' <= c && c <= '9') || ('a' <= c && c <= 'f')) {
            return false;
        }
        i += 1;
    }
    true
}

fn receipt_fields_ok(r: &crate::models::PlaylistAdmissionReceipt) -> (b: bool)
    ensures
        b == receipt_fields_valid(*r),
{
    let id_len = str_byte_len(r.request_id.as_str());
    if id_len == 0 || id_len > 4096 {
        return false;
    }
    let chars = chars_of(r.request_id.as_str());
    let trimmed = trimmed_whitespace(chars.as_slice());
    if !chars_eq(trimmed.as_slice(), chars.as_slice()) || contains_control(r.request_id.as_str()) {
        return false;
    }
    if str_byte_len(r.fingerprint.as_str()) != 64 || !is_lower_hex_text(r.fingerprint.as_str()) {
        return false;
    }
    if r.item_ids.len() > 1000 || r.skipped_count > 1000 {
        return false;
    }
    let mut m: usize = 0;
    while m < r.item_ids.len()
        invariant
            m <= r.item_ids@.len(),
            forall|h: int| 0 <= h < m ==> parses_as_uuid(#[trigger] r.item_ids@[h]@),
        decreases r.item_ids@.len() - m,
    {
        if !is_uuid_text(r.item_ids[m].as_str()) {
            return false;
        }
        m += 1;
    }
    true
}

fn is_receipt_invalid(o: &OperationRecord) -> (b: bool)
    ensures
        b == receipt_invalid(*o),
{
    match &o.playlist_admission {
        None => false,
        Some(r) => {
            let placed = match (&o.kind, &o.state, &o.queue_item_id) {
                (OperationKind::Inspection, OperationState::Completed, None) => true,
                _ => false,
            };
            !(placed && receipt_fields_ok(r))
        },
    }
}

fn op_id_among_first(ops: &Vec<OperationRecord>, n: usize, id: &str) -> (b: bool)
    requires
        n <= ops@.len(),
    ensures
        b == exists|h: int| 0 <= h < n && (#[trigger] ops@[h]).id@ == id@,
{
    let mut h: usize = 0;
    while h < n
        invariant
            n <= ops@.len(),
            h <= n,
            forall|g: int| 0 <= g < h ==> (#[trigger] ops@[g]).id@ != id@,
        decreases n - h,
    {
        if str_eq(ops[h].id.as_str(), id) {
            return true;
        }
        h += 1;
    }
    false
}

fn queue_has_item(queue: &Vec<QueueItemRecord>, id: &str) -> (b: bool)
    ensures
        b == queue_has_id(queue@, id@),
{
    let mut i: usize = 0;
    while i < queue.len()
        invariant
            i <= queue@.len(),
            forall|k: int| 0 <= k < i ==> queue@[k].id@ != id@,
        decreases queue@.len() - i,
    {
        if str_eq(queue[i].id.as_str(), id) {
            return true;
        }
        i += 1;
    }
    false
}

fn check_operation_records(j: &PersistentJournal) -> (res: Result<(), AppError>)
    ensures
        reports(res, operations_problem(j.operations@, j.queue@, j.operations@.len() as int)),
{
    let ghost ops = j.operations@;
    let ghost queue = j.queue@;
    let mut k: usize = 0;
    while k < j.operations.len()
        invariant
            ops == j.operations@,
            queue == j.queue@,
            k <= ops.len(),
            operations_problem(ops, queue, k as int) is None,
        decreases ops.len() - k,
    {
        let o = &j.operations[k];
        let refs_bad = !is_uuid_text(o.id.as_str()) || !is_uuid_text(o.correlation_id.as_str())
            || op_id_among_first(&j.operations, k, o.id.as_str()) || match &o.queue_item_id {
            Some(q) => !queue_has_item(&j.queue, q.as_str()),
            None => false,
        };
        proof {
            assert(refs_bad == operation_refs_invalid(ops, k as int, queue));
        }
        if refs_bad {
            proof {
                lemma_operations_problem_sticks(ops, queue, k + 1, ops.len() as int);
            }
            return Err(
                AppError::new("journal_corrupt", "The application journal contained invalid operation references."),
            );
        }
        if is_receipt_invalid(o) {
            proof {
                lemma_operations_problem_sticks(ops, queue, k + 1, ops.len() as int);
            }
            return Err(
                AppError::new(
                    "journal_corrupt",
                    "The application journal contained an invalid playlist admission receipt.",
                ),
            );
        }
        k += 1;
    }
    Ok(())
}

/// The first operation record with this id.
pub open spec fn op_with_id(ops: Seq<OperationRecord>, id: Seq<char>) -> Option<OperationRecord>
    decreases ops.len(),
{
    if ops.len() == 0 {
        None
    } else if ops[0].id@ == id {
        Some(ops[0])
    } else {
        op_with_id(ops.drop_first(), id)
    }
}

fn find_operation<'a>(ops: &'a Vec<OperationRecord>, id: &str) -> (res: Option<&'a OperationRecord>)
    ensures
        match res {
            Some(o) => op_with_id(ops@, id@) == Some(*o),
            None => op_with_id(ops@, id@) is None,
        },
{
    let mut i: usize = 0;
    proof {
        assert(ops@.skip(0) =~= ops@);
    }
    while i < ops.len()
        invariant
            i <= ops@.len(),
            op_with_id(ops@, id@) == op_with_id(ops@.skip(i as int), id@),
        decreases ops@.len() - i,
    {
        proof {
            assert(ops@.skip(i as int)[0] == ops@[i as int]);
            assert(ops@.skip(i as int).drop_first() =~= ops@.skip(i + 1));
        }
        if str_eq(ops[i].id.as_str(), id) {
            return Some(&ops[i]);
        }
        i += 1;
    }
    None
}

/// The pending app update record is well formed and names an app-update
/// operation of the journal.
pub open spec fn pending_problem(j: PersistentJournal) -> Problem {
    match j.pending_app_update {
        None => None,
        Some(p) => if !parses_as_uuid(p.operation_id@) || p.expected_version@.len() == 0 || utf8_len(
            p.expected_version@,
        ) > 128 || !plain_release(p.expected_version@) {
            corrupt("The application journal contained an invalid pending update record."@)
        } else {
            match op_with_id(j.operations@, p.operation_id@) {
                None => corrupt("The pending update operation was missing from the application journal."@),
                Some(o) => if !(o.kind is AppUpdate) {
                    corrupt("The pending update record referenced the wrong operation kind."@)
                } else {
                    None
                },
            }
        },
    }
}

fn check_pending_update(j: &PersistentJournal) -> (res: Result<(), AppError>)
    ensures
        reports(res, pending_problem(*j)),
{
    let pending = match &j.pending_app_update {
        None => return Ok(()),
        Some(p) => p,
    };
    let version_len = str_byte_len(pending.expected_version.as_str());
    if !is_uuid_text(pending.operation_id.as_str()) || version_len == 0 || version_len > 128
        || !is_plain_release(pending.expected_version.as_str()) {
        return Err(
            AppError::new("journal_corrupt", "The application journal contained an invalid pending update record."),
        );
    }
    let operation = match find_operation(&j.operations, pending.operation_id.as_str()) {
        None => {
            return Err(
                AppError::new(
                    "journal_corrupt",
                    "The pending update operation was missing from the application journal.",
                ),
            );
        },
        Some(o) => o,
    };
    match operation.kind {
        OperationKind::AppUpdate => Ok(()),
        _ => Err(
            AppError::new("journal_corrupt", "The pending update record referenced the wrong operation kind."),
        ),
    }
}

pub open spec fn opt_text(o: Option<String>) -> Option<Seq<char>> {
    match o {
        Some(s) => Some(s@),
        None => None,
    }
}

/// The item's preparation link names a pending inspection of this item.
pub open spec fn preparation_problem(ops: Seq<OperationRecord>, item: QueueItemRecord) -> Problem {
    match item.preparation_operation_id {
        None => None,
        Some(id) => match op_with_id(ops, id@) {
            None => corrupt("The application journal contained a missing preparation operation reference."@),
            Some(o) => if item.preparation != Some(QueuePreparation::Pending) || item.latest_operation_id is Some
                || !(o.kind is Inspection) || opt_text(o.queue_item_id) != Some(item.id@) {
                corrupt(
                    "The application journal contained an inconsistent preparation operation reference."@,
                )
            } else {
                None
            },
        },
    }
}

/// The item's latest-operation link names a download of this item, or, where
/// allowed, nothing.
pub open spec fn latest_problem(ops: Seq<OperationRecord>, item: QueueItemRecord, policy: LatestReferencePolicy) -> Problem {
    match item.latest_operation_id {
        None => None,
        Some(id) => match op_with_id(ops, id@) {
            None => if policy is AllowDangling {
                None
            } else {
                corrupt("The application journal contained a missing latest operation reference."@)
            },
            Some(o) => if !(o.kind is Download) || opt_text(o.queue_item_id) != Some(item.id@) {
                corrupt("The application journal contained an inconsistent latest operation reference."@)
            } else {
                None
            },
        },
    }
}

/// The first link problem among the first `n` queue items.
pub open spec fn references_problem(j: PersistentJournal, policy: LatestReferencePolicy, n: int) -> Problem
    decreases n,
{
    if n <= 0 {
        None
    } else {
        let prev = references_problem(j, policy, n - 1);
        let item = j.queue@[n - 1];
        if prev is Some {
            prev
        } else if preparation_problem(j.operations@, item) is Some {
            preparation_problem(j.operations@, item)
        } else {
            latest_problem(j.operations@, item, policy)
        }
    }
}

proof fn lemma_references_problem_sticks(j: PersistentJournal, policy: LatestReferencePolicy, a: int, b: int)
    requires
        0 <= a <= b,
        references_problem(j, policy, a) is Some,
    ensures
        references_problem(j, policy, b) == references_problem(j, policy, a),
    decreases b - a,
{
    if b > a {
        lemma_references_problem_sticks(j, policy, a, b - 1);
    }
}

fn same_queue_item(o: &OperationRecord, item_id: &str) -> (b: bool)
    ensures
        b == (opt_text(o.queue_item_id) == Some(item_id@)),
{
    match &o.queue_item_id {
        Some(q) => str_eq(q.as_str(), item_id),
        None => false,
    }
}

fn check_preparation(j: &PersistentJournal, item: &QueueItemRecord) -> (res: Result<(), AppError>)
    ensures
        reports(res, preparation_problem(j.operations@, *item)),
{
    let id = match &item.preparation_operation_id {
        None => return Ok(()),
        Some(id) => id,
    };
    let operation = match find_operation(&j.operations, id.as_str()) {
        None => {
            return Err(
                AppError::new(
                    "journal_corrupt",
                    "The application journal contained a missing preparation operation reference.",
                ),
            );
        },
        Some(o) => o,
    };
    let pending = match item.preparation {
        Some(QueuePreparation::Pending) => true,
        None => false,
    };
    proof {
        if let Some(x) = item.preparation {
            assert(x == QueuePreparation::Pending);
        }
    }
    let inspection = match operation.kind {
        OperationKind::Inspection => true,
        _ => false,
    };
    if !pending || item.latest_operation_id.is_some() || !inspection || !same_queue_item(
        operation,
        item.id.as_str(),
    ) {
        return Err(
            AppError::new(
                "journal_corrupt",
                "The application journal contained an inconsistent preparation operation reference.",
            ),
        );
    }
    Ok(())
}

fn check_latest(j: &PersistentJournal, item: &QueueItemRecord, policy: LatestReferencePolicy) -> (res: Result<
    (),
    AppError,
>)
    ensures
        reports(res, latest_problem(j.operations@, *item, policy)),
{
    let id = match &item.latest_operation_id {
        None => return Ok(()),
        Some(id) => id,
    };
    let operation = match find_operation(&j.operations, id.as_str()) {
        None => {
            return match policy {
                LatestReferencePolicy::AllowDangling => Ok(()),
                LatestReferencePolicy::RequirePresent => Err(
                    AppError::new(
                        "journal_corrupt",
                        "The application journal contained a missing latest operation reference.",
                    ),
                ),
            };
        },
        Some(o) => o,
    };
    let download = match operation.kind {
        OperationKind::Download => true,
        _ => false,
    };
    if !download || !same_queue_item(operation, item.id.as_str()) {
        return Err(
            AppError::new(
                "journal_corrupt",
                "The application journal contained an inconsistent latest operation reference.",
            ),
        );
    }
    Ok(())
}

fn check_queue_operation_references(j: &PersistentJournal, policy: LatestReferencePolicy) -> (res: Result<
    (),
    AppError,
>)
    ensures
        reports(res, references_problem(*j, policy, j.queue@.len() as int)),
{
    let mut i: usize = 0;
    while i < j.queue.len()
        invariant
            i <= j.queue@.len(),
            references_problem(*j, policy, i as int) is None,
        decreases j.queue@.len() - i,
    {
        let prep = check_preparation(j, &j.queue[i]);
        if prep.is_err() {
            proof {
                lemma_references_problem_sticks(*j, policy, i + 1, j.queue@.len() as int);
            }
            return prep;
        }
        let latest = check_latest(j, &j.queue[i], policy);
        if latest.is_err() {
            proof {
                lemma_references_problem_sticks(*j, policy, i + 1, j.queue@.len() as int);
            }
            return latest;
        }
        i += 1;
    }
    Ok(())
}

/// The first structural problem of a journal, checked in this order: schema
/// versions and record counts, queue records, operation records, the pending
/// app update, then each queue item's links.
pub open spec fn structure_problem(j: PersistentJournal, policy: LatestReferencePolicy) -> Problem {
    if schema_problem(j) is Some {
        schema_problem(j)
    } else if queue_problem(j) is Some {
        queue_problem(j)
    } else if operations_problem(j.operations@, j.queue@, j.operations@.len() as int) is Some {
        operations_problem(j.operations@, j.queue@, j.operations@.len() as int)
    } else if pending_problem(j) is Some {
        pending_problem(j)
    } else {
        references_problem(j, policy, j.queue@.len() as int)
    }
}

/// Checks the journal's structure and reports its first problem.
pub fn validate_journal_structure(journal: &PersistentJournal, policy: LatestReferencePolicy) -> (res: Result<
    (),
    AppError,
>)
    ensures
        reports(res, structure_problem(*journal, policy)),
{
    check_schema_and_limits(journal)?;
    check_queue_records(journal)?;
    check_operation_records(journal)?;
    check_pending_update(journal)?;
    check_queue_operation_references(journal, policy)
}

/// Every version is the current schema version.
pub open spec fn all_current(vs: Seq<u32>) -> bool {
    forall|i: int| 0 <= i < vs.len() ==> vs[i] == APP_SCHEMA_VERSION
}

/// The problem with a journal's serialized schema headers: `header` is the
/// top-level `schemaVersion` (or `None` when the document does not parse
/// that far) and `records` the versions of its queue and operation records
/// (or `None` when they do not parse).
pub open spec fn serialized_schema_problem(header: Option<u32>, records: Option<Seq<u32>>) -> Problem {
    match header {
        None => corrupt("The application journal is corrupt."@),
        Some(v) => if v != APP_SCHEMA_VERSION {
            migration(JOURNAL_UNSUPPORTED_VERSION@)
        } else {
            match records {
                None => corrupt("The application journal is corrupt."@),
                Some(vs) => if !all_current(vs) {
                    migration(JOURNAL_UNSUPPORTED_VERSION@)
                } else {
                    None
                },
            }
        },
    }
}

/// Checks the schema versions read from a serialized journal before its
/// records are decoded.
pub fn check_serialized_schema(header: Option<u32>, records: Option<Vec<u32>>) -> (res: Result<(), AppError>)
    ensures
        reports(
            res,
            serialized_schema_problem(
                header,
                match records {
                    Some(v) => Some(v@),
                    None => None,
                },
            ),
        ),
{
    let version = match header {
        None => return Err(AppError::new("journal_corrupt", "The application journal is corrupt.")),
        Some(v) => v,
    };
    if version != APP_SCHEMA_VERSION {
        return Err(journal_migration_required());
    }
    let versions = match &records {
        None => return Err(AppError::new("journal_corrupt", "The application journal is corrupt.")),
        Some(vs) => vs,
    };
    let mut i: usize = 0;
    while i < versions.len()
        invariant
            i <= versions@.len(),
            header == Some(APP_SCHEMA_VERSION),
            records == Some(*versions),
            forall|k: int| 0 <= k < i ==> versions@[k] == APP_SCHEMA_VERSION,
        decreases versions@.len() - i,
    {
        if versions[i] != APP_SCHEMA_VERSION {
            proof {
                assert(!all_current(versions@));
            }
            return Err(journal_migration_required());
        }
        i += 1;
    }
    Ok(())
}

/// A journal checked and ready to be written.
#[derive(Debug)]
pub struct PreparedJournal {
    pub journal: PersistentJournal,
}

/// `new` is `old` with every inspection payload dropped.
pub open spec fn payloads_dropped(old: PersistentJournal, new: PersistentJournal) -> bool {
    &&& new.schema_version == old.schema_version
    &&& new.revision == old.revision
    &&& new.queue == old.queue
    &&& new.pending_app_update == old.pending_app_update
    &&& new.operations@.len() == old.operations@.len()
    &&& forall|k: int|
        0 <= k < old.operations@.len() ==> #[trigger] new.operations@[k] == (OperationRecord {
            has_inspection_result: false,
            ..old.operations@[k]
        })
}

impl PersistentJournal {
    fn drop_inspection_payloads(&mut self)
        ensures
            payloads_dropped(*old(self), *final(self)),
    {
        let ghost j0 = *self;
        let mut ops: Vec<OperationRecord> = Vec::new();
        std::mem::swap(&mut ops, &mut self.operations);
        let ghost o0 = ops@;
        let mut out: Vec<OperationRecord> = Vec::new();
        let ghost mut m: int = 0;
        proof {
            assert(o0.skip(0) =~= o0);
        }
        while ops.len() > 0
            invariant
                o0 == j0.operations@,
                0 <= m <= o0.len(),
                ops@ == o0.skip(m),
                out@.len() == m,
                forall|k: int| 0 <= k < m ==> #[trigger] out@[k] == (OperationRecord {
                    has_inspection_result: false,
                    ..o0[k]
                }),
                self.queue == j0.queue,
                self.schema_version == j0.schema_version,
                self.revision == j0.revision,
                self.pending_app_update == j0.pending_app_update,
            decreases ops@.len(),
        {
            let o = ops.remove(0);
            proof {
                assert(o == o0[m]);
            }
            let ghost before = out@;
            out.push(OperationRecord { has_inspection_result: false, ..o });
            proof {
                assert forall|k: int| 0 <= k < m + 1 implies #[trigger] out@[k] == (OperationRecord {
                    has_inspection_result: false,
                    ..o0[k]
                }) by {
                    if k < m {
                        assert(out@[k] == before[k]);
                    }
                }
                m = m + 1;
                assert(ops@ =~= o0.skip(m));
            }
        }
        self.operations = out;
    }

    /// Drops transient inspection payloads, runs retention, and checks the
    /// result with every latest-operation link required to resolve.
    pub fn prepare_for_persistence(self, now_ms: u64) -> (res: Result<PreparedJournal, AppError>)
        ensures
            exists|stripped: PersistentJournal, kept: PersistentJournal|
                {
                    &&& payloads_dropped(self, stripped)
                    &&& pruned(stripped, kept, now_ms)
                    &&& match res {
                        Ok(p) => p.journal == kept && structure_problem(
                            kept,
                            LatestReferencePolicy::RequirePresent,
                        ) is None,
                        Err(e) => reports(Err(e), structure_problem(kept, LatestReferencePolicy::RequirePresent)),
                    }
                },
    {
        let mut journal = self;
        journal.drop_inspection_payloads();
        let ghost stripped = journal;
        journal.prune_and_repair_latest_references(now_ms);
        let ghost kept = journal;
        match validate_journal_structure(&journal, LatestReferencePolicy::RequirePresent) {
            Ok(()) => Ok(PreparedJournal { journal }),
            Err(e) => Err(e),
        }
    }
}

/// Whether a prepared journal is written: it must pass the structural check
/// with every latest-operation link resolved, and it is written only when its
/// revision is newer than the last one written.
pub fn check_before_write(journal: &PersistentJournal, persisted_revision: u64) -> (res: Result<
    bool,
    AppError,
>)
    ensures
        match res {
            Ok(write) => structure_problem(*journal, LatestReferencePolicy::RequirePresent) is None
                && write == (journal.revision > persisted_revision),
            Err(e) => structure_problem(*journal, LatestReferencePolicy::RequirePresent) is Some
                && reports(Err(e), structure_problem(*journal, LatestReferencePolicy::RequirePresent)),
        },
{
    match validate_journal_structure(journal, LatestReferencePolicy::RequirePresent) {
        Ok(()) => Ok(journal.revision > persisted_revision),
        Err(e) => Err(e),
    }
}

} // verus!
