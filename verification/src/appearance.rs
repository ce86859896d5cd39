//! The saved appearance preference: its file format, and what reading it
//! yields for every outcome of the read.
use crate::app_error::{error_is_bounded, safe_text_of, AppError, MAX_ERROR_SUMMARY_BYTES};
use crate::journal::records::OperationRecord;
use crate::models::QueueItemRecord;
use crate::text::{chars_of, str_eq};
use vstd::prelude::*;

verus! {

/// The colour theme of the interface.
#[derive(Clone, Copy, Debug, PartialEq, Eq, Structural)]
pub enum UiTheme {
    Light,
    Dark,
    System,
}

impl Default for UiTheme {
    fn default() -> (t: UiTheme)
        ensures
            t == UiTheme::Light,
    {
        UiTheme::Light
    }
}

/// Largest preference file accepted, in bytes.
pub const MAX_PREFERENCE_BYTES: usize = 1024;

pub const PREFERENCE_FILE_NAME: &'static str = "appearance.json";

pub const UNREADABLE_PREFERENCE: &'static str = "Could not read your appearance preference.";

pub const INVALID_PREFERENCE: &'static str =
    "The saved appearance preference is invalid. Choose a theme to reset it.";

/// What reading the preference file gave: no file, a failure to open or read
/// it, or its bytes (at most one byte past the limit is read).
pub enum PreferenceRead {
    Missing,
    Failed,
    Bytes(Vec<u8>),
}

/// The JSON string value that a document holds, as `serde_json` reads it into
/// a `String`; `None` when the bytes are not a JSON string.
pub uninterp spec fn json_string_value(bytes: Seq<u8>) -> Option<Seq<char>>;

/// The bytes of an ASCII text.
pub open spec fn ascii_bytes(s: Seq<char>) -> Seq<u8> {
    s.map_values(|c: char| c as u8)
}

pub open spec fn is_lower_ascii_word(s: Seq<char>) -> bool {
    forall|i: int| 0 <= i < s.len() ==> 'a' <= #[trigger] s[i] <= 'z'
}

/// Parses a JSON document that holds one string (`serde_json::from_slice`
/// into a `String`). A document that is exactly a quoted word of lower-case
/// ASCII letters holds that word, as JSON defines a string.
#[verifier::external_body]
fn parse_json_string(bytes: &[u8]) -> (res: Option<String>)
    ensures
        json_string_value(bytes@) == match res {
            Some(s) => Some(s@),
            None => None,
        },
        forall|w: Seq<char>|
            is_lower_ascii_word(w) && bytes@ == #[trigger] ascii_bytes(seq!['"'] + w + seq!['"'])
                ==> res is Some && res->0@ == w,
{
    serde_json::from_slice::<String>(bytes).ok()
}

/// The name a theme is saved under.
pub open spec fn theme_name(t: UiTheme) -> Seq<char> {
    match t {
        UiTheme::Light => "light"@,
        UiTheme::Dark => "dark"@,
        UiTheme::System => "system"@,
    }
}

/// The theme saved under a name, if any.
pub open spec fn theme_named(name: Seq<char>) -> Option<UiTheme> {
    if name == "light"@ {
        Some(UiTheme::Light)
    } else if name == "dark"@ {
        Some(UiTheme::Dark)
    } else if name == "system"@ {
        Some(UiTheme::System)
    } else {
        None
    }
}

/// The contents of the preference file for a theme: its name as a JSON string.
pub open spec fn theme_document(t: UiTheme) -> Seq<u8> {
    ascii_bytes(seq!['"'] + theme_name(t) + seq!['"'])
}

/// The outcome of reading the preference file: a missing file means the
/// default theme; a failed read (retryable), an oversized file and anything
/// but a known theme name are errors, given as code, summary and retry hint.
pub open spec fn theme_read_result(read: PreferenceRead) -> Result<UiTheme, (Seq<char>, Seq<char>, bool)> {
    match read {
        PreferenceRead::Missing => Ok(UiTheme::Light),
        PreferenceRead::Failed => Err(("internal_error"@, UNREADABLE_PREFERENCE@, true)),
        PreferenceRead::Bytes(b) => if b@.len() > MAX_PREFERENCE_BYTES {
            Err(("invalid_appearance"@, INVALID_PREFERENCE@, false))
        } else {
            match json_string_value(b@) {
                Some(name) => match theme_named(name) {
                    Some(t) => Ok(t),
                    None => Err(("invalid_appearance"@, INVALID_PREFERENCE@, false)),
                },
                None => Err(("invalid_appearance"@, INVALID_PREFERENCE@, false)),
            }
        },
    }
}

fn theme_of_name(name: &str) -> (t: Option<UiTheme>)
    ensures
        t == theme_named(name@),
{
    if str_eq(name, "light") {
        Some(UiTheme::Light)
    } else if str_eq(name, "dark") {
        Some(UiTheme::Dark)
    } else if str_eq(name, "system") {
        Some(UiTheme::System)
    } else {
        None
    }
}

/// Reads the theme from what reading the preference file gave.
pub fn parse_theme_preference(read: PreferenceRead) -> (res: Result<UiTheme, AppError>)
    ensures
        match theme_read_result(read) {
            Ok(t) => res == Ok::<UiTheme, AppError>(t),
            Err((code, summary, retryable)) => res matches Err(e) && e.code@ == code && e.summary@
                == safe_text_of(summary, MAX_ERROR_SUMMARY_BYTES as nat) && e.detail is None
                && e.retryable == retryable && error_is_bounded(e),
        },
        forall|t: UiTheme|
            (read matches PreferenceRead::Bytes(b) && b@ == #[trigger] theme_document(t)) ==> res
                == Ok::<UiTheme, AppError>(t),
{
    proof {
        reveal_strlit("light");
        reveal_strlit("dark");
        reveal_strlit("system");
        assert forall|t: UiTheme| #[trigger] is_lower_ascii_word(theme_name(t)) by {}
        assert forall|t: UiTheme| #[trigger] theme_document(t).len() <= MAX_PREFERENCE_BYTES by {}
    }
    match read {
        PreferenceRead::Missing => Ok(UiTheme::Light),
        PreferenceRead::Failed => Err(AppError::internal(UNREADABLE_PREFERENCE)),
        PreferenceRead::Bytes(bytes) => {
            if bytes.len() > MAX_PREFERENCE_BYTES {
                return Err(AppError::new("invalid_appearance", INVALID_PREFERENCE));
            }
            match parse_json_string(bytes.as_slice()) {
                Some(name) => match theme_of_name(name.as_str()) {
                    Some(t) => Ok(t),
                    None => Err(AppError::new("invalid_appearance", INVALID_PREFERENCE)),
                },
                None => Err(AppError::new("invalid_appearance", INVALID_PREFERENCE)),
            }
        },
    }
}

fn quoted_ascii_bytes(word: &str) -> (b: Vec<u8>)
    requires
        is_lower_ascii_word(word@),
    ensures
        b@ == ascii_bytes(seq!['"'] + word@ + seq!['"']),
{
    let chars = chars_of(word);
    let mut out: Vec<u8> = Vec::new();
    out.push(34u8);
    let mut i: usize = 0;
    while i < chars.len()
        invariant
            i <= chars@.len(),
            chars@ == word@,
            is_lower_ascii_word(word@),
            out@ == ascii_bytes(seq!['"'] + word@.take(i as int)),
        decreases chars@.len() - i,
    {
        let c = chars[i];
        proof {
            assert('a' <= word@[i as int] <= 'z');
        }
        out.push(c as u8);
        proof {
            assert(seq!['"'] + word@.take(i + 1) =~= (seq!['"'] + word@.take(i as int)).push(c));
        }
        i += 1;
    }
    out.push(34u8);
    proof {
        assert(word@.take(i as int) =~= word@);
        assert(seq!['"'] + word@ + seq!['"'] =~= (seq!['"'] + word@).push('"'));
    }
    out
}

/// The bytes written to the preference file for a theme.
pub fn theme_preference_bytes(theme: UiTheme) -> (b: Vec<u8>)
    ensures
        b@ == theme_document(theme),
{
    proof {
        reveal_strlit("light");
        reveal_strlit("dark");
        reveal_strlit("system");
    }
    match theme {
        UiTheme::Light => quoted_ascii_bytes("light"),
        UiTheme::Dark => quoted_ascii_bytes("dark"),
        UiTheme::System => quoted_ascii_bytes("system"),
    }
}

/// The first queue item with this id.
pub open spec fn item_with_id(queue: Seq<QueueItemRecord>, id: Seq<char>) -> Option<QueueItemRecord>
    decreases queue.len(),
{
    if queue.len() == 0 {
        None
    } else if queue[0].id@ == id {
        Some(queue[0])
    } else {
        item_with_id(queue.drop_first(), id)
    }
}

/// The operation is the item's latest one, belongs to it and completed.
pub open spec fn completed_output_of(o: OperationRecord, item: QueueItemRecord) -> bool {
    &&& (item.latest_operation_id matches Some(l) && l@ == o.id@)
    &&& (o.queue_item_id matches Some(q) && q@ == item.id@)
    &&& o.state is Completed
}

/// The first operation that is the item's completed latest one.
pub open spec fn completed_output(ops: Seq<OperationRecord>, item: QueueItemRecord) -> Option<OperationRecord>
    decreases ops.len(),
{
    if ops.len() == 0 {
        None
    } else if completed_output_of(ops[0], item) {
        Some(ops[0])
    } else {
        completed_output(ops.drop_first(), item)
    }
}

/// The recorded output of a queue item, or the error that explains why
/// there is none: (code, summary).
pub open spec fn published_file_result(
    queue: Seq<QueueItemRecord>,
    ops: Seq<OperationRecord>,
    item_id: Seq<char>,
) -> Result<Seq<char>, (Seq<char>, Seq<char>)> {
    match item_with_id(queue, item_id) {
        None => Err(("item_missing"@, "This download is no longer in the queue."@)),
        Some(item) => match completed_output(ops, item) {
            None => Err(("output_unavailable"@, "This download has no completed output to show."@)),
            Some(o) => match o.published_output_path {
                None => Err(("output_unavailable"@, "This download has no recorded output file."@)),
                Some(p) => Ok(p@),
            },
        },
    }
}

fn find_item<'a>(queue: &'a Vec<QueueItemRecord>, id: &str) -> (res: Option<&'a QueueItemRecord>)
    ensures
        match res {
            Some(q) => item_with_id(queue@, id@) == Some(*q),
            None => item_with_id(queue@, id@) is None,
        },
{
    let mut i: usize = 0;
    proof {
        assert(queue@.skip(0) =~= queue@);
    }
    while i < queue.len()
        invariant
            i <= queue@.len(),
            item_with_id(queue@, id@) == item_with_id(queue@.skip(i as int), id@),
        decreases queue@.len() - i,
    {
        proof {
            assert(queue@.skip(i as int)[0] == queue@[i as int]);
            assert(queue@.skip(i as int).drop_first() =~= queue@.skip(i + 1));
        }
        if str_eq(queue[i].id.as_str(), id) {
            return Some(&queue[i]);
        }
        i += 1;
    }
    None
}

fn is_completed_output_of(o: &OperationRecord, item: &QueueItemRecord) -> (b: bool)
    ensures
        b == completed_output_of(*o, *item),
{
    let latest = match &item.latest_operation_id {
        Some(l) => str_eq(l.as_str(), o.id.as_str()),
        None => false,
    };
    let owned_by = match &o.queue_item_id {
        Some(q) => str_eq(q.as_str(), item.id.as_str()),
        None => false,
    };
    let completed = match o.state {
        crate::models::OperationState::Completed => true,
        _ => false,
    };
    latest && owned_by && completed
}

fn find_completed_output<'a>(ops: &'a Vec<OperationRecord>, item: &QueueItemRecord) -> (res: Option<
    &'a OperationRecord,
>)
    ensures
        match res {
            Some(o) => completed_output(ops@, *item) == Some(*o),
            None => completed_output(ops@, *item) is None,
        },
{
    let mut i: usize = 0;
    proof {
        assert(ops@.skip(0) =~= ops@);
    }
    while i < ops.len()
        invariant
            i <= ops@.len(),
            completed_output(ops@, *item) == completed_output(ops@.skip(i as int), *item),
        decreases ops@.len() - i,
    {
        proof {
            assert(ops@.skip(i as int)[0] == ops@[i as int]);
            assert(ops@.skip(i as int).drop_first() =~= ops@.skip(i + 1));
        }
        if is_completed_output_of(&ops[i], item) {
            return Some(&ops[i]);
        }
        i += 1;
    }
    None
}

/// The recorded output path of a queue item's completed latest download, or
/// the error that explains why there is none. The caller still confirms that
/// the path is an absolute path to an existing file before showing it.
pub fn published_file(queue: &Vec<QueueItemRecord>, operations: &Vec<OperationRecord>, item_id: &str) -> (res:
    Result<String, AppError>)
    ensures
        match published_file_result(queue@, operations@, item_id@) {
            Ok(p) => res matches Ok(r) && r@ == p,
            Err((code, summary)) => res matches Err(e) && e.code@ == code && e.summary@ == safe_text_of(
                summary,
                MAX_ERROR_SUMMARY_BYTES as nat,
            ) && e.detail is None && !e.retryable,
        },
{
    let item = match find_item(queue, item_id) {
        None => return Err(AppError::new("item_missing", "This download is no longer in the queue.")),
        Some(item) => item,
    };
    let operation = match find_completed_output(operations, item) {
        None => return Err(AppError::new("output_unavailable", "This download has no completed output to show.")),
        Some(o) => o,
    };
    match &operation.published_output_path {
        None => Err(AppError::new("output_unavailable", "This download has no recorded output file.")),
        Some(p) => Ok(p.clone()),
    }
}

/// The error for a recorded output that is no longer an absolute path to an
/// existing file.
pub fn output_missing() -> (e: AppError)
    ensures
        e.code@ == "output_missing"@,
        e.summary@ == safe_text_of("The downloaded file was moved or removed."@, MAX_ERROR_SUMMARY_BYTES as nat),
        e.detail is None,
        !e.retryable,
{
    AppError::new("output_missing", "The downloaded file was moved or removed.")
}

proof fn lemma_item_with_id_found(queue: Seq<QueueItemRecord>, id: Seq<char>)
    ensures
        item_with_id(queue, id) matches Some(item) ==> exists|i: int|
            0 <= i < queue.len() && queue[i] == item && item.id@ == id,
    decreases queue.len(),
{
    if queue.len() > 0 && queue[0].id@ != id {
        lemma_item_with_id_found(queue.drop_first(), id);
        if let Some(item) = item_with_id(queue, id) {
            let i = choose|i: int| 0 <= i < queue.drop_first().len() && queue.drop_first()[i] == item && item.id@ == id;
            assert(queue[i + 1] == item);
        }
    }
}

proof fn lemma_completed_output_found(ops: Seq<OperationRecord>, item: QueueItemRecord)
    ensures
        completed_output(ops, item) matches Some(o) ==> exists|k: int|
            0 <= k < ops.len() && ops[k] == o && completed_output_of(o, item),
    decreases ops.len(),
{
    if ops.len() > 0 && !completed_output_of(ops[0], item) {
        lemma_completed_output_found(ops.drop_first(), item);
        if let Some(o) = completed_output(ops, item) {
            let k = choose|k: int| 0 <= k < ops.drop_first().len() && ops.drop_first()[k] == o && completed_output_of(o, item);
            assert(ops[k + 1] == o);
        }
    }
}

/// The file shown for a queue item is the published output of the item's
/// latest download: when the lookup succeeds with a path, the queue holds an
/// item with that id whose latest operation id names an operation that
/// belongs to the item, completed, and recorded exactly that path. An older
/// download of the same item is never shown in its place.
pub proof fn law_shown_file_is_the_latest_downloads_output(
    queue: Seq<QueueItemRecord>,
    ops: Seq<OperationRecord>,
    item_id: Seq<char>,
)
    ensures
        published_file_result(queue, ops, item_id) matches Ok(p) ==> exists|i: int, k: int|
            {
                &&& 0 <= i < queue.len()
                &&& queue[i].id@ == item_id
                &&& 0 <= k < ops.len()
                &&& queue[i].latest_operation_id matches Some(l) && l@ == ops[k].id@
                &&& ops[k].queue_item_id matches Some(q) && q@ == item_id
                &&& ops[k].state is Completed
                &&& ops[k].published_output_path matches Some(x) && x@ == p
            },
{
    lemma_item_with_id_found(queue, item_id);
    if let Some(item) = item_with_id(queue, item_id) {
        lemma_completed_output_found(ops, item);
        if let Some(o) = completed_output(ops, item) {
            let i = choose|i: int| 0 <= i < queue.len() && queue[i] == item && item.id@ == item_id;
            let k = choose|k: int| 0 <= k < ops.len() && ops[k] == o && completed_output_of(o, item);
            assert(queue[i] == item && ops[k] == o);
        }
    }
}

proof fn lemma_item_with_id_complete(queue: Seq<QueueItemRecord>, id: Seq<char>)
    ensures
        item_with_id(queue, id) is None ==> forall|i: int| 0 <= i < queue.len() ==> (#[trigger] queue[i]).id@ != id,
    decreases queue.len(),
{
    if queue.len() > 0 && queue[0].id@ != id {
        lemma_item_with_id_complete(queue.drop_first(), id);
        if item_with_id(queue, id) is None {
            assert forall|i: int| 0 <= i < queue.len() implies (#[trigger] queue[i]).id@ != id by {
                if i > 0 {
                    assert(queue[i] == queue.drop_first()[i - 1]);
                }
            }
        }
    }
}

proof fn lemma_completed_output_complete(ops: Seq<OperationRecord>, item: QueueItemRecord)
    ensures
        completed_output(ops, item) is None ==> forall|k: int|
            0 <= k < ops.len() ==> !completed_output_of(#[trigger] ops[k], item),
    decreases ops.len(),
{
    if ops.len() > 0 && !completed_output_of(ops[0], item) {
        lemma_completed_output_complete(ops.drop_first(), item);
        if completed_output(ops, item) is None {
            assert forall|k: int| 0 <= k < ops.len() implies !completed_output_of(#[trigger] ops[k], item) by {
                if k > 0 {
                    assert(ops[k] == ops.drop_first()[k - 1]);
                }
            }
        }
    }
}

/// A lookup reports a missing item only when no queue item has the id, and
/// reports that there is no completed output only when no operation is the
/// item's latest one, belongs to it and completed.
pub proof fn law_missing_output_is_reported_only_when_missing(
    queue: Seq<QueueItemRecord>,
    ops: Seq<OperationRecord>,
    item_id: Seq<char>,
)
    ensures
        published_file_result(queue, ops, item_id) matches Err((code, _)) && code == "item_missing"@
            ==> forall|i: int| 0 <= i < queue.len() ==> (#[trigger] queue[i]).id@ != item_id,
        published_file_result(queue, ops, item_id) == Err::<Seq<char>, (Seq<char>, Seq<char>)>(
            ("output_unavailable"@, "This download has no completed output to show."@),
        ) ==> exists|i: int|
            {
                &&& 0 <= i < queue.len()
                &&& queue[i].id@ == item_id
                &&& forall|k: int|
                    0 <= k < ops.len() ==> !({
                        &&& queue[i].latest_operation_id matches Some(l) && l@ == (#[trigger] ops[k]).id@
                        &&& ops[k].queue_item_id matches Some(q) && q@ == item_id
                        &&& ops[k].state is Completed
                    })
            },
{
    reveal_strlit("item_missing");
    reveal_strlit("output_unavailable");
    assert("item_missing"@.len() != "output_unavailable"@.len());
    reveal_strlit("This download has no completed output to show.");
    reveal_strlit("This download has no recorded output file.");
    assert("This download has no completed output to show."@.len()
        != "This download has no recorded output file."@.len());
    lemma_item_with_id_complete(queue, item_id);
    lemma_item_with_id_found(queue, item_id);
    if let Some(item) = item_with_id(queue, item_id) {
        lemma_completed_output_complete(ops, item);
        let i = choose|i: int| 0 <= i < queue.len() && queue[i] == item && item.id@ == item_id;
        assert(queue[i] == item);
    }
}

} // verus!
