//! The rotating diagnostics log: which files it keeps, when it rotates, when
//! a file has expired, and what a logged message may hold.
use crate::downloader::command_args::{join_windows_path, windows_join};
use crate::text::{
    concat3, decimal, lemma_truncated_utf8_bound, string_from_chars, truncate_utf8, truncated_utf8,
    u64_to_string, utf8_len, TRUNCATION_SUFFIX,
};
pub use crate::redaction::redact;
use crate::redaction::redacted;
use vstd::prelude::*;

verus! {

/// Number of log files kept: the current one and its rotated predecessors.
pub const MAX_LOG_FILES: usize = 5;

/// Size at which the current log file is rotated.
pub const MAX_LOG_BYTES: u64 = 2097152;

/// Largest message written to the log, in UTF-8 bytes.
pub const MAX_DIAGNOSTIC_MESSAGE_BYTES: usize = 65536;

/// Age after which a log file is deleted: seven days.
pub const RETENTION_SECS: u64 = 604800;

pub const LOG_PREFIX: &'static str = "diagnostics";

/// A message as it is written to the log: redacted, then cut to the limit.
pub open spec fn bounded_message(message: Seq<char>) -> Seq<char> {
    truncated_utf8(redacted(message), MAX_DIAGNOSTIC_MESSAGE_BYTES as nat)
}

/// Redacts a message and bounds it to [`MAX_DIAGNOSTIC_MESSAGE_BYTES`] bytes,
/// cutting only at character boundaries.
pub fn redact_and_bound(message: &str) -> (res: String)
    ensures
        res@ == bounded_message(message@),
        utf8_len(res@) <= MAX_DIAGNOSTIC_MESSAGE_BYTES,
{
    let r = redact(message);
    truncate_utf8(r.as_str(), MAX_DIAGNOSTIC_MESSAGE_BYTES)
}

/// A logged message never exceeds the limit, and one that had to be cut ends
/// with the truncation marker.
pub proof fn law_logged_messages_are_bounded(message: Seq<char>)
    ensures
        utf8_len(bounded_message(message)) <= MAX_DIAGNOSTIC_MESSAGE_BYTES,
        utf8_len(redacted(message)) > MAX_DIAGNOSTIC_MESSAGE_BYTES ==> bounded_message(message).skip(
            bounded_message(message).len() - TRUNCATION_SUFFIX@.len(),
        ) == TRUNCATION_SUFFIX@,
        utf8_len(redacted(message)) <= MAX_DIAGNOSTIC_MESSAGE_BYTES ==> bounded_message(message)
            == redacted(message),
{
    lemma_truncated_utf8_bound(redacted(message), MAX_DIAGNOSTIC_MESSAGE_BYTES as nat);
}

/// File name of the log file at `index`: the current file is
/// `diagnostics.jsonl`, older ones `diagnostics.<index>.jsonl`.
pub open spec fn log_file_name(index: nat) -> Seq<char> {
    if index == 0 {
        LOG_PREFIX@ + ".jsonl"@
    } else {
        LOG_PREFIX@ + "."@ + decimal(index) + ".jsonl"@
    }
}

fn log_file_name_of(index: usize) -> (res: String)
    ensures
        res@ == log_file_name(index as nat),
{
    if index == 0 {
        crate::text::concat2(LOG_PREFIX, ".jsonl")
    } else {
        let n = u64_to_string(index as u64);
        let head = concat3(LOG_PREFIX, ".", n.as_str());
        crate::text::concat2(head.as_str(), ".jsonl")
    }
}

/// Whether appending `incoming_bytes` to the current log, whose size is
/// `current_len` when it could be read, calls for a rotation first. A size
/// that cannot be read never rotates.
pub open spec fn rotation_needed(current_len: Option<u64>, incoming_bytes: usize) -> bool {
    match current_len {
        Some(len) => len + incoming_bytes > MAX_LOG_BYTES,
        None => false,
    }
}

pub fn needs_rotation(current_len: Option<u64>, incoming_bytes: usize) -> (b: bool)
    ensures
        b == rotation_needed(current_len, incoming_bytes),
{
    match current_len {
        Some(len) => len.saturating_add(incoming_bytes as u64) > MAX_LOG_BYTES,
        None => false,
    }
}

/// Whether a log file whose age is `age_secs` seconds and `age_nanos`
/// nanoseconds is past the retention period.
pub fn retention_expired(age_secs: u64, age_nanos: u32) -> (b: bool)
    ensures
        b == (age_secs > RETENTION_SECS || (age_secs == RETENTION_SECS && age_nanos > 0)),
{
    age_secs > RETENTION_SECS || (age_secs == RETENTION_SECS && age_nanos > 0)
}

/// The diagnostics log kept in one folder.
pub struct Diagnostics {
    directory: String,
}

impl Diagnostics {
    /// A log kept in `directory`.
    pub fn new(directory: String) -> (d: Diagnostics)
        ensures
            d.directory_view() == directory@,
    {
        Diagnostics { directory }
    }

    pub closed spec fn directory_view(&self) -> Seq<char> {
        self.directory@
    }

    /// The folder of the log.
    pub fn directory(&self) -> (s: &str)
        ensures
            s@ == self.directory_view(),
    {
        self.directory.as_str()
    }

    /// Path of the log file at `index` (zero is the current file).
    pub fn log_path(&self, index: usize) -> (p: String)
        ensures
            p@ == windows_join(self.directory_view(), log_file_name(index as nat)),
    {
        let name = log_file_name_of(index);
        let chars = join_windows_path(self.directory.as_str(), name.as_str());
        string_from_chars(chars.as_slice())
    }

    /// The order in which log files are exported: oldest first, ending with
    /// the current file.
    pub fn export_order(&self) -> (order: Vec<usize>)
        ensures
            order@.len() == MAX_LOG_FILES,
            forall|i: int| 0 <= i < MAX_LOG_FILES ==> order@[i] == MAX_LOG_FILES - 1 - i,
    {
        let mut order: Vec<usize> = Vec::new();
        let mut i: usize = MAX_LOG_FILES;
        while i > 0
            invariant
                i <= MAX_LOG_FILES,
                order@.len() == MAX_LOG_FILES - i,
                forall|j: int| 0 <= j < order@.len() ==> order@[j] == MAX_LOG_FILES - 1 - j,
            decreases i,
        {
            i -= 1;
            order.push(i);
        }
        order
    }

    /// The renames of a rotation, in the order they are made, after the oldest
    /// file is removed: each file moves one index up, from the oldest to the
    /// current one.
    pub fn rotation_renames(&self) -> (moves: Vec<(usize, usize)>)
        ensures
            moves@.len() == MAX_LOG_FILES - 1,
            forall|i: int|
                0 <= i < MAX_LOG_FILES - 1 ==> (#[trigger] moves@[i]).0 == MAX_LOG_FILES - 2 - i
                    && moves@[i].1 == MAX_LOG_FILES - 1 - i,
    {
        let mut moves: Vec<(usize, usize)> = Vec::new();
        let mut i: usize = MAX_LOG_FILES - 1;
        while i > 0
            invariant
                i <= MAX_LOG_FILES - 1,
                moves@.len() == MAX_LOG_FILES - 1 - i,
                forall|j: int|
                    0 <= j < moves@.len() ==> (#[trigger] moves@[j]).0 == MAX_LOG_FILES - 2 - j
                        && moves@[j].1 == MAX_LOG_FILES - 1 - j,
            decreases i,
        {
            i -= 1;
            moves.push((i, i + 1));
        }
        moves
    }
}

} // verus!
