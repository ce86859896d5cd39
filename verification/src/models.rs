//! Plain data records exchanged with the user interface and persisted in the
//! queue journal, with their validation rules.
use crate::text::{
    char_is_control, chars_of, concat3, owned, str_byte_len, trim, trimmed_whitespace,
    is_unicode_control, utf8_len,
};
use vstd::prelude::*;

verus! {

/// Schema version of every persisted record.
pub const APP_SCHEMA_VERSION: u32 = 1;

/// Byte cap of a media selection's text fields.
pub const MAX_MEDIA_SELECTION_FIELD_BYTES: usize = 4096;

/// Largest accepted playlist index of a media selection.
pub const MAX_MEDIA_SELECTION_INDEX: u32 = 1000;

/// How cookies are supplied to the downloader: from a browser profile or a
/// `cookies.txt` file. Only the selection is kept, never cookie contents.
#[derive(Debug, Clone, PartialEq, Eq)]
pub struct CookieConfig {
    pub enabled: bool,
    pub mode: String,
    pub browser: String,
    pub cookie_file: Option<String>,
}

/// The exact entry of a multi-video post or playlist that a download targets.
#[derive(Debug, Clone, PartialEq, Eq)]
pub struct MediaSelection {
    pub entry_id: String,
    pub extractor_key: String,
    pub playlist_index: u32,
}

/// A request to download one media item.
#[derive(Debug, Clone, PartialEq, Eq)]
pub struct DownloadRequest {
    pub url: String,
    pub quality: String,
    pub format: String,
    pub output_dir: String,
    pub cookie_config: Option<CookieConfig>,
    pub filename_override: Option<String>,
    pub compat_config_path: Option<String>,
    pub selection: Option<MediaSelection>,
}

/// Health and provenance of one external tool.
#[derive(Debug, Clone, PartialEq, Eq)]
pub struct DownloaderToolStatus {
    pub name: String,
    pub required: bool,
    pub available: bool,
    pub version: Option<String>,
    pub path: Option<String>,
    pub source: String,
    pub error: Option<String>,
}

#[derive(Debug, Clone, Copy, PartialEq, Eq, Structural)]
pub enum DownloaderRuntimeState {
    Ready,
    ReadyWithWarnings,
    RepairRequired,
}

#[derive(Debug, Clone, PartialEq, Eq)]
pub struct DownloaderRuntimeStatus {
    pub state: DownloaderRuntimeState,
    pub runtime_version: Option<String>,
    pub source: String,
    pub update_available: bool,
    pub latest_runtime_version: Option<String>,
    pub runtime_dir: Option<String>,
    pub plugin_dir: String,
    pub message: Option<String>,
    pub tools: Vec<DownloaderToolStatus>,
}

#[derive(Debug, Clone, PartialEq, Eq)]
pub struct DownloaderRuntimeUpdateCheck {
    pub update_available: bool,
    pub latest_runtime_version: Option<String>,
    pub message: Option<String>,
}

#[derive(Debug, Clone, PartialEq, Eq)]
pub struct DownloaderRuntimeUpdateProgress {
    pub status: String,
    pub version: Option<String>,
    pub downloaded_bytes: u64,
    pub total_bytes: Option<u64>,
    pub message: Option<String>,
}

#[derive(Debug, Clone, PartialEq, Eq)]
pub struct UpdateCheckResult {
    pub current_version: String,
    pub has_update: bool,
    pub latest_version: Option<String>,
    pub notes: Option<String>,
    pub published_at: Option<String>,
    pub installer_name: Option<String>,
}

#[derive(Debug, Clone, PartialEq, Eq)]
pub struct UpdateInstallProgress {
    pub status: String,
    pub version: String,
    pub downloaded_bytes: u64,
    pub total_bytes: Option<u64>,
    pub message: Option<String>,
}

#[derive(Debug, Clone, Copy, PartialEq, Eq, Structural)]
pub enum QueueItemState {
    Inert,
    Queued,
    Running,
    Completed,
    Failed,
    Cancelled,
    Interrupted,
}

impl QueueItemState {
    /// Items that are not waiting or running may have their settings edited.
    pub open spec fn spec_is_editable(self) -> bool {
        !(self is Queued || self is Running)
    }

    pub fn is_editable(self) -> (res: bool)
        ensures
            res == self.spec_is_editable(),
    {
        match self {
            QueueItemState::Inert | QueueItemState::Completed | QueueItemState::Failed
            | QueueItemState::Cancelled | QueueItemState::Interrupted => true,
            QueueItemState::Queued | QueueItemState::Running => false,
        }
    }
}

#[derive(Debug, Clone, Copy, PartialEq, Eq, Structural)]
pub enum OperationKind {
    Inspection,
    Download,
    Conversion,
    AppUpdate,
    RuntimeUpdate,
    DiagnosticsExport,
}

#[derive(Debug, Clone, Copy, PartialEq, Eq, Structural)]
pub enum OperationState {
    Queued,
    Starting,
    Running,
    Cancelling,
    Completed,
    Failed,
    Cancelled,
    Interrupted,
}

impl OperationState {
    /// Completed, failed, cancelled and interrupted operations never change again.
    pub open spec fn spec_is_terminal(self) -> bool {
        self is Completed || self is Failed || self is Cancelled || self is Interrupted
    }

    pub fn is_terminal(self) -> (res: bool)
        ensures
            res == self.spec_is_terminal(),
    {
        match self {
            OperationState::Completed | OperationState::Failed | OperationState::Cancelled
            | OperationState::Interrupted => true,
            OperationState::Queued | OperationState::Starting | OperationState::Running
            | OperationState::Cancelling => false,
        }
    }
}

#[derive(Debug, Clone, Copy, PartialEq, Eq, Structural)]
pub enum RuntimeReadiness {
    Ready,
    ReadyWithWarnings,
    RepairRequired,
    UpdateAvailable,
}

#[derive(Debug, Clone, Copy, PartialEq, Eq, Structural)]
pub enum QueuePriority {
    Normal,
    Front,
}

/// Marks a queue item whose playlist entry is still being resolved.
#[derive(Debug, Clone, Copy, PartialEq, Eq, Structural)]
pub enum QueuePreparation {
    Pending,
}

/// Persisted queue configuration. `cookie_config` is an immutable per-item
/// authentication selection containing metadata only.
#[derive(Debug, Clone, PartialEq, Eq)]
pub struct QueueItemRecord {
    pub schema_version: u32,
    pub id: String,
    pub source_url: String,
    pub title: String,
    pub available_qualities: Vec<String>,
    pub has_audio: bool,
    pub cookie_config: Option<CookieConfig>,
    pub format: String,
    pub quality: String,
    pub output_dir: String,
    pub filename_override: Option<String>,
    pub compat_config_path: Option<String>,
    pub state: QueueItemState,
    pub latest_operation_id: Option<String>,
    pub created_at_ms: u64,
    pub updated_at_ms: u64,
    /// The playlist entry's media id, for items admitted from a playlist.
    pub source_media_id: Option<String>,
    /// Set while the item's playlist entry is still being resolved.
    pub preparation: Option<QueuePreparation>,
    /// The inspection operation that resolves the entry.
    pub preparation_operation_id: Option<String>,
    /// The media chosen from the inspected entry.
    pub selection: Option<MediaSelection>,
}

impl QueueItemRecord {
    /// The download request that re-runs this queue item.
    pub fn to_download_request(&self) -> (r: DownloadRequest)
        ensures
            r.url@ == self.source_url@,
            r.quality@ == self.quality@,
            r.format@ == self.format@,
            r.output_dir@ == self.output_dir@,
            r.cookie_config == self.cookie_config,
            r.filename_override == self.filename_override,
            r.compat_config_path == self.compat_config_path,
            r.selection is None,
    {
        DownloadRequest {
            url: self.source_url.clone(),
            quality: self.quality.clone(),
            format: self.format.clone(),
            output_dir: self.output_dir.clone(),
            cookie_config: clone_cookie_config(&self.cookie_config),
            filename_override: clone_opt_string(&self.filename_override),
            compat_config_path: clone_opt_string(&self.compat_config_path),
            selection: None,
        }
    }
}

pub fn clone_opt_string(s: &Option<String>) -> (r: Option<String>)
    ensures
        r == *s,
{
    match s {
        Some(v) => {
            let c = v.clone();
            proof {
                assert(c@ == v@);
            }
            Some(c)
        },
        None => None,
    }
}

pub fn clone_cookie_config(c: &Option<CookieConfig>) -> (r: Option<CookieConfig>)
    ensures
        r == *c,
{
    match c {
        Some(cfg) => Some(
            CookieConfig {
                enabled: cfg.enabled,
                mode: cfg.mode.clone(),
                browser: cfg.browser.clone(),
                cookie_file: clone_opt_string(&cfg.cookie_file),
            },
        ),
        None => None,
    }
}

/// A request to queue the result of an inspection.
#[derive(Debug, Clone, PartialEq, Eq)]
pub struct PlaylistAdmissionInput {
    pub request_id: String,
    pub entry_indices: Vec<usize>,
}

#[derive(Debug, Clone, PartialEq, Eq)]
pub struct AddQueueItemInput {
    pub inspection_operation_id: String,
    pub format: String,
    pub quality: String,
    pub output_dir: String,
    pub cookie_config: Option<CookieConfig>,
    pub filename_override: Option<String>,
    pub compat_config_path: Option<String>,
    pub playlist: Option<PlaylistAdmissionInput>,
}

/// A partial edit of a queue item. For `filename_override`, `None` leaves it
/// unchanged, `Some(None)` clears it and `Some(Some(name))` sets it.
#[derive(Debug, Clone, PartialEq, Eq)]
pub struct UpdateQueueItemInput {
    pub format: Option<String>,
    pub quality: Option<String>,
    pub output_dir: Option<String>,
    pub filename_override: Option<Option<String>>,
}

#[derive(Debug, Clone, PartialEq, Eq)]
pub struct BeginInspectionInput {
    pub url: String,
    pub cookie_config: Option<CookieConfig>,
    pub compat_config_path: Option<String>,
    pub selection: Option<MediaSelection>,
}

#[derive(Debug, Clone, PartialEq, Eq)]
pub struct BeginOperationResult {
    pub operation_id: String,
}

#[derive(Debug, Clone, PartialEq, Eq)]
pub struct CancelAllResult {
    pub idle: bool,
    pub remaining_operation_ids: Vec<String>,
}

/// Durable record that one playlist admission request was applied.
#[derive(Debug, Clone, PartialEq, Eq)]
pub struct PlaylistAdmissionReceipt {
    pub request_id: String,
    pub fingerprint: String,
    pub item_ids: Vec<String>,
    pub skipped_count: usize,
}

#[derive(Debug, Clone, Copy, PartialEq, Eq, Structural)]
pub enum PlaylistAdmissionKind {
    Playlist,
}

#[derive(Debug, Clone, PartialEq, Eq)]
pub struct PlaylistAdmissionResult {
    pub kind: PlaylistAdmissionKind,
    pub request_id: String,
    pub item_ids: Vec<String>,
    pub skipped_count: usize,
}

#[derive(Debug, Clone, PartialEq, Eq)]
pub enum AddQueueItemResult {
    Single(Box<QueueItemRecord>),
    Playlist(PlaylistAdmissionResult),
}

/// The first problem with one media-selection text field, if any.
pub open spec fn selection_field_error(name: Seq<char>, value: Seq<char>) -> Option<Seq<char>> {
    if value.len() == 0 || trim(value) != value {
        Some("Media selection "@ + name + " must be non-empty and trimmed."@)
    } else if utf8_len(value) > MAX_MEDIA_SELECTION_FIELD_BYTES {
        Some("Media selection "@ + name + " exceeds the 4 KiB limit."@)
    } else if exists|i: int| 0 <= i < value.len() && is_unicode_control(#[trigger] value[i]) {
        Some("Media selection "@ + name + " contains control characters."@)
    } else {
        None
    }
}

/// The first problem with a media selection's fields, if any.
pub open spec fn selection_fields_error(entry_id: Seq<char>, extractor_key: Seq<char>, playlist_index: u32) -> Option<
    Seq<char>,
> {
    if selection_field_error("entry ID"@, entry_id) is Some {
        selection_field_error("entry ID"@, entry_id)
    } else if selection_field_error("extractor key"@, extractor_key) is Some {
        selection_field_error("extractor key"@, extractor_key)
    } else if !(1 <= playlist_index <= MAX_MEDIA_SELECTION_INDEX) {
        Some("Media selection playlist index must be between 1 and 1,000."@)
    } else {
        None
    }
}

/// The outcome of [`MediaSelection::validate`]: `None` when valid, else the message.
pub open spec fn selection_error(s: MediaSelection) -> Option<Seq<char>> {
    selection_fields_error(s.entry_id@, s.extractor_key@, s.playlist_index)
}

fn check_selection_field(name: &str, value: &str) -> (res: Result<(), String>)
    ensures
        match res {
            Ok(()) => selection_field_error(name@, value@) is None,
            Err(m) => selection_field_error(name@, value@) == Some(m@),
        },
{
    let chars = chars_of(value);
    let trimmed = trimmed_whitespace(chars.as_slice());
    if chars.len() == 0 || trimmed.len() != chars.len() {
        proof {
            if chars@.len() != 0 && trimmed@.len() != chars@.len() {
                assert(trim(value@) != value@);
            }
        }
        return Err(concat3("Media selection ", name, " must be non-empty and trimmed."));
    }
    proof {
        crate::text::lemma_trim_start_is_suffix(value@, |c: char| crate::text::is_unicode_whitespace(c));
        crate::text::lemma_trim_end_is_prefix(
            crate::text::trim_start_by(value@, |c: char| crate::text::is_unicode_whitespace(c)),
            |c: char| crate::text::is_unicode_whitespace(c),
        );
        assert(trimmed@ =~= value@);
    }
    if str_byte_len(value) > MAX_MEDIA_SELECTION_FIELD_BYTES {
        return Err(concat3("Media selection ", name, " exceeds the 4 KiB limit."));
    }
    let mut i: usize = 0;
    while i < chars.len()
        invariant
            chars@ == value@,
            value@.len() != 0,
            trim(value@) == value@,
            utf8_len(value@) <= MAX_MEDIA_SELECTION_FIELD_BYTES,
            i <= chars@.len(),
            forall|j: int| 0 <= j < i ==> !is_unicode_control(#[trigger] value@[j]),
        decreases chars@.len() - i,
    {
        if char_is_control(chars[i]) {
            assert(is_unicode_control(value@[i as int]));
            return Err(concat3("Media selection ", name, " contains control characters."));
        }
        i += 1;
    }
    Ok(())
}

impl MediaSelection {
    /// Checks that both text fields are trimmed, non-empty, at most 4 KiB and
    /// free of control characters, and that the index lies in 1..=1000.
    pub fn validate(&self) -> (res: Result<(), String>)
        ensures
            match res {
                Ok(()) => selection_error(*self) is None,
                Err(m) => selection_error(*self) == Some(m@),
            },
    {
        check_selection_field("entry ID", self.entry_id.as_str())?;
        check_selection_field("extractor key", self.extractor_key.as_str())?;
        if self.playlist_index < 1 || self.playlist_index > MAX_MEDIA_SELECTION_INDEX {
            return Err(owned("Media selection playlist index must be between 1 and 1,000."));
        }
        Ok(())
    }
}

/// SHA-256 of a byte string, as `sha2::Sha256` computes it.
pub uninterp spec fn sha256_digest(bytes: Seq<u8>) -> Seq<u8>;

/// `sha2::Sha256::digest`; its output is 32 bytes by type.
#[verifier::external_body]
fn sha256_of(bytes: &[u8]) -> (d: Vec<u8>)
    ensures
        d@ == sha256_digest(bytes@),
        d@.len() == 32,
{
    <sha2::Sha256 as sha2::Digest>::digest(bytes).to_vec()
}

/// The lower-case hexadecimal digit for a value below sixteen.
pub open spec fn hex_digit(v: nat) -> char {
    if v < 10 {
        ((v + 48) as u32) as char
    } else {
        ((v + 87) as u32) as char
    }
}

/// Lower-case hexadecimal text of bytes, two digits per byte.
pub open spec fn lower_hex(bytes: Seq<u8>) -> Seq<char>
    decreases bytes.len(),
{
    if bytes.len() == 0 {
        Seq::empty()
    } else {
        lower_hex(bytes.drop_last()) + seq![hex_digit((bytes.last() / 16) as nat), hex_digit((bytes.last() % 16) as nat)]
    }
}

fn hex_digit_exec(v: u8) -> (c: char)
    requires
        v < 16,
    ensures
        c == hex_digit(v as nat),
{
    if v < 10 {
        (v + 48) as char
    } else {
        (v + 87) as char
    }
}

/// Fingerprint of the settings an inspection ran with: the lower-case hex
/// SHA-256 of their canonical JSON encoding (the cookie configuration and the
/// compatibility config path, as a pair).
pub fn inspection_settings_fingerprint(canonical_settings: &[u8]) -> (f: String)
    ensures
        f@ == lower_hex(sha256_digest(canonical_settings@)),
{
    let digest = sha256_of(canonical_settings);
    let mut out: Vec<char> = Vec::new();
    let mut i: usize = 0;
    while i < digest.len()
        invariant
            i <= digest@.len(),
            out@ == lower_hex(digest@.take(i as int)),
        decreases digest@.len() - i,
    {
        let b = digest[i];
        proof {
            assert(digest@.take(i + 1).drop_last() =~= digest@.take(i as int));
            assert(digest@.take(i + 1).last() == b);
        }
        out.push(hex_digit_exec(b / 16));
        out.push(hex_digit_exec(b % 16));
        proof {
            assert(out@ =~= lower_hex(digest@.take(i + 1)));
        }
        i += 1;
    }
    proof {
        assert(digest@.take(digest@.len() as int) =~= digest@);
    }
    crate::text::string_from_chars(out.as_slice())
}

} // verus!
