//! The renderer-safe failure record returned by every fallible command.
use crate::redaction::{redact, redacted};
use crate::text::{concat3, owned, truncate_utf8, truncated_utf8, utf8_len};
use vstd::prelude::*;

verus! {

/// Byte cap of an error summary.
pub const MAX_ERROR_SUMMARY_BYTES: usize = 4096;

/// Byte cap of an error detail.
pub const MAX_ERROR_DETAIL_BYTES: usize = 65536;

/// Redacted and byte-capped text, as stored in an [`AppError`].
pub open spec fn safe_text_of(value: Seq<char>, max_bytes: nat) -> Seq<char> {
    truncated_utf8(redacted(value), max_bytes)
}

/// Redacts URLs, paths and secrets from `value` and caps it at `max_bytes`.
pub fn safe_text(value: &str, max_bytes: usize) -> (res: String)
    ensures
        res@ == safe_text_of(value@, max_bytes as nat),
        max_bytes >= 14 ==> utf8_len(res@) <= max_bytes,
{
    let clean = redact(value);
    truncate_utf8(clean.as_str(), max_bytes)
}

/// Stable, renderer-safe failure contract for every fallible command.
///
/// `detail` is optional and already redacted. Raw URLs, cookie material and
/// full local paths never reach these fields through the constructors.
#[derive(Debug, Clone, PartialEq, Eq)]
pub struct AppError {
    pub code: String,
    pub summary: String,
    pub detail: Option<String>,
    pub retryable: bool,
    pub correlation_id: String,
}

/// The lowercase hexadecimal digit of `n` (`0 <= n < 16`).
pub open spec fn hex_digit_char(n: int) -> char {
    if n < 10 {
        (48 + n) as char
    } else {
        (87 + n) as char
    }
}

/// Two lowercase hexadecimal digits per byte, in order.
pub open spec fn lower_hex_text(bytes: Seq<u8>) -> Seq<char>
    decreases bytes.len(),
{
    if bytes.len() == 0 {
        Seq::empty()
    } else {
        seq![hex_digit_char(bytes[0] as int / 16), hex_digit_char(bytes[0] as int % 16)]
            + lower_hex_text(bytes.drop_first())
    }
}

/// The 16 bytes of a random (version 4, RFC 4122 variant) UUID built from
/// random bytes: the version nibble of byte 6 is 4, and the top two bits of
/// byte 8 are `10`.
pub open spec fn random_uuid_bytes(random: Seq<u8>) -> Seq<u8> {
    random.update(6, ((random[6] & 0x0f) | 0x40) as u8).update(8, ((random[8] & 0x3f) | 0x80) as u8)
}

/// The hyphenated lowercase text of a UUID's 16 bytes (8-4-4-4-12 digits).
pub open spec fn hyphenated_uuid(b: Seq<u8>) -> Seq<char> {
    lower_hex_text(b.subrange(0, 4)) + seq!['-'] + lower_hex_text(b.subrange(4, 6)) + seq!['-']
        + lower_hex_text(b.subrange(6, 8)) + seq!['-'] + lower_hex_text(b.subrange(8, 10))
        + seq!['-'] + lower_hex_text(b.subrange(10, 16))
}

/// `getrandom::fill` on 16 bytes: the system's random bytes, or `None` when
/// the random source fails. Nothing is promised of the bytes themselves.
#[verifier::external_body]
fn system_random_bytes() -> (res: Option<[u8; 16]>) {
    let mut bytes = [0u8; 16];
    match getrandom::fill(&mut bytes) {
        Ok(()) => Some(bytes),
        Err(_) => None,
    }
}

/// `uuid::Builder::from_random_bytes(random).into_uuid().to_string()`: the
/// bytes with the version and variant bits set, written hyphenated in
/// lowercase hexadecimal (the `Display` form of `Uuid`).
#[verifier::external_body]
fn random_uuid_text(random: [u8; 16]) -> (s: String)
    ensures
        s@ == hyphenated_uuid(random_uuid_bytes(random@)),
{
    uuid::Builder::from_random_bytes(random).into_uuid().to_string()
}

proof fn lemma_lower_hex_text_len(bytes: Seq<u8>)
    ensures
        lower_hex_text(bytes).len() == 2 * bytes.len(),
    decreases bytes.len(),
{
    if bytes.len() > 0 {
        lemma_lower_hex_text_len(bytes.drop_first());
    }
}

/// Every hyphenated UUID text has 36 characters.
pub proof fn lemma_hyphenated_uuid_len(b: Seq<u8>)
    requires
        b.len() == 16,
    ensures
        hyphenated_uuid(b).len() == 36,
{
    lemma_lower_hex_text_len(b.subrange(0, 4));
    lemma_lower_hex_text_len(b.subrange(4, 6));
    lemma_lower_hex_text_len(b.subrange(6, 8));
    lemma_lower_hex_text_len(b.subrange(8, 10));
    lemma_lower_hex_text_len(b.subrange(10, 16));
}

/// A fresh random correlation identifier, or `None` when the system's random
/// source fails.
pub fn new_correlation_id() -> (id: Option<String>)
    ensures
        id matches Some(t) ==> exists|random: Seq<u8>|
            random.len() == 16 && t@ == hyphenated_uuid(random_uuid_bytes(random)),
{
    match system_random_bytes() {
        Some(random) => {
            let t = random_uuid_text(random);
            assert(random@.len() == 16);
            Some(t)
        },
        None => None,
    }
}

/// A correlation identifier for a new error: a fresh random UUID, or the nil
/// UUID `00000000-0000-0000-0000-000000000000` when the random source fails,
/// so that building an error never fails.
fn correlation_id_or_nil() -> (id: String)
    ensures
        id@.len() == 36,
        (exists|random: Seq<u8>| random.len() == 16 && id@ == hyphenated_uuid(random_uuid_bytes(random)))
            || id@ == "00000000-0000-0000-0000-000000000000"@,
{
    match new_correlation_id() {
        Some(t) => {
            proof {
                let random = choose|random: Seq<u8>|
                    random.len() == 16 && t@ == hyphenated_uuid(random_uuid_bytes(random));
                lemma_hyphenated_uuid_len(random_uuid_bytes(random));
            }
            t
        },
        None => {
            proof {
                reveal_strlit("00000000-0000-0000-0000-000000000000");
            }
            owned("00000000-0000-0000-0000-000000000000")
        },
    }
}

/// Well-formedness of an error built by the constructors below.
pub open spec fn error_is_bounded(e: AppError) -> bool {
    &&& utf8_len(e.summary@) <= MAX_ERROR_SUMMARY_BYTES
    &&& e.detail matches Some(d) ==> utf8_len(d@) <= MAX_ERROR_DETAIL_BYTES
    &&& e.correlation_id@.len() == 36
}

impl AppError {
    /// A non-retryable error with a redacted, capped summary and no detail.
    pub fn new(code: &str, summary: &str) -> (e: AppError)
        ensures
            e.code@ == code@,
            e.summary@ == safe_text_of(summary@, MAX_ERROR_SUMMARY_BYTES as nat),
            e.detail is None,
            !e.retryable,
            error_is_bounded(e),
    {
        AppError {
            code: owned(code),
            summary: safe_text(summary, MAX_ERROR_SUMMARY_BYTES),
            detail: None,
            retryable: false,
            correlation_id: correlation_id_or_nil(),
        }
    }

    /// The same error with its retry hint replaced.
    pub fn retryable(self, retryable: bool) -> (e: AppError)
        ensures
            e == (AppError { retryable, ..self }),
    {
        let mut e = self;
        e.retryable = retryable;
        e
    }

    /// The same error with a redacted, capped detail.
    pub fn with_detail(self, detail: &str) -> (e: AppError)
        ensures
            e.code == self.code,
            e.summary == self.summary,
            e.retryable == self.retryable,
            e.correlation_id == self.correlation_id,
            e.detail matches Some(d) && d@ == safe_text_of(detail@, MAX_ERROR_DETAIL_BYTES as nat),
            error_is_bounded(self) ==> error_is_bounded(e),
    {
        let mut e = self;
        e.detail = Some(safe_text(detail, MAX_ERROR_DETAIL_BYTES));
        e
    }

    /// An `invalid_request` error.
    pub fn invalid(summary: &str) -> (e: AppError)
        ensures
            e.code@ == "invalid_request"@,
            e.summary@ == safe_text_of(summary@, MAX_ERROR_SUMMARY_BYTES as nat),
            e.detail is None,
            !e.retryable,
            error_is_bounded(e),
    {
        AppError::new("invalid_request", summary)
    }

    /// A `not_found` error naming the missing kind of object.
    pub fn not_found(kind: &str) -> (e: AppError)
        ensures
            e.code@ == "not_found"@,
            e.summary@ == safe_text_of(
                "The requested "@ + kind@ + " was not found."@,
                MAX_ERROR_SUMMARY_BYTES as nat,
            ),
            e.detail is None,
            !e.retryable,
            error_is_bounded(e),
    {
        let summary = concat3("The requested ", kind, " was not found.");
        AppError::new("not_found", summary.as_str())
    }

    /// A retryable `busy` error.
    pub fn busy(summary: &str) -> (e: AppError)
        ensures
            e.code@ == "busy"@,
            e.summary@ == safe_text_of(summary@, MAX_ERROR_SUMMARY_BYTES as nat),
            e.detail is None,
            e.retryable,
            error_is_bounded(e),
    {
        AppError::new("busy", summary).retryable(true)
    }

    /// A retryable `internal_error` error.
    pub fn internal(summary: &str) -> (e: AppError)
        ensures
            e.code@ == "internal_error"@,
            e.summary@ == safe_text_of(summary@, MAX_ERROR_SUMMARY_BYTES as nat),
            e.detail is None,
            e.retryable,
            error_is_bounded(e),
    {
        AppError::new("internal_error", summary).retryable(true)
    }

    /// The text a renderer shows for this error (its summary).
    pub fn to_display_string(&self) -> (s: String)
        ensures
            s@ == self.summary@,
    {
        self.summary.clone()
    }
}

} // verus!
