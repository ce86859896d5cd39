//! Checks shared by release packaging and runtime update authentication: the
//! digest and key-id text policy and the base64 wrapper around the update key.
use crate::text::owned;
use vstd::prelude::*;
use vstd::string::StringSliceAdditionalSpecFns;
use vstd::utf8::{decode_utf8, valid_utf8};

verus! {

/// Lower-case hexadecimal digit.
pub open spec fn is_lower_hex_byte(b: u8) -> bool {
    (0x30 <= b <= 0x39) || (0x61 <= b <= 0x66)
}

/// A canonical SHA-256 digest: exactly 64 lower-case hex bytes.
pub open spec fn canonical_sha256(bytes: Seq<u8>) -> bool {
    bytes.len() == 64 && forall|i: int| 0 <= i < bytes.len() ==> is_lower_hex_byte(#[trigger] bytes[i])
}

pub fn is_canonical_sha256(value: &str) -> (res: bool)
    ensures
        res == canonical_sha256(value.spec_bytes()),
{
    let bytes = value.as_bytes();
    if bytes.len() != 64 {
        return false;
    }
    let mut i: usize = 0;
    while i < bytes.len()
        invariant
            bytes@ == value.spec_bytes(),
            i <= bytes@.len(),
            forall|j: int| 0 <= j < i ==> is_lower_hex_byte(#[trigger] bytes@[j]),
        decreases bytes@.len() - i,
    {
        let b = bytes[i];
        if !((0x30 <= b && b <= 0x39) || (0x61 <= b && b <= 0x66)) {
            return false;
        }
        i += 1;
    }
    true
}

/// ASCII letter, digit, `.`, `_` or `-`.
pub open spec fn is_key_id_byte(b: u8) -> bool {
    (0x30 <= b <= 0x39) || (0x41 <= b <= 0x5A) || (0x61 <= b <= 0x7A) || b == 0x2E || b == 0x5F
        || b == 0x2D
}

/// A canonical update key id: 1 to 64 bytes of letters, digits, `.`, `_`, `-`.
pub open spec fn canonical_update_key_id(bytes: Seq<u8>) -> bool {
    &&& bytes.len() > 0
    &&& bytes.len() <= 64
    &&& forall|i: int| 0 <= i < bytes.len() ==> is_key_id_byte(#[trigger] bytes[i])
}

pub fn is_canonical_update_key_id(value: &str) -> (res: bool)
    ensures
        res == canonical_update_key_id(value.spec_bytes()),
{
    let bytes = value.as_bytes();
    if bytes.len() == 0 || bytes.len() > 64 {
        return false;
    }
    let mut i: usize = 0;
    while i < bytes.len()
        invariant
            bytes@ == value.spec_bytes(),
            i <= bytes@.len(),
            forall|j: int| 0 <= j < i ==> is_key_id_byte(#[trigger] bytes@[j]),
        decreases bytes@.len() - i,
    {
        let b = bytes[i];
        if !((0x30 <= b && b <= 0x39) || (0x41 <= b && b <= 0x5A) || (0x61 <= b && b <= 0x7A) || b
            == 0x2E || b == 0x5F || b == 0x2D) {
            return false;
        }
        i += 1;
    }
    true
}

/// Value of one standard base64 digit.
pub open spec fn base64_digit(b: u8) -> Option<u8> {
    if 0x41 <= b <= 0x5A {
        Some((b - 0x41) as u8)
    } else if 0x61 <= b <= 0x7A {
        Some((b - 0x61 + 26) as u8)
    } else if 0x30 <= b <= 0x39 {
        Some((b - 0x30 + 52) as u8)
    } else if b == 0x2B {
        Some(62u8)
    } else if b == 0x2F {
        Some(63u8)
    } else {
        None
    }
}

pub fn decode_base64_digit(byte: u8) -> (res: Option<u8>)
    ensures
        res == base64_digit(byte),
        res matches Some(v) ==> v < 64,
{
    if 0x41 <= byte && byte <= 0x5A {
        Some(byte - 0x41)
    } else if 0x61 <= byte && byte <= 0x7A {
        Some(byte - 0x61 + 26)
    } else if 0x30 <= byte && byte <= 0x39 {
        Some(byte - 0x30 + 52)
    } else if byte == 0x2B {
        Some(62)
    } else if byte == 0x2F {
        Some(63)
    } else {
        None
    }
}

pub open spec fn is_ascii_whitespace_byte(b: u8) -> bool {
    b == 0x20 || b == 0x09 || b == 0x0A || b == 0x0C || b == 0x0D
}

/// The input with one trailing `\r\n` or `\n` removed.
pub open spec fn strip_line_ending(s: Seq<u8>) -> Seq<u8> {
    if s.len() >= 2 && s[s.len() - 2] == 0x0D && s[s.len() - 1] == 0x0A {
        s.take(s.len() - 2)
    } else if s.len() >= 1 && s[s.len() - 1] == 0x0A {
        s.take(s.len() - 1)
    } else {
        s
    }
}

/// Number of trailing `=` bytes.
pub open spec fn trailing_padding(s: Seq<u8>) -> nat
    decreases s.len(),
{
    if s.len() > 0 && s.last() == 0x3D {
        1 + trailing_padding(s.drop_last())
    } else {
        0
    }
}

/// The bytes decoded from one 4-byte group, or `None` if the group is invalid.
/// `last` tells whether padding is permitted in this group.
pub open spec fn decode_group(g: Seq<u8>, last: bool) -> Option<Seq<u8>> {
    let da = base64_digit(g[0]);
    let db = base64_digit(g[1]);
    if da is None || db is None {
        None
    } else {
        let a = da->0 as int;
        let b = db->0 as int;
        if g[2] == 0x3D {
            if !last || g[3] != 0x3D || b % 16 != 0 {
                None
            } else {
                Some(seq![(a * 4 + b / 16) as u8])
            }
        } else if base64_digit(g[2]) is None {
            None
        } else {
            let c = base64_digit(g[2])->0 as int;
            if g[3] == 0x3D {
                if !last || c % 4 != 0 {
                    None
                } else {
                    Some(seq![(a * 4 + b / 16) as u8, ((b % 16) * 16 + c / 4) as u8])
                }
            } else if base64_digit(g[3]) is None {
                None
            } else {
                let d = base64_digit(g[3])->0 as int;
                Some(
                    seq![
                        (a * 4 + b / 16) as u8,
                        ((b % 16) * 16 + c / 4) as u8,
                        ((c % 4) * 64 + d) as u8,
                    ],
                )
            }
        }
    }
}

/// Decodes the groups `s[4*from ..]` of an input of `total` groups.
pub open spec fn decode_groups(s: Seq<u8>, from: nat, total: nat) -> Option<Seq<u8>>
    decreases total - from,
{
    if from >= total {
        Some(Seq::empty())
    } else {
        match decode_group(s.subrange(4 * from as int, 4 * from as int + 4), from + 1 == total) {
            None => None,
            Some(head) => match decode_groups(s, from + 1, total) {
                None => None,
                Some(tail) => Some(head + tail),
            },
        }
    }
}

/// The decoded length that a valid padded input of this shape has.
pub open spec fn base64_decoded_length(s: Seq<u8>) -> int {
    s.len() / 4 * 3 - trailing_padding(s)
}

/// Result of decoding the Tauri base64 key wrapper, `None` for every rejected input.
pub open spec fn has_ascii_whitespace(s: Seq<u8>) -> bool {
    exists|i: int| 0 <= i < s.len() && is_ascii_whitespace_byte(#[trigger] s[i])
}

/// An `=` occurs before the trailing padding.
pub open spec fn has_inner_padding(s: Seq<u8>) -> bool {
    exists|i: int| 0 <= i < s.len() - trailing_padding(s) && #[trigger] s[i] == 0x3D
}

pub open spec fn tauri_base64_decoded(input: Seq<u8>, decoded_limit: nat) -> Option<Seq<u8>> {
    let s = strip_line_ending(input);
    if s.len() == 0 || s.len() % 4 != 0 || has_ascii_whitespace(s) {
        None
    } else if trailing_padding(s) > 2 || has_inner_padding(s) {
        None
    } else if base64_decoded_length(s) > decoded_limit {
        None
    } else {
        decode_groups(s, 0, s.len() / 4)
    }
}

fn strip_line_ending_exec(input: &[u8]) -> (res: (usize, usize))
    ensures
        res.0 <= res.1 <= input@.len(),
        res.0 == 0,
        input@.subrange(res.0 as int, res.1 as int) == strip_line_ending(input@),
{
    let n = input.len();
    if n >= 2 && input[n - 2] == 0x0D && input[n - 1] == 0x0A {
        assert(input@.subrange(0, n - 2) =~= input@.take(n - 2));
        (0, n - 2)
    } else if n >= 1 && input[n - 1] == 0x0A {
        assert(input@.subrange(0, n - 1) =~= input@.take(n - 1));
        (0, n - 1)
    } else {
        assert(input@.subrange(0, n as int) =~= input@);
        (0, n)
    }
}

proof fn lemma_trailing_padding_bound(s: Seq<u8>)
    ensures
        trailing_padding(s) <= s.len(),
        forall|i: int| s.len() - trailing_padding(s) <= i < s.len() ==> s[i] == 0x3D,
        trailing_padding(s) < s.len() ==> s[s.len() - 1 - trailing_padding(s)] != 0x3D,
    decreases s.len(),
{
    if s.len() > 0 && s.last() == 0x3D {
        lemma_trailing_padding_bound(s.drop_last());
        assert forall|i: int| s.len() - trailing_padding(s) <= i < s.len() implies s[i] == 0x3D by {
            if i < s.len() - 1 {
                assert(s.drop_last()[i] == s[i]);
            }
        }
    }
}

fn decode_group_exec(g0: u8, g1: u8, g2: u8, g3: u8, last: bool) -> (res: Option<Vec<u8>>)
    ensures
        match res {
            Some(v) => decode_group(seq![g0, g1, g2, g3], last) == Some(v@),
            None => decode_group(seq![g0, g1, g2, g3], last) is None,
        },
{
    let ghost g = seq![g0, g1, g2, g3];
    assert(g[0] == g0 && g[1] == g1 && g[2] == g2 && g[3] == g3);
    let a = match decode_base64_digit(g0) {
        Some(v) => v,
        None => return None,
    };
    let b = match decode_base64_digit(g1) {
        Some(v) => v,
        None => return None,
    };
    let first: u8 = a * 4 + b / 16;
    let mut out: Vec<u8> = Vec::new();
    if g2 == 0x3D {
        if !last || g3 != 0x3D || b % 16 != 0 {
            return None;
        }
        out.push(first);
        assert(out@ =~= seq![first]);
        return Some(out);
    }
    let c = match decode_base64_digit(g2) {
        Some(v) => v,
        None => return None,
    };
    let second: u8 = (b % 16) * 16 + c / 4;
    if g3 == 0x3D {
        if !last || c % 4 != 0 {
            return None;
        }
        out.push(first);
        out.push(second);
        assert(out@ =~= seq![first, second]);
        return Some(out);
    }
    let d = match decode_base64_digit(g3) {
        Some(v) => v,
        None => return None,
    };
    let third: u8 = (c % 4) * 64 + d;
    out.push(first);
    out.push(second);
    out.push(third);
    assert(out@ =~= seq![first, second, third]);
    Some(out)
}

proof fn lemma_decode_groups_step(s: Seq<u8>, from: nat, total: nat, head: Seq<u8>)
    requires
        from < total,
        decode_group(s.subrange(4 * from as int, 4 * from as int + 4), from + 1 == total) == Some(head),
    ensures
        decode_groups(s, from, total) == match decode_groups(s, from + 1, total) {
            None => None,
            Some(tail) => Some(head + tail),
        },
{
}

/// Decodes the canonical base64 text that wraps the embedded update key,
/// accepting one trailing line ending and at most `decoded_limit` output bytes.
pub fn decode_tauri_base64_wrapper(input: &[u8], decoded_limit: usize) -> (res: Result<Vec<u8>, ()>)
    ensures
        match res {
            Ok(v) => tauri_base64_decoded(input@, decoded_limit as nat) == Some(v@),
            Err(_) => tauri_base64_decoded(input@, decoded_limit as nat) is None,
        },
{
    let (start, end) = strip_line_ending_exec(input);
    let ghost s = strip_line_ending(input@);
    let n = end;
    if n == 0 || n % 4 != 0 {
        return Err(());
    }
    let mut i: usize = 0;
    while i < n
        invariant
            n == end <= input@.len(),
            s == input@.subrange(0, n as int),
            s == strip_line_ending(input@),
            i <= n,
            forall|j: int| 0 <= j < i ==> !is_ascii_whitespace_byte(#[trigger] s[j]),
        decreases n - i,
    {
        let b = input[i];
        if b == 0x20 || b == 0x09 || b == 0x0A || b == 0x0C || b == 0x0D {
            assert(is_ascii_whitespace_byte(s[i as int]));
            assert(has_ascii_whitespace(s));
            assert(s == strip_line_ending(input@));
            assert(tauri_base64_decoded(input@, decoded_limit as nat) is None);
            return Err(());
        }
        i += 1;
    }
    assert(!has_ascii_whitespace(s));
    assert(s.take(n as int) =~= s);
    let mut padding: usize = 0;
    while padding < n && input[n - 1 - padding] == 0x3D
        invariant
            n == end <= input@.len(),
            s == input@.subrange(0, n as int),
            s == strip_line_ending(input@),
            padding <= n,
            trailing_padding(s) == padding + trailing_padding(s.take(n - padding)),
        decreases n - padding,
    {
        proof {
            let t = s.take(n - padding);
            assert(t.drop_last() =~= s.take(n - padding - 1));
        }
        padding += 1;
    }
    proof {
        let t = s.take(n - padding);
        if padding < n {
            assert(t.last() != 0x3D);
        }
        assert(trailing_padding(t) == 0);
        lemma_trailing_padding_bound(s);
    }
    if padding > 2 {
        return Err(());
    }
    let mut k: usize = 0;
    while k < n - padding
        invariant
            n == end <= input@.len(),
            s == input@.subrange(0, n as int),
            s == strip_line_ending(input@),
            padding == trailing_padding(s),
            padding <= 2,
            padding <= n,
            k <= n - padding,
            forall|j: int| 0 <= j < k ==> #[trigger] s[j] != 0x3D,
        decreases n - padding - k,
    {
        if input[k] == 0x3D {
            assert(s[k as int] == 0x3D);
            assert(has_inner_padding(s));
            return Err(());
        }
        k += 1;
    }
    assert(!has_inner_padding(s));
    let groups = n / 4;
    let decoded_length = groups * 3 - padding;
    if decoded_length > decoded_limit {
        return Err(());
    }
    assert(tauri_base64_decoded(input@, decoded_limit as nat) == decode_groups(s, 0, groups as nat));
    let mut output: Vec<u8> = Vec::new();
    let mut gi: usize = 0;
    while gi < groups
        invariant
            n == end <= input@.len(),
            s == input@.subrange(0, n as int),
            s == strip_line_ending(input@),
            groups == n / 4,
            n % 4 == 0,
            tauri_base64_decoded(input@, decoded_limit as nat) == decode_groups(s, 0, groups as nat),
            gi <= groups,
            decode_groups(s, 0, groups as nat) == match decode_groups(s, gi as nat, groups as nat) {
                None => None,
                Some(tail) => Some(output@ + tail),
            },
        decreases groups - gi,
    {
        let base = gi * 4;
        let g = decode_group_exec(
            input[base],
            input[base + 1],
            input[base + 2],
            input[base + 3],
            gi + 1 == groups,
        );
        assert(s.subrange(4 * gi as int, 4 * gi as int + 4) =~= seq![
            input@[base as int],
            input@[base + 1],
            input@[base + 2],
            input@[base + 3],
        ]);
        match g {
            None => {
                return Err(());
            },
            Some(bytes) => {
                proof {
                    lemma_decode_groups_step(s, gi as nat, groups as nat, bytes@);
                    let old_out = output@;
                    match decode_groups(s, (gi + 1) as nat, groups as nat) {
                        None => {},
                        Some(tail) => {
                            assert(old_out + (bytes@ + tail) =~= (old_out + bytes@) + tail);
                        },
                    }
                }
                let mut j: usize = 0;
                let ghost before = output@;
                while j < bytes.len()
                    invariant
                        j <= bytes@.len(),
                        output@ == before + bytes@.take(j as int),
                    decreases bytes@.len() - j,
                {
                    output.push(bytes[j]);
                    j += 1;
                    assert(output@ =~= before + bytes@.take(j as int));
                }
                assert(bytes@.take(bytes@.len() as int) =~= bytes@);
            },
        }
        gi += 1;
    }
    assert(output@ + Seq::<u8>::empty() =~= output@);
    Ok(output)
}

/// `std::str::from_utf8`: succeeds exactly on valid UTF-8 and then yields the
/// decoded characters.
#[verifier::external_body]
pub(crate) fn utf8_text(bytes: &[u8]) -> (res: Option<String>)
    ensures
        res is Some <==> valid_utf8(bytes@),
        res matches Some(t) ==> t@ == decode_utf8(bytes@),
{
    match std::str::from_utf8(bytes) {
        Ok(text) => Some(text.to_string()),
        Err(_) => None,
    }
}

#[verifier::external_type_specification]
#[verifier::external_body]
pub struct ExMinisignPublicKey(minisign_verify::PublicKey);

/// Whether `minisign_verify::PublicKey::decode` accepts the given key text.
pub uninterp spec fn minisign_key_decodes(text: Seq<char>) -> bool;

/// `minisign_verify::PublicKey::decode`: parses a minisign public key file's
/// text. The contract only says that success is a function of the text: the
/// key it returns keeps its id and key bytes in private fields with no
/// accessor, so nothing about them can be stated or read here.
#[verifier::external_body]
fn decode_minisign_public_key(text: &str) -> (res: Option<minisign_verify::PublicKey>)
    ensures
        res is Some <==> minisign_key_decodes(text@),
{
    minisign_verify::PublicKey::decode(text).ok()
}

/// Parses the base64-wrapped minisign public key embedded for update checks.
pub fn parse_tauri_update_public_key(input: &str) -> (res: Result<
    minisign_verify::PublicKey,
    String,
>)
    ensures
        match tauri_base64_decoded(input.spec_bytes(), 8192) {
            None => res matches Err(m) && m@ == "The embedded Tauri update public key wrapper is invalid."@,
            Some(decoded) => if !valid_utf8(decoded) {
                res matches Err(m) && m@ == "The embedded update public key is not valid UTF-8."@
            } else if !minisign_key_decodes(decode_utf8(decoded)) {
                res matches Err(m) && m@ == "The embedded update public key is invalid."@
            } else {
                res is Ok
            },
        },
{
    let decoded = match decode_tauri_base64_wrapper(input.as_bytes(), 8 * 1024) {
        Ok(bytes) => bytes,
        Err(_) => return Err(owned("The embedded Tauri update public key wrapper is invalid.")),
    };
    let text = match utf8_text(decoded.as_slice()) {
        Some(t) => t,
        None => return Err(owned("The embedded update public key is not valid UTF-8.")),
    };
    match decode_minisign_public_key(text.as_str()) {
        Some(key) => Ok(key),
        None => Err(owned("The embedded update public key is invalid.")),
    }
}

/// The standard base64 digit for a value below 64.
pub open spec fn base64_char(v: int) -> u8 {
    if v < 26 {
        (v + 0x41) as u8
    } else if v < 52 {
        (v - 26 + 0x61) as u8
    } else if v < 62 {
        (v - 52 + 0x30) as u8
    } else if v == 62 {
        0x2Bu8
    } else {
        0x2Fu8
    }
}

/// The standard padded base64 text of one group of one to three bytes.
pub open spec fn encode_group(b: Seq<u8>) -> Seq<u8> {
    let x = b[0] as int;
    if b.len() == 1 {
        seq![base64_char(x / 4), base64_char((x % 4) * 16), 0x3Du8, 0x3Du8]
    } else {
        let y = b[1] as int;
        if b.len() == 2 {
            seq![base64_char(x / 4), base64_char((x % 4) * 16 + y / 16), base64_char((y % 16) * 4), 0x3Du8]
        } else {
            let z = b[2] as int;
            seq![
                base64_char(x / 4),
                base64_char((x % 4) * 16 + y / 16),
                base64_char((y % 16) * 4 + z / 64),
                base64_char(z % 64),
            ]
        }
    }
}

/// The standard padded base64 text of `x` (alphabet `A-Z a-z 0-9 + /`,
/// `=` padding).
pub open spec fn base64_encode(x: Seq<u8>) -> Seq<u8>
    decreases x.len(),
{
    if x.len() == 0 {
        Seq::empty()
    } else if x.len() <= 3 {
        encode_group(x)
    } else {
        encode_group(x.take(3)) + base64_encode(x.skip(3))
    }
}

proof fn lemma_base64_char(v: int)
    requires
        0 <= v < 64,
    ensures
        base64_digit(base64_char(v)) == Some(v as u8),
        base64_char(v) != 0x3D,
        !is_ascii_whitespace_byte(base64_char(v)),
{
}

proof fn lemma_base64_digit_inverse(b: u8)
    requires
        base64_digit(b) is Some,
    ensures
        base64_digit(b)->0 < 64,
        base64_char(base64_digit(b)->0 as int) == b,
{
}

/// Decoding the text of one group gives the group back.
#[verifier::spinoff_prover]
#[verifier::rlimit(60)]
proof fn lemma_group_round_trip(b: Seq<u8>, last: bool)
    requires
        1 <= b.len() <= 3,
        b.len() < 3 ==> last,
    ensures
        decode_group(encode_group(b), last) == Some(b),
{
    let x = b[0] as int;
    let g = encode_group(b);
    lemma_base64_char(x / 4);
    if b.len() == 1 {
        lemma_base64_char((x % 4) * 16);
        assert(decode_group(g, last) =~= Some(b));
    } else if b.len() == 2 {
        let y = b[1] as int;
        lemma_base64_char((x % 4) * 16 + y / 16);
        lemma_base64_char((y % 16) * 4);
        assert(decode_group(g, last) =~= Some(b));
    } else {
        let y = b[1] as int;
        let z = b[2] as int;
        lemma_base64_char((x % 4) * 16 + y / 16);
        lemma_base64_char((y % 16) * 4 + z / 64);
        lemma_base64_char(z % 64);
        assert(decode_group(g, last) =~= Some(b));
    }
}

/// A group that decodes is the text of what it decodes to.
#[verifier::spinoff_prover]
#[verifier::rlimit(60)]
proof fn lemma_group_canonical(g: Seq<u8>, last: bool)
    requires
        g.len() == 4,
        decode_group(g, last) is Some,
    ensures
        1 <= decode_group(g, last)->0.len() <= 3,
        decode_group(g, last)->0.len() < 3 ==> last,
        encode_group(decode_group(g, last)->0) == g,
{
    lemma_base64_digit_inverse(g[0]);
    lemma_base64_digit_inverse(g[1]);
    let a = base64_digit(g[0])->0 as int;
    let b = base64_digit(g[1])->0 as int;
    let out = decode_group(g, last)->0;
    if g[2] == 0x3D {
        assert(encode_group(out) =~= g);
    } else {
        lemma_base64_digit_inverse(g[2]);
        if g[3] == 0x3D {
            assert(encode_group(out) =~= g);
        } else {
            lemma_base64_digit_inverse(g[3]);
            assert(encode_group(out) =~= g);
        }
    }
}

/// Number of `=` that end the text of `len` bytes.
pub open spec fn base64_padding(len: nat) -> nat {
    if len % 3 == 1 {
        2
    } else if len % 3 == 2 {
        1
    } else {
        0
    }
}

proof fn lemma_decode_groups_shift(g: Seq<u8>, t: Seq<u8>, from: nat, total: nat)
    requires
        g.len() == 4,
        t.len() == 4 * total,
        from <= total,
    ensures
        decode_groups(g + t, from + 1, total + 1) == decode_groups(t, from, total),
    decreases total - from,
{
    if from < total {
        assert((g + t).subrange(4 * (from + 1) as int, 4 * (from + 1) as int + 4) =~= t.subrange(
            4 * from as int,
            4 * from as int + 4,
        ));
        lemma_decode_groups_shift(g, t, from + 1, total);
    }
}

/// The text of one group: four bytes, none of them whitespace, `=` exactly
/// in its padding.
proof fn lemma_group_text(b: Seq<u8>)
    requires
        1 <= b.len() <= 3,
    ensures
        encode_group(b).len() == 4,
        forall|i: int| 0 <= i < 4 ==> !is_ascii_whitespace_byte(#[trigger] encode_group(b)[i]),
        forall|i: int| 0 <= i < 4 ==> (#[trigger] encode_group(b)[i] == 0x3D <==> i >= 4 - base64_padding(b.len())),
{
    let v = b[0] as int;
    lemma_base64_char(v / 4);
    if b.len() == 1 {
        lemma_base64_char((v % 4) * 16);
    } else if b.len() == 2 {
        lemma_base64_char((v % 4) * 16 + b[1] as int / 16);
        lemma_base64_char((b[1] as int % 16) * 4);
    } else {
        lemma_base64_char((v % 4) * 16 + b[1] as int / 16);
        lemma_base64_char((b[1] as int % 16) * 4 + b[2] as int / 64);
        lemma_base64_char(b[2] as int % 64);
    }
}

/// What the base64 text of a non-empty byte string is made of.
#[verifier::spinoff_prover]
#[verifier::rlimit(60)]
proof fn lemma_encode_shape(x: Seq<u8>)
    requires
        x.len() > 0,
    ensures
        base64_encode(x).len() == 4 * ((x.len() + 2) / 3),
        decode_groups(base64_encode(x), 0, (x.len() + 2) / 3) == Some(x),
        forall|i: int|
            0 <= i < base64_encode(x).len() ==> !is_ascii_whitespace_byte(#[trigger] base64_encode(x)[i]),
        forall|i: int|
            0 <= i < base64_encode(x).len() ==> (#[trigger] base64_encode(x)[i] == 0x3D <==> i
                >= base64_encode(x).len() - base64_padding(x.len())),
    decreases x.len(),
{
    let s = base64_encode(x);
    if x.len() <= 3 {
        lemma_group_round_trip(x, true);
        lemma_group_text(x);
        assert(s.subrange(0, 4) =~= s);
        assert(decode_groups(s, 1, 1) == Some(Seq::<u8>::empty()));
        assert(x + Seq::<u8>::empty() =~= x);
    } else {
        let head = x.take(3);
        let rest = x.skip(3);
        let g = encode_group(head);
        let t = base64_encode(rest);
        lemma_encode_shape(rest);
        lemma_group_text(head);
        let n = (rest.len() + 2) / 3;
        assert((x.len() + 2) / 3 == n + 1);
        assert(s == g + t);
        lemma_group_round_trip(head, false);
        assert(s.subrange(0, 4) =~= g);
        lemma_decode_groups_shift(g, t, 0, n);
        assert(head + rest =~= x);
        assert(base64_padding(x.len()) == base64_padding(rest.len()));
        assert(base64_padding(head.len()) == 0);
        assert forall|i: int| 0 <= i < s.len() implies !is_ascii_whitespace_byte(#[trigger] s[i]) && (s[i]
            == 0x3D <==> i >= s.len() - base64_padding(x.len())) by {
            if i < 4 {
                assert(s[i] == g[i]);
            } else {
                assert(s[i] == t[i - 4]);
            }
        }
    }
}

/// The base64 text of a non-empty byte string, with or without one trailing
/// line ending, decodes to that byte string when it fits the limit.
pub proof fn law_base64_text_decodes_to_its_bytes(x: Seq<u8>, ending: Seq<u8>, decoded_limit: nat)
    requires
        x.len() > 0,
        x.len() <= decoded_limit,
        ending == Seq::<u8>::empty() || ending == seq![0x0Au8] || ending == seq![0x0Du8, 0x0Au8],
    ensures
        tauri_base64_decoded(base64_encode(x) + ending, decoded_limit) == Some(x),
{
    let s = base64_encode(x);
    lemma_encode_shape(x);
    let input = s + ending;
    assert(!is_ascii_whitespace_byte(s[s.len() - 1]));
    assert(!is_ascii_whitespace_byte(s[s.len() - 2]));
    if ending.len() == 0 {
        assert(input =~= s);
    } else if ending.len() == 1 {
        assert(input[input.len() - 2] == s[s.len() - 1]);
        assert(input.take(input.len() - 1) =~= s);
    } else {
        assert(input.take(input.len() - 2) =~= s);
    }
    assert(strip_line_ending(input) == s);
    lemma_trailing_padding_bound(s);
    let p = base64_padding(x.len());
    let tp = trailing_padding(s);
    if tp > p {
        assert(s[s.len() - tp] == 0x3D);
    }
    if tp < p {
        assert(s[s.len() - 1 - tp] == 0x3D);
    }
    assert(tp == p);
    assert(!has_ascii_whitespace(s));
    assert(!has_inner_padding(s));
    assert(base64_decoded_length(s) == x.len());
}

proof fn lemma_decoded_groups_are_canonical(s: Seq<u8>, from: nat, total: nat)
    requires
        s.len() == 4 * total,
        from < total,
        decode_groups(s, from, total) is Some,
    ensures
        decode_groups(s, from, total)->0.len() > 0,
        base64_encode(decode_groups(s, from, total)->0) == s.subrange(4 * from as int, 4 * total as int),
    decreases total - from,
{
    let g = s.subrange(4 * from as int, 4 * from as int + 4);
    let last = from + 1 == total;
    lemma_group_canonical(g, last);
    let head = decode_group(g, last)->0;
    let y = decode_groups(s, from, total)->0;
    if last {
        assert(decode_groups(s, from + 1, total) == Some(Seq::<u8>::empty()));
        assert(y =~= head);
        assert(s.subrange(4 * from as int, 4 * total as int) =~= g);
    } else {
        lemma_decoded_groups_are_canonical(s, from + 1, total);
        let tail = decode_groups(s, from + 1, total)->0;
        assert(y == head + tail);
        assert(y.take(3) =~= head);
        assert(y.skip(3) =~= tail);
        assert(s.subrange(4 * from as int, 4 * total as int) =~= g + s.subrange(
            4 * (from + 1) as int,
            4 * total as int,
        ));
    }
}

/// Whatever the wrapper decoder accepts is exactly the standard padded
/// base64 text of what it returns, once one trailing line ending is removed.
pub proof fn law_accepted_base64_is_canonical(input: Seq<u8>, decoded_limit: nat)
    requires
        tauri_base64_decoded(input, decoded_limit) is Some,
    ensures
        strip_line_ending(input) == base64_encode(tauri_base64_decoded(input, decoded_limit)->0),
{
    let s = strip_line_ending(input);
    let total = s.len() / 4;
    lemma_decoded_groups_are_canonical(s, 0, total);
    assert(s.subrange(0, 4 * total as int) =~= s);
}

} // verus!
