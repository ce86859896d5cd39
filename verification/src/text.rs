//! Character-level text helpers shared by the redaction, naming and validation code.
//!
//! Strings are modelled by their `Seq<char>` view; byte lengths are the UTF-8
//! encoded lengths of those views.
use vstd::prelude::*;
use vstd::std_specs::iter::IteratorSpec;
use vstd::utf8::*;
use vstd::string::StringSliceAdditionalSpecFns;

verus! {

broadcast use vstd::string::group_string_axioms;

/// Number of bytes in the UTF-8 encoding of one character.
pub open spec fn char_utf8_len(c: char) -> nat {
    if (c as u32) < 0x80 {
        1
    } else if (c as u32) < 0x800 {
        2
    } else if (c as u32) < 0x10000 {
        3
    } else {
        4
    }
}

/// Number of bytes in the UTF-8 encoding of a character sequence.
pub open spec fn utf8_len(s: Seq<char>) -> nat
    decreases s.len(),
{
    if s.len() == 0 {
        0
    } else {
        utf8_len(s.drop_last()) + char_utf8_len(s.last())
    }
}

/// Number of UTF-16 code units of one character.
pub open spec fn char_utf16_len(c: char) -> nat {
    if (c as u32) < 0x10000 {
        1
    } else {
        2
    }
}

/// Number of UTF-16 code units of a character sequence.
pub open spec fn utf16_len(s: Seq<char>) -> nat
    decreases s.len(),
{
    if s.len() == 0 {
        0
    } else {
        utf16_len(s.drop_last()) + char_utf16_len(s.last())
    }
}

pub proof fn lemma_utf8_len_concat(a: Seq<char>, b: Seq<char>)
    ensures
        utf8_len(a + b) == utf8_len(a) + utf8_len(b),
    decreases b.len(),
{
    if b.len() == 0 {
        assert(a + b =~= a);
    } else {
        lemma_utf8_len_concat(a, b.drop_last());
        assert((a + b).drop_last() =~= a + b.drop_last());
        assert((a + b).last() == b.last());
    }
}

pub proof fn lemma_utf16_len_concat(a: Seq<char>, b: Seq<char>)
    ensures
        utf16_len(a + b) == utf16_len(a) + utf16_len(b),
    decreases b.len(),
{
    if b.len() == 0 {
        assert(a + b =~= a);
    } else {
        lemma_utf16_len_concat(a, b.drop_last());
        assert((a + b).drop_last() =~= a + b.drop_last());
        assert((a + b).last() == b.last());
    }
}

pub proof fn lemma_utf8_len_push(a: Seq<char>, c: char)
    ensures
        utf8_len(a.push(c)) == utf8_len(a) + char_utf8_len(c),
{
    assert(a.push(c).drop_last() =~= a);
}

pub proof fn lemma_utf16_len_push(a: Seq<char>, c: char)
    ensures
        utf16_len(a.push(c)) == utf16_len(a) + char_utf16_len(c),
{
    assert(a.push(c).drop_last() =~= a);
}

/// A prefix never has a longer encoding than the whole sequence.
pub proof fn lemma_utf8_len_take(s: Seq<char>, k: int)
    requires
        0 <= k <= s.len(),
    ensures
        utf8_len(s.take(k)) <= utf8_len(s),
{
    lemma_utf8_len_concat(s.take(k), s.skip(k));
    assert(s.take(k) + s.skip(k) =~= s);
}

proof fn lemma_encode_scalar_len(c: char)
    ensures
        encode_scalar(c as u32).len() == char_utf8_len(c),
{
    broadcast use char_is_scalar;

    assert(is_scalar(c as u32));
}

/// The byte length that `str::len` reports equals the model's UTF-8 length.
pub proof fn lemma_encode_utf8_len(s: Seq<char>)
    ensures
        encode_utf8(s).len() == utf8_len(s),
    decreases s.len(),
{
    if s.len() == 0 {
    } else {
        lemma_encode_utf8_len(s.drop_first());
        lemma_encode_scalar_len(s[0]);
        assert(encode_utf8(s) == encode_scalar(s[0] as u32) + encode_utf8(s.drop_first()));
        lemma_utf8_len_concat(seq![s[0]], s.drop_first());
        assert(seq![s[0]] + s.drop_first() =~= s);
        assert(seq![s[0]].drop_last() =~= Seq::<char>::empty());
        assert(seq![s[0]].last() == s[0]);
        assert(utf8_len(Seq::<char>::empty()) == 0);
        assert(utf8_len(seq![s[0]]) == char_utf8_len(s[0]));
    }
}

/// Byte length of a string slice.
pub fn str_byte_len(s: &str) -> (n: usize)
    ensures
        n == utf8_len(s@),
{
    proof {
        lemma_encode_utf8_len(s@);
    }
    s.as_bytes().len()
}

/// UTF-8 byte length of one character.
pub fn char_len_utf8(c: char) -> (n: usize)
    ensures
        n == char_utf8_len(c),
{
    let v = c as u32;
    if v < 0x80 {
        1
    } else if v < 0x800 {
        2
    } else if v < 0x10000 {
        3
    } else {
        4
    }
}

/// UTF-16 code-unit length of one character.
pub fn char_len_utf16(c: char) -> (n: usize)
    ensures
        n == char_utf16_len(c),
{
    if (c as u32) < 0x10000 {
        1
    } else {
        2
    }
}

/// Appends one character to a string.
#[verifier::external_body]
pub fn push_char(s: &mut String, c: char)
    ensures
        final(s)@ == old(s)@.push(c),
{
    s.push(c);
}

/// The characters of a string slice, in order.
pub fn chars_of(s: &str) -> (res: Vec<char>)
    ensures
        res@ == s@,
{
    let mut out: Vec<char> = Vec::new();
    let mut it = s.chars();
    loop
        invariant
            it.remaining() == s@.skip(out@.len() as int),
            out@ == s@.take(out@.len() as int),
            out@.len() <= s@.len(),
        ensures
            out@ == s@,
        decreases s@.len() - out@.len(),
    {
        match it.next() {
            Some(c) => {
                out.push(c);
            },
            None => {
                assert(s@.skip(out@.len() as int).len() == 0);
                assert(out@ =~= s@);
                break;
            },
        }
    }
    out
}

/// Builds a string from a slice of characters.
pub fn string_from_chars(v: &[char]) -> (res: String)
    ensures
        res@ == v@,
{
    let mut out = String::new();
    let mut i: usize = 0;
    while i < v.len()
        invariant
            i <= v@.len(),
            out@ == v@.take(i as int),
        decreases v@.len() - i,
    {
        push_char(&mut out, v[i]);
        i += 1;
        assert(out@ =~= v@.take(i as int));
    }
    assert(v@.take(v@.len() as int) =~= v@);
    out
}

/// Copies a string slice into an owned string.
pub fn owned(s: &str) -> (res: String)
    ensures
        res@ == s@,
{
    s.to_owned()
}

/// Concatenation of two string slices.
pub fn concat2(a: &str, b: &str) -> (res: String)
    ensures
        res@ == a@ + b@,
{
    let mut out = a.to_owned();
    out.append(b);
    out
}

/// Concatenation of three string slices.
pub fn concat3(a: &str, b: &str, c: &str) -> (res: String)
    ensures
        res@ == a@ + b@ + c@,
{
    let mut out = a.to_owned();
    out.append(b);
    out.append(c);
    out
}

/// Rust's `char::is_whitespace`: the Unicode `White_Space` property.
pub open spec fn is_unicode_whitespace(c: char) -> bool {
    let v = c as u32;
    ||| 0x9 <= v <= 0xD
    ||| v == 0x20
    ||| v == 0x85
    ||| v == 0xA0
    ||| v == 0x1680
    ||| 0x2000 <= v <= 0x200A
    ||| v == 0x2028
    ||| v == 0x2029
    ||| v == 0x202F
    ||| v == 0x205F
    ||| v == 0x3000
}

pub fn char_is_whitespace(c: char) -> (res: bool)
    ensures
        res == is_unicode_whitespace(c),
{
    let v = c as u32;
    (0x9 <= v && v <= 0xD) || v == 0x20 || v == 0x85 || v == 0xA0 || v == 0x1680 || (0x2000 <= v
        && v <= 0x200A) || v == 0x2028 || v == 0x2029 || v == 0x202F || v == 0x205F || v == 0x3000
}

/// Rust's `char::is_control`: the Unicode general category `Cc`.
pub open spec fn is_unicode_control(c: char) -> bool {
    (c as u32) <= 0x1F || (0x7F <= (c as u32) && (c as u32) <= 0x9F)
}

pub fn char_is_control(c: char) -> (res: bool)
    ensures
        res == is_unicode_control(c),
{
    let v = c as u32;
    v <= 0x1F || (0x7F <= v && v <= 0x9F)
}

/// Rust's `char::is_ascii_control`.
pub open spec fn is_ascii_control(c: char) -> bool {
    (c as u32) <= 0x1F || (c as u32) == 0x7F
}

/// Rust's `char::to_ascii_lowercase`.
pub open spec fn ascii_lower_char(c: char) -> char {
    if 'A' <= c && c <= 'Z' {
        ((c as u32) + 32) as char
    } else {
        c
    }
}

/// Rust's `char::to_ascii_uppercase`.
pub open spec fn ascii_upper_char(c: char) -> char {
    if 'a' <= c && c <= 'z' {
        ((c as u32) - 32) as char
    } else {
        c
    }
}

pub open spec fn ascii_lower(s: Seq<char>) -> Seq<char> {
    s.map_values(|c: char| ascii_lower_char(c))
}

pub open spec fn ascii_upper(s: Seq<char>) -> Seq<char> {
    s.map_values(|c: char| ascii_upper_char(c))
}

pub fn lower_char(c: char) -> (r: char)
    ensures
        r == ascii_lower_char(c),
{
    if 'A' <= c && c <= 'Z' {
        let v: u32 = (c as u32) + 32;
        char_from_ascii_u32(v)
    } else {
        c
    }
}

pub fn upper_char(c: char) -> (r: char)
    ensures
        r == ascii_upper_char(c),
{
    if 'a' <= c && c <= 'z' {
        let v: u32 = (c as u32) - 32;
        char_from_ascii_u32(v)
    } else {
        c
    }
}

/// Converts an ASCII code point to its character.
fn char_from_ascii_u32(v: u32) -> (c: char)
    requires
        v < 0x80,
    ensures
        c == v as char,
{
    let b: u8 = v as u8;
    b as char
}

/// ASCII lower-casing of a character sequence (`str::to_ascii_lowercase`).
pub fn to_ascii_lower(s: &[char]) -> (res: Vec<char>)
    ensures
        res@ == ascii_lower(s@),
{
    let mut out: Vec<char> = Vec::new();
    let mut i: usize = 0;
    while i < s.len()
        invariant
            i <= s@.len(),
            out@ == ascii_lower(s@.take(i as int)),
        decreases s@.len() - i,
    {
        out.push(lower_char(s[i]));
        i += 1;
        assert(out@ =~= ascii_lower(s@.take(i as int)));
    }
    assert(s@.take(s@.len() as int) =~= s@);
    out
}

/// ASCII upper-casing of a character sequence (`str::to_ascii_uppercase`).
pub fn to_ascii_upper(s: &[char]) -> (res: Vec<char>)
    ensures
        res@ == ascii_upper(s@),
{
    let mut out: Vec<char> = Vec::new();
    let mut i: usize = 0;
    while i < s.len()
        invariant
            i <= s@.len(),
            out@ == ascii_upper(s@.take(i as int)),
        decreases s@.len() - i,
    {
        out.push(upper_char(s[i]));
        i += 1;
        assert(out@ =~= ascii_upper(s@.take(i as int)));
    }
    assert(s@.take(s@.len() as int) =~= s@);
    out
}

/// `needle` occurs in `hay` starting at position `i`.
pub open spec fn occurs_at(hay: Seq<char>, needle: Seq<char>, i: int) -> bool {
    0 <= i && i + needle.len() <= hay.len() && hay.subrange(i, i + needle.len()) == needle
}

/// `str::contains` with a string pattern.
pub open spec fn contains(hay: Seq<char>, needle: Seq<char>) -> bool {
    exists|i: int| occurs_at(hay, needle, i)
}

fn matches_at(hay: &[char], needle: &[char], i: usize) -> (res: bool)
    requires
        i + needle@.len() <= hay@.len(),
    ensures
        res == (hay@.subrange(i as int, i + needle@.len()) == needle@),
{
    let mut j: usize = 0;
    while j < needle.len()
        invariant
            i + needle@.len() <= hay@.len(),
            hay@.len() == hay.len(),
            j <= needle@.len(),
            forall|k: int| 0 <= k < j ==> hay@[i + k] == needle@[k],
        decreases needle@.len() - j,
    {
        assert(i + j < hay.len());
        if hay[i + j] != needle[j] {
            assert(hay@.subrange(i as int, i + needle@.len())[j as int] != needle@[j as int]);
            return false;
        }
        j += 1;
    }
    assert(hay@.subrange(i as int, i + needle@.len()) =~= needle@);
    true
}

/// Substring search over character sequences.
pub fn contains_chars(hay: &[char], needle: &[char]) -> (res: bool)
    ensures
        res == contains(hay@, needle@),
{
    if needle.len() > hay.len() {
        assert forall|i: int| !occurs_at(hay@, needle@, i) by {}
        return false;
    }
    if needle.len() == 0 {
        assert(hay@.subrange(0, 0) =~= needle@);
        assert(occurs_at(hay@, needle@, 0));
        return true;
    }
    let last = hay.len() - needle.len();
    let mut i: usize = 0;
    while i <= last
        invariant
            last == hay@.len() - needle@.len(),
            last < hay.len(),
            i <= last + 1,
            forall|k: int| 0 <= k < i ==> !occurs_at(hay@, needle@, k),
        decreases last + 1 - i,
    {
        if matches_at(hay, needle, i) {
            assert(occurs_at(hay@, needle@, i as int));
            return true;
        }
        i += 1;
    }
    assert forall|k: int| !occurs_at(hay@, needle@, k) by {
        if 0 <= k < i {
        }
    }
    false
}

/// Substring search with a string-slice needle.
pub fn contains_str(hay: &[char], needle: &str) -> (res: bool)
    ensures
        res == contains(hay@, needle@),
{
    let n = chars_of(needle);
    contains_chars(hay, n.as_slice())
}

/// `s` ends with `suffix`.
pub open spec fn ends_with(s: Seq<char>, suffix: Seq<char>) -> bool {
    suffix.len() <= s.len() && s.skip(s.len() - suffix.len()) == suffix
}

pub fn ends_with_chars(s: &[char], suffix: &[char]) -> (res: bool)
    ensures
        res == ends_with(s@, suffix@),
{
    if suffix.len() > s.len() {
        return false;
    }
    let start = s.len() - suffix.len();
    let r = matches_at(s, suffix, start);
    assert(s@.subrange(start as int, start + suffix@.len()) =~= s@.skip(start as int));
    r
}

/// Leading characters satisfying `p` are dropped.
pub open spec fn trim_start_by(s: Seq<char>, p: spec_fn(char) -> bool) -> Seq<char>
    decreases s.len(),
{
    if s.len() > 0 && p(s[0]) {
        trim_start_by(s.drop_first(), p)
    } else {
        s
    }
}

/// Trailing characters satisfying `p` are dropped.
pub open spec fn trim_end_by(s: Seq<char>, p: spec_fn(char) -> bool) -> Seq<char>
    decreases s.len(),
{
    if s.len() > 0 && p(s.last()) {
        trim_end_by(s.drop_last(), p)
    } else {
        s
    }
}

/// Leading and trailing characters satisfying `p` are dropped (`str::trim_matches`).
pub open spec fn trim_by(s: Seq<char>, p: spec_fn(char) -> bool) -> Seq<char> {
    trim_end_by(trim_start_by(s, p), p)
}

/// `str::trim`.
pub open spec fn trim(s: Seq<char>) -> Seq<char> {
    trim_by(s, |c: char| is_unicode_whitespace(c))
}

/// Trimming keeps a contiguous part of the input.
pub proof fn lemma_trim_start_is_suffix(s: Seq<char>, p: spec_fn(char) -> bool)
    ensures
        trim_start_by(s, p).len() <= s.len(),
        trim_start_by(s, p) == s.skip(s.len() - trim_start_by(s, p).len()),
        trim_start_by(s, p).len() > 0 ==> !p(trim_start_by(s, p)[0]),
    decreases s.len(),
{
    if s.len() > 0 && p(s[0]) {
        lemma_trim_start_is_suffix(s.drop_first(), p);
        let t = trim_start_by(s.drop_first(), p);
        assert(s.drop_first().skip(s.drop_first().len() - t.len()) =~= s.skip(s.len() - t.len()));
    } else {
        assert(s.skip(0) =~= s);
    }
}

pub proof fn lemma_trim_end_is_prefix(s: Seq<char>, p: spec_fn(char) -> bool)
    ensures
        trim_end_by(s, p).len() <= s.len(),
        trim_end_by(s, p) == s.take(trim_end_by(s, p).len() as int),
        trim_end_by(s, p).len() > 0 ==> !p(trim_end_by(s, p).last()),
    decreases s.len(),
{
    if s.len() > 0 && p(s.last()) {
        lemma_trim_end_is_prefix(s.drop_last(), p);
        let t = trim_end_by(s.drop_last(), p);
        assert(s.drop_last().take(t.len() as int) =~= s.take(t.len() as int));
    } else {
        assert(s.take(s.len() as int) =~= s);
    }
}

/// Index of the first character not satisfying `p` (spec-level characterisation).
proof fn lemma_trim_start_skip(s: Seq<char>, p: spec_fn(char) -> bool, k: int)
    requires
        0 <= k <= s.len(),
        forall|j: int| 0 <= j < k ==> p(s[j]),
    ensures
        trim_start_by(s, p) == trim_start_by(s.skip(k), p),
    decreases k,
{
    if k > 0 {
        assert(s.drop_first().skip(k - 1) =~= s.skip(k));
        lemma_trim_start_skip(s.drop_first(), p, k - 1);
    } else {
        assert(s.skip(0) =~= s);
    }
}

proof fn lemma_trim_end_take(s: Seq<char>, p: spec_fn(char) -> bool, k: int)
    requires
        0 <= k <= s.len(),
        forall|j: int| k <= j < s.len() ==> p(s[j]),
    ensures
        trim_end_by(s, p) == trim_end_by(s.take(k), p),
    decreases s.len() - k,
{
    if k < s.len() {
        assert(s.drop_last().take(k) =~= s.take(k));
        lemma_trim_end_take(s.drop_last(), p, k);
    } else {
        assert(s.take(k) =~= s);
    }
}

/// Slice bounds of the part that survives trimming with `p`; the exec
/// trimmers below share this loop shape.
pub fn trimmed_whitespace(s: &[char]) -> (res: Vec<char>)
    ensures
        res@ == trim(s@),
{
    let ghost p = |c: char| is_unicode_whitespace(c);
    let mut start: usize = 0;
    while start < s.len() && char_is_whitespace(s[start])
        invariant
            start <= s@.len(),
            forall|j: int| 0 <= j < start ==> is_unicode_whitespace(#[trigger] s@[j]),
        decreases s@.len() - start,
    {
        start += 1;
    }
    let mut end: usize = s.len();
    while end > start && char_is_whitespace(s[end - 1])
        invariant
            start <= end <= s@.len(),
            forall|j: int| end <= j < s@.len() ==> is_unicode_whitespace(#[trigger] s@[j]),
        decreases end,
    {
        end -= 1;
    }
    let out = slice_range(s, start, end);
    proof {
        lemma_trim_start_skip(s@, p, start as int);
        let rest = s@.skip(start as int);
        if start < s@.len() {
            assert(!p(rest[0]));
        }
        assert(trim_start_by(rest, p) == rest);
        lemma_trim_end_take(rest, p, (end - start) as int);
        let mid = rest.take((end - start) as int);
        assert(mid =~= s@.subrange(start as int, end as int));
        if end > start {
            assert(!p(mid.last()));
        }
        assert(trim_end_by(mid, p) == mid);
    }
    out
}

/// Trimming with the "space or dot" predicate used for file names.
pub open spec fn is_space_or_dot(c: char) -> bool {
    c == ' ' || c == '.'
}

pub open spec fn trim_space_dot(s: Seq<char>) -> Seq<char> {
    trim_by(s, |c: char| is_space_or_dot(c))
}

pub fn trimmed_space_dot(s: &[char]) -> (res: Vec<char>)
    ensures
        res@ == trim_space_dot(s@),
{
    let ghost p = |c: char| is_space_or_dot(c);
    let mut start: usize = 0;
    while start < s.len() && (s[start] == ' ' || s[start] == '.')
        invariant
            start <= s@.len(),
            forall|j: int| 0 <= j < start ==> is_space_or_dot(#[trigger] s@[j]),
        decreases s@.len() - start,
    {
        start += 1;
    }
    let mut end: usize = s.len();
    while end > start && (s[end - 1] == ' ' || s[end - 1] == '.')
        invariant
            start <= end <= s@.len(),
            forall|j: int| end <= j < s@.len() ==> is_space_or_dot(#[trigger] s@[j]),
        decreases end,
    {
        end -= 1;
    }
    let out = slice_range(s, start, end);
    proof {
        lemma_trim_start_skip(s@, p, start as int);
        let rest = s@.skip(start as int);
        if start < s@.len() {
            assert(!p(rest[0]));
        }
        assert(trim_start_by(rest, p) == rest);
        lemma_trim_end_take(rest, p, (end - start) as int);
        let mid = rest.take((end - start) as int);
        assert(mid =~= s@.subrange(start as int, end as int));
        if end > start {
            assert(!p(mid.last()));
        }
        assert(trim_end_by(mid, p) == mid);
    }
    out
}

/// Copies `s[start..end]`.
pub fn slice_range(s: &[char], start: usize, end: usize) -> (res: Vec<char>)
    requires
        start <= end <= s@.len(),
    ensures
        res@ == s@.subrange(start as int, end as int),
{
    let mut out: Vec<char> = Vec::new();
    let mut i = start;
    while i < end
        invariant
            start <= i <= end <= s@.len(),
            out@ == s@.subrange(start as int, i as int),
        decreases end - i,
    {
        out.push(s[i]);
        i += 1;
        assert(out@ =~= s@.subrange(start as int, i as int));
    }
    out
}

/// Appends all characters of `b` to `a`.
pub fn extend_chars(a: &mut Vec<char>, b: &[char])
    ensures
        final(a)@ == old(a)@ + b@,
{
    let mut i: usize = 0;
    while i < b.len()
        invariant
            i <= b@.len(),
            a@ == old(a)@ + b@.take(i as int),
        decreases b@.len() - i,
    {
        a.push(b[i]);
        i += 1;
        assert(a@ =~= old(a)@ + b@.take(i as int));
    }
    assert(b@.take(b@.len() as int) =~= b@);
}

/// Appends all characters of a string slice to `a`.
pub fn extend_str(a: &mut Vec<char>, b: &str)
    ensures
        final(a)@ == old(a)@ + b@,
{
    let v = chars_of(b);
    extend_chars(a, v.as_slice());
}

/// Every occurrence of `from` is replaced by `to` (`str::replace` with a character pattern).
pub open spec fn replace_char(s: Seq<char>, from: char, to: Seq<char>) -> Seq<char>
    decreases s.len(),
{
    if s.len() == 0 {
        Seq::empty()
    } else {
        replace_char(s.drop_last(), from, to) + (if s.last() == from {
            to
        } else {
            seq![s.last()]
        })
    }
}

pub fn replace_char_with(s: &[char], from: char, to: &str) -> (res: Vec<char>)
    ensures
        res@ == replace_char(s@, from, to@),
{
    let to_chars = chars_of(to);
    let mut out: Vec<char> = Vec::new();
    let mut i: usize = 0;
    while i < s.len()
        invariant
            i <= s@.len(),
            to_chars@ == to@,
            out@ == replace_char(s@.take(i as int), from, to@),
        decreases s@.len() - i,
    {
        let ghost before = out@;
        if s[i] == from {
            extend_chars(&mut out, to_chars.as_slice());
        } else {
            out.push(s[i]);
        }
        assert(s@.take(i + 1).drop_last() =~= s@.take(i as int));
        i += 1;
        assert(out@ =~= replace_char(s@.take(i as int), from, to@));
    }
    assert(s@.take(s@.len() as int) =~= s@);
    out
}


/// Marker appended by [`truncate_utf8`] when it shortens a text.
pub const TRUNCATION_SUFFIX: &'static str = "...[truncated]";

/// Prefix lengths never decrease in encoded size.
pub proof fn lemma_utf8_len_take_mono(s: Seq<char>, i: int, j: int)
    requires
        0 <= i <= j <= s.len(),
    ensures
        utf8_len(s.take(i)) <= utf8_len(s.take(j)),
{
    lemma_utf8_len_take(s.take(j), i);
    assert(s.take(j).take(i) =~= s.take(i));
}

/// `k` is the longest prefix of `s` whose encoding fits in `budget` bytes.
pub open spec fn is_fit_point(s: Seq<char>, budget: int, k: int) -> bool {
    &&& 0 <= k <= s.len()
    &&& utf8_len(s.take(k)) <= budget
    &&& (k == s.len() || utf8_len(s.take(k + 1)) > budget)
}

/// The number of leading characters of `s` that fit in `budget` bytes.
pub open spec fn fit_point(s: Seq<char>, budget: int) -> int {
    choose|k: int| is_fit_point(s, budget, k)
}

pub proof fn lemma_fit_point_unique(s: Seq<char>, budget: int, k1: int, k2: int)
    requires
        is_fit_point(s, budget, k1),
        is_fit_point(s, budget, k2),
    ensures
        k1 == k2,
{
    if k1 < k2 {
        lemma_utf8_len_take_mono(s, k1 + 1, k2);
    } else if k2 < k1 {
        lemma_utf8_len_take_mono(s, k2 + 1, k1);
    }
}

/// The `str` used by [`truncate_utf8`] for a given input and byte budget.
pub open spec fn truncated_utf8(s: Seq<char>, max_bytes: nat) -> Seq<char> {
    if utf8_len(s) <= max_bytes {
        s
    } else {
        let budget = if max_bytes >= TRUNCATION_SUFFIX@.len() {
            max_bytes - TRUNCATION_SUFFIX@.len()
        } else {
            0
        };
        s.take(fit_point(s, budget)) + TRUNCATION_SUFFIX@
    }
}

pub proof fn lemma_suffix_facts()
    ensures
        TRUNCATION_SUFFIX@.len() == 14,
        utf8_len(TRUNCATION_SUFFIX@) == 14,
        forall|i: int| 0 <= i < 14 ==> (TRUNCATION_SUFFIX@[i] as u32) < 0x80,
{
    reveal_strlit("...[truncated]");
    lemma_ascii_utf8_len(TRUNCATION_SUFFIX@);
}

/// An all-ASCII sequence encodes to one byte per character.
pub proof fn lemma_ascii_utf8_len(s: Seq<char>)
    requires
        forall|i: int| 0 <= i < s.len() ==> (s[i] as u32) < 0x80,
    ensures
        utf8_len(s) == s.len(),
    decreases s.len(),
{
    if s.len() > 0 {
        lemma_ascii_utf8_len(s.drop_last());
    }
}

/// Every text has a longest prefix that fits a non-negative byte budget.
pub proof fn lemma_fit_point_exists(s: Seq<char>, budget: int)
    requires
        budget >= 0,
    ensures
        is_fit_point(s, budget, fit_point(s, budget)),
    decreases s.len(),
{
    if utf8_len(s) <= budget {
        assert(s.take(s.len() as int) =~= s);
        assert(is_fit_point(s, budget, s.len() as int));
    } else {
        let t = s.drop_last();
        lemma_fit_point_exists(t, budget);
        let k = fit_point(t, budget);
        assert(t.take(k) =~= s.take(k));
        if k < t.len() {
            assert(t.take(k + 1) =~= s.take(k + 1));
        } else {
            assert(s.take(k + 1) =~= s);
        }
        assert(is_fit_point(s, budget, k));
    }
}

/// What [`truncate_utf8`] returns fits the limit, and a text that had to be
/// cut ends with the truncation marker.
pub proof fn lemma_truncated_utf8_bound(s: Seq<char>, max_bytes: nat)
    requires
        max_bytes >= 14,
    ensures
        utf8_len(truncated_utf8(s, max_bytes)) <= max_bytes,
        utf8_len(s) > max_bytes ==> truncated_utf8(s, max_bytes).skip(
            truncated_utf8(s, max_bytes).len() - TRUNCATION_SUFFIX@.len(),
        ) == TRUNCATION_SUFFIX@,
{
    lemma_suffix_facts();
    if utf8_len(s) > max_bytes {
        let budget = max_bytes - 14;
        lemma_fit_point_exists(s, budget);
        let head = s.take(fit_point(s, budget));
        lemma_utf8_len_concat(head, TRUNCATION_SUFFIX@);
        let t = head + TRUNCATION_SUFFIX@;
        assert(t.skip(t.len() - TRUNCATION_SUFFIX@.len()) =~= TRUNCATION_SUFFIX@);
    }
}

/// Caps a text at `max_bytes` of UTF-8, cutting only at a character boundary
/// and marking the cut with `...[truncated]`.
pub fn truncate_utf8(value: &str, max_bytes: usize) -> (res: String)
    ensures
        res@ == truncated_utf8(value@, max_bytes as nat),
        max_bytes >= 14 ==> utf8_len(res@) <= max_bytes,
{
    proof {
        lemma_suffix_facts();
    }
    let total = str_byte_len(value);
    if total <= max_bytes {
        return owned(value);
    }
    let chars = chars_of(value);
    let budget: usize = if max_bytes >= 14 {
        max_bytes - 14
    } else {
        0
    };
    let mut i: usize = 0;
    let mut used: usize = 0;
    let mut fits = true;
    while fits && i < chars.len()
        invariant
            i <= chars@.len(),
            chars@ == value@,
            used == utf8_len(chars@.take(i as int)),
            used <= budget,
            !fits ==> i < chars@.len() && utf8_len(chars@.take(i + 1)) > budget,
        decreases chars@.len() - i + (if fits {
            1int
        } else {
            0
        }),
    {
        let c = char_len_utf8(chars[i]);
        proof {
            lemma_utf8_len_push(chars@.take(i as int), chars@[i as int]);
            assert(chars@.take(i as int).push(chars@[i as int]) =~= chars@.take(i + 1));
        }
        if c > budget - used {
            fits = false;
        } else {
            used = used + c;
            i = i + 1;
        }
    }
    proof {
        assert(is_fit_point(value@, budget as int, i as int));
        lemma_fit_point_unique(value@, budget as int, i as int, fit_point(value@, budget as int));
    }
    let prefix = slice_range(chars.as_slice(), 0, i);
    let mut out = string_from_chars(prefix.as_slice());
    out.append(TRUNCATION_SUFFIX);
    proof {
        assert(chars@.subrange(0, i as int) =~= value@.take(i as int));
        lemma_utf8_len_concat(value@.take(i as int), TRUNCATION_SUFFIX@);
    }
    out
}


/// The ASCII digit for a value below ten.
pub open spec fn digit_char(d: nat) -> char {
    ((d + 48) as u32) as char
}

/// Decimal text of a natural number, as `to_string` renders it.
pub open spec fn decimal(n: nat) -> Seq<char>
    decreases n,
{
    if n < 10 {
        seq![digit_char(n)]
    } else {
        decimal(n / 10).push(digit_char(n % 10))
    }
}

/// Decimal text of an integer, with a leading `-` for negative values.
pub open spec fn signed_decimal(n: int) -> Seq<char> {
    if n < 0 {
        seq!['-'] + decimal((-n) as nat)
    } else {
        decimal(n as nat)
    }
}

fn digit(d: u64) -> (c: char)
    requires
        d < 10,
    ensures
        c == digit_char(d as nat),
{
    let b: u8 = (d as u8) + 48;
    b as char
}

/// `u64::to_string` as characters.
pub fn decimal_chars(n: u64) -> (res: Vec<char>)
    ensures
        res@ == decimal(n as nat),
    decreases n,
{
    if n < 10 {
        let mut v: Vec<char> = Vec::new();
        v.push(digit(n));
        assert(v@ =~= seq![digit_char(n as nat)]);
        v
    } else {
        let mut v = decimal_chars(n / 10);
        v.push(digit(n % 10));
        v
    }
}

/// `u64::to_string`.
pub fn u64_to_string(n: u64) -> (res: String)
    ensures
        res@ == decimal(n as nat),
{
    let v = decimal_chars(n);
    string_from_chars(v.as_slice())
}

/// `i64::to_string`.
pub fn i64_to_string(n: i64) -> (res: String)
    ensures
        res@ == signed_decimal(n as int),
{
    if n < 0 {
        let magnitude: u64 = if n == i64::MIN {
            9223372036854775808u64
        } else {
            (-n) as u64
        };
        let v = decimal_chars(magnitude);
        let mut out: Vec<char> = Vec::new();
        out.push('-');
        extend_chars(&mut out, v.as_slice());
        assert(out@ =~= seq!['-'] + decimal(magnitude as nat));
        string_from_chars(out.as_slice())
    } else {
        u64_to_string(n as u64)
    }
}

/// Character-wise equality of two string slices.
pub fn str_eq(a: &str, b: &str) -> (res: bool)
    ensures
        res == (a@ == b@),
{
    let x = chars_of(a);
    let y = chars_of(b);
    chars_eq(x.as_slice(), y.as_slice())
}

pub fn chars_eq(x: &[char], y: &[char]) -> (res: bool)
    ensures
        res == (x@ == y@),
{
    if x.len() != y.len() {
        return false;
    }
    let mut i: usize = 0;
    while i < x.len()
        invariant
            x@.len() == y@.len(),
            i <= x@.len(),
            forall|j: int| 0 <= j < i ==> x@[j] == y@[j],
        decreases x@.len() - i,
    {
        if x[i] != y[i] {
            return false;
        }
        i += 1;
    }
    assert(x@ =~= y@);
    true
}

/// Whether `s` equals one of the literal strings in `options`.
pub open spec fn one_of(s: Seq<char>, options: Seq<Seq<char>>) -> bool {
    exists|i: int| 0 <= i < options.len() && options[i] == s
}


/// Views of a vector of character vectors.
pub open spec fn views_of_chars(v: Seq<Vec<char>>) -> Seq<Seq<char>> {
    v.map_values(|x: Vec<char>| x@)
}

/// Views of a vector of strings.
pub open spec fn views_of_strings(v: Seq<String>) -> Seq<Seq<char>> {
    v.map_values(|x: String| x@)
}

/// The pieces of `s` between occurrences of `sep` (`str::split` with a character).
pub open spec fn split_on(s: Seq<char>, sep: char) -> Seq<Seq<char>>
    decreases s.len(),
{
    if s.len() == 0 {
        seq![Seq::empty()]
    } else {
        let prev = split_on(s.drop_last(), sep);
        if s.last() == sep {
            prev.push(Seq::empty())
        } else {
            prev.update(prev.len() - 1, prev.last().push(s.last()))
        }
    }
}

pub proof fn lemma_split_on_nonempty(s: Seq<char>, sep: char)
    ensures
        split_on(s, sep).len() >= 1,
    decreases s.len(),
{
    if s.len() > 0 {
        lemma_split_on_nonempty(s.drop_last(), sep);
    }
}

pub fn split_chars(s: &[char], sep: char) -> (res: Vec<Vec<char>>)
    ensures
        views_of_chars(res@) == split_on(s@, sep),
{
    let mut parts: Vec<Vec<char>> = Vec::new();
    let mut current: Vec<char> = Vec::new();
    let mut i: usize = 0;
    assert(s@.take(0) =~= Seq::<char>::empty());
    while i < s.len()
        invariant
            i <= s@.len(),
            views_of_chars(parts@).push(current@) == split_on(s@.take(i as int), sep),
        decreases s@.len() - i,
    {
        let ghost before = split_on(s@.take(i as int), sep);
        proof {
            lemma_split_on_nonempty(s@.take(i as int), sep);
            assert(s@.take(i + 1).drop_last() =~= s@.take(i as int));
            assert(s@.take(i + 1).last() == s@[i as int]);
        }
        if s[i] == sep {
            let done = current;
            parts.push(done);
            current = Vec::new();
            assert(views_of_chars(parts@).push(current@) =~= before.push(Seq::empty()));
        } else {
            current.push(s[i]);
            assert(views_of_chars(parts@).push(current@) =~= before.update(
                before.len() - 1,
                before.last().push(s@[i as int]),
            ));
        }
        i += 1;
    }
    parts.push(current);
    assert(s@.take(s@.len() as int) =~= s@);
    assert(views_of_chars(parts@) =~= split_on(s@, sep));
    parts
}

/// Pieces joined with a separator (`[..].join(sep)`).
pub open spec fn join_with(parts: Seq<Seq<char>>, sep: Seq<char>) -> Seq<char>
    decreases parts.len(),
{
    if parts.len() == 0 {
        Seq::empty()
    } else if parts.len() == 1 {
        parts[0]
    } else {
        join_with(parts.drop_last(), sep) + sep + parts.last()
    }
}

pub fn join_chars(parts: &Vec<Vec<char>>, sep: &str) -> (res: Vec<char>)
    ensures
        res@ == join_with(views_of_chars(parts@), sep@),
{
    let sep_chars = chars_of(sep);
    let mut out: Vec<char> = Vec::new();
    let mut i: usize = 0;
    while i < parts.len()
        invariant
            i <= parts@.len(),
            sep_chars@ == sep@,
            out@ == join_with(views_of_chars(parts@).take(i as int), sep@),
        decreases parts@.len() - i,
    {
        let ghost prefix = views_of_chars(parts@).take(i + 1);
        assert(prefix.drop_last() =~= views_of_chars(parts@).take(i as int));
        if i > 0 {
            extend_chars(&mut out, sep_chars.as_slice());
        }
        extend_chars(&mut out, parts[i].as_slice());
        proof {
            if i == 0 {
                assert(out@ =~= prefix[0]);
            }
        }
        i += 1;
    }
    assert(views_of_chars(parts@).take(parts@.len() as int) =~= views_of_chars(parts@));
    out
}

pub proof fn lemma_views_of_strings_push(v: Seq<String>, x: String)
    ensures
        views_of_strings(v.push(x)) == views_of_strings(v).push(x@),
{
    assert(views_of_strings(v.push(x)) =~= views_of_strings(v).push(x@));
}

pub proof fn lemma_views_of_strings_take(v: Seq<String>, i: int)
    requires
        0 <= i < v.len(),
    ensures
        views_of_strings(v).take(i + 1) == views_of_strings(v).take(i).push(v[i]@),
{
    assert(views_of_strings(v).take(i + 1) =~= views_of_strings(v).take(i).push(v[i]@));
}

} // verus!
