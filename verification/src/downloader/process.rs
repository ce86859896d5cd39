//! Bounded handling of a child process's output: the stderr tail that is kept
//! for error messages, line and stream limits, and the creation flags of
//! supervised processes.
use crate::text::{concat3, decimal, extend_str, string_from_chars, u64_to_string, utf8_len};
use std::collections::VecDeque;
use vstd::prelude::*;

verus! {

/// Most stderr bytes kept for an error message.
pub const MAX_STDERR_BYTES: usize = 65536;

/// Longest line of process output accepted.
pub const MAX_PROCESS_LINE_BYTES: usize = 65536;

/// Most stderr lines kept for an error message.
pub const MAX_STDERR_LINES: usize = 256;

pub const CREATE_NO_WINDOW: u32 = 0x08000000;

pub const CREATE_SUSPENDED: u32 = 0x00000004;

pub const BELOW_NORMAL_PRIORITY_CLASS: u32 = 0x00004000;

/// Process creation flags of a supervised child: no console window, created
/// suspended so it joins its job object before running, and optionally below
/// normal priority.
pub fn supervised_process_flags(below_normal_priority: bool) -> (flags: u32)
    ensures
        flags == if below_normal_priority {
            0x08004004u32
        } else {
            0x08000004u32
        },
{
    let priority: u32 = if below_normal_priority {
        BELOW_NORMAL_PRIORITY_CLASS
    } else {
        0
    };
    let flags = CREATE_NO_WINDOW | CREATE_SUSPENDED | priority;
    assert(0x08000000u32 | 0x00000004u32 | 0x00004000u32 == 0x08004004u32) by (bit_vector);
    assert(0x08000000u32 | 0x00000004u32 | 0u32 == 0x08000004u32) by (bit_vector);
    flags
}

/// Counts one more line of streamed output (its bytes and its newline) and
/// fails once the total passes `limit`.
pub fn record_streamed_output_bytes(total: &mut usize, line_bytes: usize, limit: usize) -> (res: Result<
    (),
    String,
>)
    ensures
        *final(total) == if *old(total) + line_bytes + 1 <= usize::MAX {
            (*old(total) + line_bytes + 1) as usize
        } else {
            usize::MAX
        },
        res is Ok <==> *final(total) <= limit,
        res matches Err(m) ==> m@ == inspection_limit_text(limit as nat),
{
    *total = total.saturating_add(line_bytes.saturating_add(1));
    if *total > limit {
        Err(limit_exceeded_message(limit))
    } else {
        Ok(())
    }
}

/// The error for streamed inspection output that passed `limit` bytes.
pub open spec fn inspection_limit_text(limit: nat) -> Seq<char> {
    "process_output_limit: inspection output exceeded the "@ + decimal(limit) + "-byte limit"@
}

fn limit_exceeded_message(limit: usize) -> (m: String)
    ensures
        m@ == inspection_limit_text(limit as nat),
{
    let n = u64_to_string(limit as u64);
    concat3("process_output_limit: inspection output exceeded the ", n.as_str(), "-byte limit")
}

#[verifier::external_type_specification]
#[verifier::external_body]
pub struct ExJoinError(tokio::task::JoinError);

pub const STDERR_READER_STOPPED: &'static str =
    "process_output_failed: stderr reader stopped unexpectedly";

/// The stderr reader's own result, or an error when its task did not finish.
pub fn flatten_stderr_result(result: Result<Result<String, String>, tokio::task::JoinError>) -> (res: Result<
    String,
    String,
>)
    ensures
        match result {
            Ok(inner) => res == inner,
            Err(_) => res matches Err(m) && m@ == STDERR_READER_STOPPED@,
        },
{
    match result {
        Ok(inner) => inner,
        Err(_) => Err(STDERR_READER_STOPPED.to_owned()),
    }
}

/// Total UTF-8 bytes of a list of lines.
pub open spec fn lines_bytes(lines: Seq<Seq<char>>) -> nat
    decreases lines.len(),
{
    if lines.len() == 0 {
        0
    } else {
        utf8_len(lines[0]) + lines_bytes(lines.drop_first())
    }
}

/// The lines a tail keeps: the oldest are dropped until at most
/// [`MAX_STDERR_LINES`] lines of at most [`MAX_STDERR_BYTES`] bytes remain.
pub open spec fn tail_keep(lines: Seq<Seq<char>>) -> Seq<Seq<char>>
    decreases lines.len(),
{
    if lines.len() > 0 && (lines.len() > MAX_STDERR_LINES || lines_bytes(lines) > MAX_STDERR_BYTES) {
        tail_keep(lines.drop_first())
    } else {
        lines
    }
}

proof fn lemma_lines_bytes_push(lines: Seq<Seq<char>>, line: Seq<char>)
    ensures
        lines_bytes(lines.push(line)) == lines_bytes(lines) + utf8_len(line),
    decreases lines.len(),
{
    if lines.len() == 0 {
        assert(lines.push(line).drop_first() =~= Seq::<Seq<char>>::empty());
        assert(lines_bytes(Seq::<Seq<char>>::empty()) == 0);
    } else {
        assert(lines.push(line).drop_first() =~= lines.drop_first().push(line));
        lemma_lines_bytes_push(lines.drop_first(), line);
    }
}

/// The lines are over the line cap or the byte cap.
pub open spec fn over_caps(lines: Seq<Seq<char>>) -> bool {
    lines.len() > MAX_STDERR_LINES || lines_bytes(lines) > MAX_STDERR_BYTES
}

/// What a tail holds after the lines of `pushed` were pushed in order onto an
/// empty one.
pub open spec fn tail_after(pushed: Seq<Seq<char>>) -> Seq<Seq<char>>
    decreases pushed.len(),
{
    if pushed.len() == 0 {
        Seq::empty()
    } else {
        tail_keep(tail_after(pushed.drop_last()).push(pushed.last()))
    }
}

proof fn lemma_over_caps_push(lines: Seq<Seq<char>>, line: Seq<char>)
    requires
        over_caps(lines),
    ensures
        over_caps(lines.push(line)),
{
    lemma_lines_bytes_push(lines, line);
}

/// Dropping the oldest lines first and pushing afterwards keeps the same tail.
proof fn lemma_tail_keep_push(lines: Seq<Seq<char>>, line: Seq<char>)
    ensures
        tail_keep(tail_keep(lines).push(line)) == tail_keep(lines.push(line)),
    decreases lines.len(),
{
    if lines.len() > 0 && over_caps(lines) {
        lemma_over_caps_push(lines, line);
        assert(lines.push(line).drop_first() =~= lines.drop_first().push(line));
        lemma_tail_keep_push(lines.drop_first(), line);
    }
}

/// `tail_keep` keeps a suffix within both caps, and every longer suffix is
/// over a cap.
proof fn lemma_tail_keep_is_longest_capped_suffix(lines: Seq<Seq<char>>)
    ensures
        exists|k: int|
            0 <= k <= lines.len() && tail_keep(lines) == lines.skip(k) && (forall|j: int|
                0 <= j < k ==> #[trigger] over_caps(lines.skip(j))),
        !over_caps(tail_keep(lines)),
    decreases lines.len(),
{
    if lines.len() > 0 && over_caps(lines) {
        let rest = lines.drop_first();
        lemma_tail_keep_is_longest_capped_suffix(rest);
        let k = choose|k: int|
            0 <= k <= rest.len() && tail_keep(rest) == rest.skip(k) && (forall|j: int|
                0 <= j < k ==> #[trigger] over_caps(rest.skip(j)));
        assert(rest.skip(k) =~= lines.skip(k + 1));
        assert forall|j: int| 0 <= j < k + 1 implies #[trigger] over_caps(lines.skip(j)) by {
            if j == 0 {
                assert(lines.skip(0) =~= lines);
            } else {
                assert(lines.skip(j) =~= rest.skip(j - 1));
            }
        }
    } else {
        assert(lines.skip(0) =~= lines);
        if lines.len() == 0 {
            assert(lines_bytes(lines) == 0);
        }
    }
}

/// A tail fed line by line keeps exactly the longest suffix of all the lines
/// pushed that is within [`MAX_STDERR_LINES`] lines and [`MAX_STDERR_BYTES`]
/// bytes: only the oldest lines are ever dropped.
pub proof fn law_tail_keeps_the_longest_capped_suffix(pushed: Seq<Seq<char>>)
    ensures
        tail_after(pushed) == tail_keep(pushed),
        exists|k: int|
            0 <= k <= pushed.len() && tail_after(pushed) == pushed.skip(k) && (forall|j: int|
                0 <= j < k ==> #[trigger] over_caps(pushed.skip(j))),
        tail_after(pushed).len() <= MAX_STDERR_LINES,
        lines_bytes(tail_after(pushed)) <= MAX_STDERR_BYTES,
    decreases pushed.len(),
{
    if pushed.len() > 0 {
        law_tail_keeps_the_longest_capped_suffix(pushed.drop_last());
        lemma_tail_keep_push(pushed.drop_last(), pushed.last());
        assert(pushed.drop_last().push(pushed.last()) =~= pushed);
    } else {
        assert(tail_keep(pushed) == pushed);
    }
    lemma_tail_keep_is_longest_capped_suffix(pushed);
}

impl TailBuffer {
    /// A buffer built by `new` and then `push` of each line of `pushed` holds
    /// the longest suffix of `pushed` within the caps (only the oldest lines
    /// were dropped), and its byte count is the total byte length of the
    /// lines it holds.
    pub proof fn law_tail_buffer_holds_the_longest_capped_suffix(self, pushed: Seq<Seq<char>>)
        requires
            self.wf(),
            self.lines_view() == tail_after(pushed),
        ensures
            exists|k: int|
                0 <= k <= pushed.len() && self.lines_view() == pushed.skip(k) && (forall|j: int|
                    0 <= j < k ==> #[trigger] over_caps(pushed.skip(j))),
            self.lines_view().len() <= MAX_STDERR_LINES,
            self.byte_count() == lines_bytes(self.lines_view()),
            self.byte_count() <= MAX_STDERR_BYTES,
    {
        law_tail_keeps_the_longest_capped_suffix(pushed);
    }
}

/// The last lines of a process's stderr, within the line and byte caps.
pub struct TailBuffer {
    lines: VecDeque<String>,
    bytes: usize,
}

impl TailBuffer {
    pub closed spec fn lines_view(&self) -> Seq<Seq<char>> {
        self.lines@.map_values(|s: String| s@)
    }

    /// The byte count the buffer keeps of its lines.
    pub closed spec fn byte_count(&self) -> nat {
        self.bytes as nat
    }

    pub closed spec fn wf(&self) -> bool {
        &&& self.bytes == lines_bytes(self.lines_view())
        &&& self.lines_view().len() <= MAX_STDERR_LINES
        &&& self.bytes <= MAX_STDERR_BYTES
    }

    pub fn new() -> (t: TailBuffer)
        ensures
            t.wf(),
            t.lines_view().len() == 0,
            t.lines_view() == tail_after(Seq::empty()),
    {
        let t = TailBuffer { lines: VecDeque::new(), bytes: 0 };
        proof {
            assert(t.lines_view() =~= Seq::<Seq<char>>::empty());
        }
        t
    }

    /// Appends a line, then drops the oldest lines until the caps hold again.
    pub fn push(&mut self, line: String)
        requires
            old(self).wf(),
            utf8_len(line@) <= isize::MAX,
        ensures
            final(self).wf(),
            final(self).lines_view() == tail_keep(old(self).lines_view().push(line@)),
            forall|pushed: Seq<Seq<char>>|
                old(self).lines_view() == tail_after(pushed) ==> final(self).lines_view() == tail_after(
                    #[trigger] pushed.push(line@),
                ),
    {
        proof {
            assert forall|pushed: Seq<Seq<char>>| #[trigger] pushed.push(line@).drop_last() == pushed by {
                assert(pushed.push(line@).drop_last() =~= pushed);
            }
        }
        let ghost all = self.lines_view().push(line@);
        proof {
            lemma_lines_bytes_push(self.lines_view(), line@);
        }
        let n = crate::text::str_byte_len(line.as_str());
        let mut bytes: usize = self.bytes + n;
        self.lines.push_back(line);
        proof {
            assert(self.lines_view() =~= all);
        }
        while self.lines.len() > MAX_STDERR_LINES || bytes > MAX_STDERR_BYTES
            invariant
                bytes == lines_bytes(self.lines_view()),
                tail_keep(self.lines_view()) == tail_keep(all),
            ensures
                bytes == lines_bytes(self.lines_view()),
                tail_keep(all) == self.lines_view(),
                self.lines_view().len() <= MAX_STDERR_LINES,
                bytes <= MAX_STDERR_BYTES,
            decreases self.lines@.len(),
        {
            let ghost before = self.lines_view();
            match self.lines.pop_front() {
                Some(removed) => {
                    proof {
                        assert(self.lines_view() =~= before.drop_first());
                        assert(before[0] == removed@);
                    }
                    bytes = bytes - crate::text::str_byte_len(removed.as_str());
                },
                None => {
                    proof {
                        assert(before.len() == 0);
                        assert(lines_bytes(before) == 0);
                        assert(tail_keep(before) == before);
                    }
                    break;
                },
            }
        }
        self.bytes = bytes;
        proof {
            if self.lines_view().len() == 0 {
                assert(lines_bytes(self.lines_view()) == 0);
            }
        }
    }

    /// The kept lines joined with newlines.
    pub fn into_string(self) -> (s: String)
        ensures
            s@ == crate::text::join_with(self.lines_view(), "\n"@),
    {
        let ghost lines = self.lines_view();
        let mut out: Vec<char> = Vec::new();
        let mut i: usize = 0;
        while i < self.lines.len()
            invariant
                i <= lines.len(),
                lines == self.lines_view(),
                out@ == crate::text::join_with(lines.take(i as int), "\n"@),
            decreases lines.len() - i,
        {
            proof {
                assert(lines.take(i + 1).drop_last() =~= lines.take(i as int));
                assert(lines.take(i + 1).last() == self.lines@[i as int]@);
            }
            if i > 0 {
                extend_str(&mut out, "\n");
            }
            extend_str(&mut out, self.lines[i].as_str());
            proof {
                if i == 0 {
                    assert(out@ =~= lines.take(1)[0]);
                }
            }
            i += 1;
        }
        proof {
            assert(lines.take(lines.len() as int) =~= lines);
        }
        string_from_chars(out.as_slice())
    }
}

/// Text of bytes decoded as UTF-8 with every invalid sequence replaced by
/// U+FFFD, as `String::from_utf8_lossy` decodes them.
pub uninterp spec fn lossy_text(bytes: Seq<u8>) -> Seq<char>;

/// `String::from_utf8_lossy`. Valid runs keep their bytes and each invalid
/// sequence of at least one byte becomes one three-byte U+FFFD, so the text
/// is at most three times as long as the bytes.
#[verifier::external_body]
fn decode_lossy(bytes: &[u8]) -> (s: String)
    ensures
        s@ == lossy_text(bytes@),
        utf8_len(s@) <= 3 * bytes@.len(),
{
    String::from_utf8_lossy(bytes).into_owned()
}

pub const STDERR_LINE_TOO_LONG: &'static str =
    "process_output_limit: stderr contained a line larger than 64 KiB";

/// A completed line without its line feed and one carriage return before it.
pub open spec fn strip_cr(line: Seq<u8>) -> Seq<u8> {
    if line.len() > 0 && line.last() == 13u8 {
        line.drop_last()
    } else {
        line
    }
}

/// The stderr tail and the unfinished line after one more byte, or `None`
/// when a line grows past [`MAX_PROCESS_LINE_BYTES`].
pub open spec fn stderr_byte(tail: Seq<Seq<char>>, line: Seq<u8>, b: u8) -> Option<(Seq<Seq<char>>, Seq<u8>)> {
    if b == 10u8 {
        Some((tail_keep(tail.push(lossy_text(strip_cr(line)))), Seq::<u8>::empty()))
    } else if line.len() < MAX_PROCESS_LINE_BYTES {
        Some((tail, line.push(b)))
    } else {
        None
    }
}

/// The stderr tail and the unfinished line after a chunk of bytes.
pub open spec fn stderr_feed(tail: Seq<Seq<char>>, line: Seq<u8>, chunk: Seq<u8>) -> Option<(Seq<Seq<char>>, Seq<u8>)>
    decreases chunk.len(),
{
    if chunk.len() == 0 {
        Some((tail, line))
    } else {
        match stderr_byte(tail, line, chunk[0]) {
            None => None,
            Some((t, l)) => stderr_feed(t, l, chunk.drop_first()),
        }
    }
}

/// Splits a process's stderr into lines and keeps their tail.
pub struct StderrTail {
    tail: TailBuffer,
    line: Vec<u8>,
}

impl StderrTail {
    pub closed spec fn wf(&self) -> bool {
        self.tail.wf() && self.line@.len() <= MAX_PROCESS_LINE_BYTES
    }

    pub closed spec fn tail_view(&self) -> Seq<Seq<char>> {
        self.tail.lines_view()
    }

    pub closed spec fn line_view(&self) -> Seq<u8> {
        self.line@
    }

    pub fn new() -> (s: StderrTail)
        ensures
            s.wf(),
            s.tail_view().len() == 0,
            s.line_view().len() == 0,
    {
        StderrTail { tail: TailBuffer::new(), line: Vec::new() }
    }

    /// Takes the next bytes read from stderr; fails on a line longer than
    /// [`MAX_PROCESS_LINE_BYTES`].
    pub fn feed(&mut self, chunk: &[u8]) -> (res: Result<(), String>)
        requires
            old(self).wf(),
        ensures
            final(self).wf(),
            match stderr_feed(old(self).tail_view(), old(self).line_view(), chunk@) {
                Some((t, l)) => res is Ok && final(self).tail_view() == t && final(self).line_view() == l,
                None => res matches Err(m) && m@ == STDERR_LINE_TOO_LONG@,
            },
    {
        let ghost whole = stderr_feed(self.tail_view(), self.line_view(), chunk@);
        let mut i: usize = 0;
        proof {
            assert(chunk@.skip(0) =~= chunk@);
        }
        while i < chunk.len()
            invariant
                i <= chunk@.len(),
                self.wf(),
                whole == stderr_feed(self.tail_view(), self.line_view(), chunk@.skip(i as int)),
                whole == stderr_feed(old(self).tail_view(), old(self).line_view(), chunk@),
            decreases chunk@.len() - i,
        {
            let b = chunk[i];
            proof {
                assert(chunk@.skip(i as int)[0] == b);
                assert(chunk@.skip(i as int).drop_first() =~= chunk@.skip(i + 1));
            }
            if b == 10u8 {
                let n = self.line.len();
                if n > 0 && self.line[n - 1] == 13u8 {
                    self.line.pop();
                }
                let text = decode_lossy(self.line.as_slice());
                self.tail.push(text);
                self.line.clear();
            } else if self.line.len() < MAX_PROCESS_LINE_BYTES {
                self.line.push(b);
            } else {
                proof {
                    assert(stderr_byte(self.tail_view(), self.line_view(), b) is None);
                    assert(whole is None);
                }
                return Err(STDERR_LINE_TOO_LONG.to_owned());
            }
            i += 1;
        }
        Ok(())
    }

    /// The kept tail once stderr has ended, with an unfinished last line.
    pub fn finish(self) -> (s: String)
        requires
            self.wf(),
        ensures
            s@ == crate::text::join_with(
                if self.line_view().len() > 0 {
                    tail_keep(self.tail_view().push(lossy_text(self.line_view())))
                } else {
                    self.tail_view()
                },
                "\n"@,
            ),
    {
        let mut tail = self.tail;
        if self.line.len() > 0 {
            let text = decode_lossy(self.line.as_slice());
            tail.push(text);
        }
        tail.into_string()
    }
}

/// What a bounded line read decided about the buffered bytes it was offered.
pub enum LineStep {
    /// Keep reading: no line feed yet.
    Continue,
    /// A complete line, without its line ending.
    Line(String),
    /// The stream ended; the unfinished line, if any bytes were read.
    End(Option<String>),
    /// The line grew past the limit.
    TooLong,
}

/// Where the first line feed of `available` ends, or its whole length.
pub open spec fn take_len(available: Seq<u8>) -> nat {
    if exists|k: int| 0 <= k < available.len() && available[k] == 10u8 {
        (choose|k: int|
            0 <= k < available.len() && available[k] == 10u8 && forall|j: int|
                0 <= j < k ==> available[j] != 10u8) as nat + 1
    } else {
        available.len()
    }
}

/// The bytes of a completed line without its line feed and carriage return.
pub open spec fn line_body(bytes: Seq<u8>) -> Seq<u8> {
    strip_cr(if bytes.len() > 0 && bytes.last() == 10u8 {
        bytes.drop_last()
    } else {
        bytes
    })
}

/// Reads one line of at most `max_bytes` bytes from buffered output.
pub struct BoundedLineReader {
    bytes: Vec<u8>,
    max_bytes: usize,
}

impl BoundedLineReader {
    pub closed spec fn bytes_view(&self) -> Seq<u8> {
        self.bytes@
    }

    pub closed spec fn max_view(&self) -> nat {
        self.max_bytes as nat
    }

    pub fn new(max_bytes: usize) -> (r: BoundedLineReader)
        ensures
            r.bytes_view().len() == 0,
            r.max_view() == max_bytes,
    {
        BoundedLineReader { bytes: Vec::new(), max_bytes }
    }

    /// Offers the bytes that the buffered reader holds; returns how many of
    /// them to consume and what was decided. An empty offer means the stream
    /// ended.
    pub fn offer(&mut self, available: &[u8]) -> (res: (usize, LineStep))
        requires
            old(self).bytes_view().len() <= old(self).max_view(),
        ensures
            final(self).max_view() == old(self).max_view(),
            final(self).bytes_view().len() <= final(self).max_view(),
            available@.len() == 0 ==> res.0 == 0 && (match res.1 {
                LineStep::End(o) => if old(self).bytes_view().len() == 0 {
                    o is None
                } else {
                    o matches Some(t) && t@ == lossy_text(old(self).bytes_view())
                },
                _ => false,
            }),
            available@.len() > 0 ==> res.0 == take_len(available@) && ({
                let taken = available@.take(take_len(available@) as int);
                if old(self).bytes_view().len() + taken.len() > old(self).max_view() {
                    res.1 is TooLong
                } else if taken.last() == 10u8 {
                    res.1 matches LineStep::Line(t) && t@ == lossy_text(
                        line_body(old(self).bytes_view() + taken),
                    )
                } else {
                    res.1 is Continue && final(self).bytes_view() == old(self).bytes_view() + taken
                }
            }),
    {
        if available.len() == 0 {
            if self.bytes.len() == 0 {
                return (0, LineStep::End(None));
            }
            return (0, LineStep::End(Some(decode_lossy(self.bytes.as_slice()))));
        }
        let mut k: usize = 0;
        while k < available.len() && available[k] != 10u8
            invariant
                k <= available@.len(),
                forall|j: int| 0 <= j < k ==> available@[j] != 10u8,
            decreases available@.len() - k,
        {
            k += 1;
        }
        let take = if k < available.len() {
            k + 1
        } else {
            available.len()
        };
        proof {
            if k < available.len() {
                assert(available@[k as int] == 10u8);
                let c = choose|c: int|
                    0 <= c < available@.len() && available@[c] == 10u8 && forall|j: int|
                        0 <= j < c ==> available@[j] != 10u8;
                assert(c == k);
            }
        }
        if take > self.max_bytes || self.bytes.len() > self.max_bytes - take {
            return (take, LineStep::TooLong);
        }
        let mut j: usize = 0;
        let ghost start = self.bytes@;
        while j < take
            invariant
                j <= take,
                take <= available@.len(),
                self.bytes@ == start + available@.take(j as int),
                self.max_bytes == old(self).max_bytes,
            decreases take - j,
        {
            self.bytes.push(available[j]);
            proof {
                assert(available@.take(j + 1) =~= available@.take(j as int).push(available@[j as int]));
                assert(start + available@.take(j + 1) =~= (start + available@.take(j as int)).push(available@[j as int]));
            }
            j += 1;
        }
        if available[take - 1] == 10u8 {
            let ghost full = self.bytes@;
            self.bytes.pop();
            let n = self.bytes.len();
            if n > 0 && self.bytes[n - 1] == 13u8 {
                self.bytes.pop();
            }
            proof {
                assert(full.last() == 10u8);
                assert(self.bytes@ =~= line_body(full));
            }
            let text = decode_lossy(self.bytes.as_slice());
            self.bytes.clear();
            return (take, LineStep::Line(text));
        }
        (take, LineStep::Continue)
    }
}

/// Reads a whole output stream of at most `max_bytes` bytes whose lines stay
/// within [`MAX_PROCESS_LINE_BYTES`].
pub struct BoundedStream {
    retained: Vec<u8>,
    total: usize,
    current_line: usize,
    max_bytes: usize,
}

/// Length of the unfinished line after a chunk, or `None` when a line passes
/// [`MAX_PROCESS_LINE_BYTES`].
pub open spec fn line_run_after(current: nat, chunk: Seq<u8>) -> Option<nat>
    decreases chunk.len(),
{
    if chunk.len() == 0 {
        Some(current)
    } else if chunk[0] == 10u8 {
        line_run_after(0, chunk.drop_first())
    } else if current + 1 > MAX_PROCESS_LINE_BYTES {
        None
    } else {
        line_run_after(current + 1, chunk.drop_first())
    }
}

pub const STREAM_LINE_TOO_LONG: &'static str =
    "process_output_limit: output contained a line larger than 64 KiB";

/// The error for process output that passed `max_bytes` bytes.
pub open spec fn stream_limit_text(max_bytes: nat) -> Seq<char> {
    "process_output_limit: output exceeded the "@ + decimal(max_bytes) + "-byte limit"@
}

fn stream_limit_message(max_bytes: usize) -> (m: String)
    ensures
        m@ == stream_limit_text(max_bytes as nat),
{
    let n = u64_to_string(max_bytes as u64);
    concat3("process_output_limit: output exceeded the ", n.as_str(), "-byte limit")
}

impl BoundedStream {
    pub closed spec fn retained_view(&self) -> Seq<u8> {
        self.retained@
    }

    pub closed spec fn wf(&self) -> bool {
        &&& self.retained@.len() == self.total
        &&& self.total <= self.max_bytes
        &&& self.current_line <= MAX_PROCESS_LINE_BYTES
    }

    pub closed spec fn line_view(&self) -> nat {
        self.current_line as nat
    }

    pub closed spec fn max_view(&self) -> nat {
        self.max_bytes as nat
    }

    pub fn new(max_bytes: usize) -> (s: BoundedStream)
        ensures
            s.wf(),
            s.retained_view().len() == 0,
            s.line_view() == 0,
            s.max_view() == max_bytes,
    {
        BoundedStream { retained: Vec::new(), total: 0, current_line: 0, max_bytes }
    }

    /// Takes the next chunk read from the stream: it fails when the stream
    /// passes its byte limit or holds a line that is too long, and otherwise
    /// keeps the chunk.
    pub fn feed(&mut self, chunk: &[u8]) -> (res: Result<(), String>)
        requires
            old(self).wf(),
        ensures
            final(self).max_view() == old(self).max_view(),
            old(self).retained_view().len() + chunk@.len() > old(self).max_view() ==> (res matches Err(m)
                && m@ == stream_limit_text(old(self).max_view())),
            old(self).retained_view().len() + chunk@.len() <= old(self).max_view() ==> match line_run_after(
                old(self).line_view(),
                chunk@,
            ) {
                None => res matches Err(m) && m@ == STREAM_LINE_TOO_LONG@,
                Some(n) => res is Ok && final(self).wf() && final(self).retained_view()
                    == old(self).retained_view() + chunk@ && final(self).line_view() == n,
            },
    {
        if chunk.len() > self.max_bytes - self.total {
            self.total = self.total.saturating_add(chunk.len());
            return Err(stream_limit_message(self.max_bytes));
        }
        let mut current = self.current_line;
        let mut i: usize = 0;
        proof {
            assert(chunk@.skip(0) =~= chunk@);
        }
        while i < chunk.len()
            invariant
                i <= chunk@.len(),
                current <= MAX_PROCESS_LINE_BYTES,
                self.max_bytes == old(self).max_bytes,
                self.total == old(self).total,
                self.retained@ == old(self).retained@,
                self.current_line == old(self).current_line,
                old(self).wf(),
                chunk@.len() <= self.max_bytes - self.total,
                line_run_after(old(self).current_line as nat, chunk@) == line_run_after(
                    current as nat,
                    chunk@.skip(i as int),
                ),
            decreases chunk@.len() - i,
        {
            proof {
                assert(chunk@.skip(i as int)[0] == chunk@[i as int]);
                assert(chunk@.skip(i as int).drop_first() =~= chunk@.skip(i + 1));
            }
            if chunk[i] == 10u8 {
                current = 0;
            } else {
                if current + 1 > MAX_PROCESS_LINE_BYTES {
                    return Err(STREAM_LINE_TOO_LONG.to_owned());
                }
                current = current + 1;
            }
            i += 1;
        }
        let mut j: usize = 0;
        let ghost start = self.retained@;
        while j < chunk.len()
            invariant
                j <= chunk@.len(),
                self.retained@ == start + chunk@.take(j as int),
                self.max_bytes == old(self).max_bytes,
                self.total == old(self).total,
                chunk@.len() <= self.max_bytes - self.total,
            decreases chunk@.len() - j,
        {
            self.retained.push(chunk[j]);
            proof {
                assert(start + chunk@.take(j + 1) =~= (start + chunk@.take(j as int)).push(chunk@[j as int]));
            }
            j += 1;
        }
        proof {
            assert(chunk@.take(chunk@.len() as int) =~= chunk@);
        }
        self.total = self.total + chunk.len();
        self.current_line = current;
        Ok(())
    }

    /// Everything read, once the stream has ended.
    pub fn finish(self) -> (bytes: Vec<u8>)
        ensures
            bytes@ == self.retained_view(),
    {
        self.retained
    }
}

} // verus!
