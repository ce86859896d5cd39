use nuclear_core::downloader::process::{
    record_streamed_output_bytes, supervised_process_flags, BoundedLineReader, BoundedStream,
    LineStep, StderrTail, TailBuffer, MAX_PROCESS_LINE_BYTES, MAX_STDERR_BYTES, MAX_STDERR_LINES,
};

#[test]
fn supervised_processes_start_hidden_and_suspended() {
    assert_eq!(supervised_process_flags(false), 0x0800_0004);
    assert_eq!(supervised_process_flags(true), 0x0800_4004);
}

#[test]
fn streamed_output_counts_lines_with_their_newlines() {
    let mut total = 0;
    assert!(record_streamed_output_bytes(&mut total, 9, 20).is_ok());
    assert_eq!(total, 10);
    assert!(record_streamed_output_bytes(&mut total, 9, 20).is_ok());
    assert_eq!(total, 20);
    let error = record_streamed_output_bytes(&mut total, 0, 20).unwrap_err();
    assert_eq!(total, 21);
    assert_eq!(
        error,
        "process_output_limit: inspection output exceeded the 20-byte limit"
    );
    let mut saturated = usize::MAX - 1;
    assert!(record_streamed_output_bytes(&mut saturated, usize::MAX, usize::MAX).is_ok());
    assert_eq!(saturated, usize::MAX);
}

#[test]
fn tail_keeps_the_last_lines_within_its_caps() {
    let mut tail = TailBuffer::new();
    for i in 0..(MAX_STDERR_LINES + 10) {
        tail.push(format!("line {i}"));
    }
    let text = tail.into_string();
    assert_eq!(text.lines().count(), MAX_STDERR_LINES);
    assert!(text.starts_with("line 10\n"));
    assert!(text.ends_with(&format!("line {}", MAX_STDERR_LINES + 9)));

    let mut big = TailBuffer::new();
    big.push("a".repeat(MAX_STDERR_BYTES - 1));
    big.push("bb".to_string());
    assert_eq!(big.into_string(), "bb");

    let mut huge = TailBuffer::new();
    huge.push("x".repeat(MAX_STDERR_BYTES + 1));
    assert_eq!(huge.into_string(), "");
}

#[test]
fn stderr_tail_splits_lines_and_drops_carriage_returns() {
    let mut tail = StderrTail::new();
    tail.feed(b"first\r\nsec").unwrap();
    tail.feed(b"ond\nthird").unwrap();
    assert_eq!(tail.finish(), "first\nsecond\nthird");

    let mut lossy = StderrTail::new();
    lossy.feed(&[0x66, 0xff, 0x0a]).unwrap();
    assert_eq!(lossy.finish(), "f\u{fffd}");
}

#[test]
fn stderr_tail_rejects_an_overlong_line() {
    let mut tail = StderrTail::new();
    let long = vec![b'x'; MAX_PROCESS_LINE_BYTES + 1];
    assert_eq!(
        tail.feed(&long).unwrap_err(),
        "process_output_limit: stderr contained a line larger than 64 KiB"
    );
}

#[test]
fn bounded_line_reader_assembles_lines_across_chunks() {
    let mut reader = BoundedLineReader::new(16);
    let (consumed, step) = reader.offer(b"hel");
    assert_eq!(consumed, 3);
    assert!(matches!(step, LineStep::Continue));
    let (consumed, step) = reader.offer(b"lo\r\nrest");
    assert_eq!(consumed, 4);
    assert!(matches!(step, LineStep::Line(line) if line == "hello"));

    let mut tail = BoundedLineReader::new(16);
    tail.offer(b"end");
    assert!(matches!(tail.offer(b""), (0, LineStep::End(Some(line))) if line == "end"));
    let mut empty = BoundedLineReader::new(16);
    assert!(matches!(empty.offer(b""), (0, LineStep::End(None))));

    let mut small = BoundedLineReader::new(4);
    assert!(matches!(small.offer(b"toolong\n"), (8, LineStep::TooLong)));
}

#[test]
fn bounded_stream_enforces_total_and_line_limits() {
    let mut stream = BoundedStream::new(10);
    stream.feed(b"ab\ncd").unwrap();
    assert_eq!(
        stream.feed(b"efghij").unwrap_err(),
        "process_output_limit: output exceeded the 10-byte limit"
    );
    let mut ok = BoundedStream::new(100);
    ok.feed(b"12\n34").unwrap();
    assert_eq!(ok.finish(), b"12\n34".to_vec());

    let mut lines = BoundedStream::new(MAX_PROCESS_LINE_BYTES * 2);
    assert_eq!(
        lines.feed(&vec![b'y'; MAX_PROCESS_LINE_BYTES + 1]).unwrap_err(),
        "process_output_limit: output contained a line larger than 64 KiB"
    );
}
