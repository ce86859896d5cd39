use nuclear_core::bounded_read::{judge_bounded_read, probe_count, read_bounded, BoundedReadError};
use std::io::{Cursor, Read};

fn read_at_most<R: Read>(reader: &mut R, count: u64) -> std::io::Result<Vec<u8>> {
    let mut bytes = Vec::new();
    reader.by_ref().take(count).read_to_end(&mut bytes).map(|_| bytes)
}

#[test]
fn exact_limits_are_accepted_and_unbounded_sources_stop_after_one_probe_byte() {
    let mut exact = Cursor::new(b"bounded".to_vec());
    assert_eq!(read_bounded(|n| read_at_most(&mut exact, n), 7).unwrap(), b"bounded");
    assert_eq!(
        read_bounded(|n| read_at_most(&mut Cursor::new(Vec::<u8>::new()), n), 0).unwrap(),
        b""
    );

    let mut endless = std::io::repeat(b'x');
    assert!(matches!(
        read_bounded(|n| read_at_most(&mut endless, n), 4096),
        Err(BoundedReadError::LimitExceeded)
    ));
    let mut larger = Cursor::new(vec![b'x'; 8192]);
    assert!(matches!(
        read_bounded(|n| read_at_most(&mut larger, n), 4096),
        Err(BoundedReadError::LimitExceeded)
    ));
    assert_eq!(larger.position(), 4097);
}

struct FailingReader;

impl Read for FailingReader {
    fn read(&mut self, _buffer: &mut [u8]) -> std::io::Result<usize> {
        Err(std::io::Error::new(
            std::io::ErrorKind::PermissionDenied,
            "fixture",
        ))
    }
}

#[test]
fn io_failure_is_distinct_from_overflow_and_invalid_limits_do_not_read() {
    assert!(matches!(
        read_bounded(|n| read_at_most(&mut FailingReader, n), 8),
        Err(BoundedReadError::Io(error)) if error.kind() == std::io::ErrorKind::PermissionDenied
    ));
    let mut input = Cursor::new(vec![b'x']);
    assert!(matches!(
        read_bounded(|n| read_at_most(&mut input, n), u64::MAX),
        Err(BoundedReadError::InvalidLimit)
    ));
    assert_eq!(input.position(), 0);
}

#[test]
fn judging_a_read_compares_with_the_limit() {
    assert_eq!(judge_bounded_read(3, Ok(vec![1, 2, 3])).unwrap(), vec![1, 2, 3]);
    assert!(matches!(
        judge_bounded_read(3, Ok(vec![1, 2, 3, 4])),
        Err(BoundedReadError::LimitExceeded)
    ));
    let failed = judge_bounded_read(3, Err(std::io::Error::new(std::io::ErrorKind::Other, "x")));
    assert!(matches!(failed, Err(BoundedReadError::Io(_))));
}

#[test]
fn bounded_read_errors_have_their_messages() {
    assert_eq!(
        BoundedReadError::LimitExceeded.to_display_string(),
        "The file exceeds its read limit."
    );
    assert_eq!(
        BoundedReadError::InvalidLimit.to_display_string(),
        "The file read limit is invalid."
    );
    let io = BoundedReadError::Io(std::io::Error::new(std::io::ErrorKind::Other, "disk gone"));
    assert_eq!(io.to_display_string(), "disk gone");
}

#[test]
fn the_read_asks_for_one_byte_past_the_limit() {
    assert_eq!(probe_count(0), Some(1));
    assert_eq!(probe_count(4096), Some(4097));
    assert_eq!(probe_count(u64::MAX), None);
}
