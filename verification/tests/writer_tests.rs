use md2html::writer::CHUNK_SIZE;
use md2html::writer::ChunkWriter;
use md2html::writer::progress_reports;
use md2html::writer::written_stream;

#[test]
fn round_trip_small() {
    let content: Vec<u8> = b"hello world".to_vec();
    assert_eq!(written_stream(&content), content);
}

#[test]
fn round_trip_empty() {
    let content: Vec<u8> = Vec::new();
    assert_eq!(written_stream(&content), content);
}

#[test]
fn round_trip_chunk_boundaries() {
    for n in [1usize, CHUNK_SIZE - 1, CHUNK_SIZE, CHUNK_SIZE + 1, 3 * CHUNK_SIZE + 7] {
        let content: Vec<u8> = (0..n).map(|i| (i % 251) as u8).collect();
        assert_eq!(written_stream(&content), content);
    }
}

#[test]
fn chunks_cover_content_in_order() {
    let total = 2 * CHUNK_SIZE + 5;
    let mut w = ChunkWriter::new(total);
    let mut expected_start = 0usize;
    while !w.done() {
        let (start, end) = w.next_range();
        assert_eq!(start, expected_start);
        assert!(end > start);
        assert!(end - start <= CHUNK_SIZE);
        assert!(end <= total);
        expected_start = end;
        w.advance();
    }
    assert_eq!(expected_start, total);
}

#[test]
fn percent_values_along_a_write() {
    let mut w = ChunkWriter::new(4 * CHUNK_SIZE);
    assert_eq!(w.percent(), 0);
    w.advance();
    assert_eq!(w.percent(), 25);
    w.advance();
    assert_eq!(w.percent(), 50);
    w.advance();
    w.advance();
    assert_eq!(w.percent(), 100);
}

#[test]
fn percent_of_empty_write_is_complete() {
    let w = ChunkWriter::new(0);
    assert!(w.done());
    assert_eq!(w.percent(), 100);
}

#[test]
fn reports_are_monotone_and_end_at_hundred() {
    for n in [1usize, CHUNK_SIZE, CHUNK_SIZE + 1, 10 * CHUNK_SIZE + 3] {
        let reports = progress_reports(n);
        assert!(!reports.is_empty());
        for pair in reports.windows(2) {
            assert!(pair[0] <= pair[1]);
        }
        assert_eq!(*reports.last().unwrap(), 100);
    }
}

#[test]
fn empty_write_reports_nothing() {
    let reports = progress_reports(0);
    assert!(reports.is_empty());
}

#[test]
fn reports_never_exceed_hundred() {
    let reports = progress_reports(7 * CHUNK_SIZE + 123);
    for p in &reports {
        assert!(*p <= 100);
    }
}

#[test]
fn reports_exact_values() {
    assert_eq!(progress_reports(4 * CHUNK_SIZE), vec![25u8, 50, 75, 100]);
    assert_eq!(progress_reports(CHUNK_SIZE + 1), vec![99u8, 100]);
}
