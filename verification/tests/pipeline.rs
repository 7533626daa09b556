use mft_index::pipeline::{
    run, run_queued, run_synchronous, summarize, Consumer, ExecutionMode, MalformedReport, Producer,
    QueueItem, Summary,
};
use mft_index::record::{FileRecord, MalformedKind, MalformedRecordError, RawBuffer};
use mft_index::source::{
    status_of_code, EnumerationCursor, EnumerationError, FetchResponse, JournalDescriptor,
    BUFFER_CAPACITY, END_OF_DATA,
};

fn record(file_ref: u64, parent_ref: u64, name: &[u8]) -> Vec<u8> {
    let len = 60 + name.len();
    let mut out = vec![0u8; len];
    out[0..4].copy_from_slice(&(len as u32).to_le_bytes());
    out[8..16].copy_from_slice(&file_ref.to_le_bytes());
    out[16..24].copy_from_slice(&parent_ref.to_le_bytes());
    out[56..58].copy_from_slice(&(name.len() as u16).to_le_bytes());
    out[58..60].copy_from_slice(&60u16.to_le_bytes());
    out[60..].copy_from_slice(name);
    out
}

fn filled(token: u64, records: &[Vec<u8>]) -> FetchResponse {
    let mut bytes = token.to_le_bytes().to_vec();
    for r in records {
        bytes.extend_from_slice(r);
    }
    let n = bytes.len() as u32;
    bytes.resize(BUFFER_CAPACITY as usize, 0);
    FetchResponse::Filled { bytes, bytes_returned: n }
}

fn journal() -> JournalDescriptor {
    JournalDescriptor { max_usn: 123_456, journal_id: 77 }
}

fn source() -> Vec<FetchResponse> {
    vec![
        filled(100, &[record(10, 5, b"a\0"), record(11, 5, b"b\0")]),
        filled(200, &[record(12, 7, b"c\0"), record(13, 5, b"")]),
        filled(300, &[record(14, 7, b"d\0")]),
        FetchResponse::Failed { status: END_OF_DATA },
    ]
}

fn refs(list: &Vec<FileRecord>) -> Vec<u64> {
    list.iter().map(|r| r.file_reference_number).collect()
}

fn names(list: &Vec<FileRecord>) -> Vec<Vec<u8>> {
    list.iter().map(|r| r.file_name_bytes.clone()).collect()
}

fn assert_same(a: &Summary, b: &Summary, parents: &[u64]) {
    assert_eq!(a.records_indexed(), b.records_indexed());
    assert_eq!(a.buffers_sent(), b.buffers_sent());
    assert_eq!(a.buffers_processed(), b.buffers_processed());
    assert_eq!(a.malformed(), b.malformed());
    assert_eq!(a.failure(), b.failure());
    assert_eq!(a.completed(), b.completed());
    for p in parents {
        assert_eq!(refs(a.index().children(*p)), refs(b.index().children(*p)));
        assert_eq!(names(a.index().children(*p)), names(b.index().children(*p)));
    }
}

#[test]
fn end_of_data_status_is_38() {
    assert_eq!(END_OF_DATA, 38);
    assert_eq!(BUFFER_CAPACITY, 32 * 1024);
}

#[test]
fn status_of_code_unwraps_system_facility() {
    assert_eq!(status_of_code(0x8007_0026), 38);
    assert_eq!(status_of_code(0x8007_0005), 5);
    assert_eq!(status_of_code(0x8004_0026), 0x8004_0026);
    assert_eq!(status_of_code(38), 38);
}

#[test]
fn new_cursor_spans_the_journal() {
    let c = EnumerationCursor::new(&journal());
    assert_eq!(c.start_file_reference_number(), 0);
    assert_eq!(c.low_usn(), 0);
    assert_eq!(c.high_usn(), 123_456);
}

#[test]
fn cursor_follows_continuation_tokens() {
    let mut c = EnumerationCursor::new(&journal());
    let tokens = [0x10u64, 0x10, 0x2000, 0xffff_ffff_0000_0001];
    for t in tokens {
        let buffer = c.next_buffer(filled(t, &[record(1, 2, b"")])).unwrap().unwrap();
        assert_eq!(buffer.token(), Some(t));
        assert_eq!(buffer.bytes_returned(), 68);
        assert_eq!(c.start_file_reference_number(), t);
        assert_eq!(c.low_usn(), 0);
        assert_eq!(c.high_usn(), 123_456);
    }
}

#[test]
fn end_of_data_is_not_an_error() {
    let mut c = EnumerationCursor::new(&journal());
    c.next_buffer(filled(50, &[])).unwrap();
    let r = c.next_buffer(FetchResponse::Failed { status: END_OF_DATA });
    assert!(matches!(r, Ok(None)));
    assert_eq!(c.start_file_reference_number(), 50);
}

#[test]
fn other_status_is_fatal_and_keeps_cursor() {
    let mut c = EnumerationCursor::new(&journal());
    c.next_buffer(filled(50, &[])).unwrap();
    let r = c.next_buffer(FetchResponse::Failed { status: 5 });
    assert_eq!(r.unwrap_err(), EnumerationError::Device { status: 5 });
    assert_eq!(c.start_file_reference_number(), 50);
}

#[test]
fn response_longer_than_its_buffer_is_fatal() {
    let mut c = EnumerationCursor::new(&journal());
    let r = c.next_buffer(FetchResponse::Filled { bytes: vec![0u8; 16], bytes_returned: 17 });
    assert_eq!(r.unwrap_err(), EnumerationError::LengthBeyondBuffer { bytes_returned: 17 });
    assert_eq!(c.start_file_reference_number(), 0);
}

#[test]
fn response_without_token_is_fatal() {
    let mut c = EnumerationCursor::new(&journal());
    let r = c.next_buffer(FetchResponse::Filled { bytes: vec![1u8; 16], bytes_returned: 7 });
    assert_eq!(r.unwrap_err(), EnumerationError::MissingToken { bytes_returned: 7 });
    assert_eq!(c.start_file_reference_number(), 0);
}

#[test]
fn token_that_goes_back_is_fatal() {
    let mut c = EnumerationCursor::new(&journal());
    c.next_buffer(filled(50, &[])).unwrap();
    let r = c.next_buffer(filled(49, &[]));
    assert_eq!(r.unwrap_err(), EnumerationError::TokenWentBack { token: 49 });
    assert_eq!(c.start_file_reference_number(), 50);
}

#[test]
fn synchronous_run_builds_the_index() {
    let s = run_synchronous(&journal(), source());
    assert!(s.completed());
    assert_eq!(s.failure(), None);
    assert_eq!(s.buffers_sent(), 3);
    assert_eq!(s.buffers_processed(), 3);
    assert_eq!(s.records_indexed(), 5);
    assert!(s.malformed().is_empty());
    assert_eq!(refs(s.index().children(5)), vec![10, 11, 13]);
    assert_eq!(refs(s.index().children(7)), vec![12, 14]);
    assert!(s.index().children(9).is_empty());
    assert_eq!(names(s.index().children(7)), vec![b"c\0".to_vec(), b"d\0".to_vec()]);
}

#[test]
fn both_modes_give_the_same_index() {
    let a = run_synchronous(&journal(), source());
    let b = run_queued(&journal(), source());
    assert_same(&a, &b, &[5, 7, 9]);
    assert_eq!(b.records_indexed(), 5);
    assert_eq!(refs(b.index().children(5)), vec![10, 11, 13]);
}

#[test]
fn end_of_data_loses_no_buffer() {
    for s in [run_synchronous(&journal(), source()), run_queued(&journal(), source())] {
        assert!(s.completed());
        assert_eq!(s.failure(), None);
        assert_eq!(s.buffers_processed(), s.buffers_sent());
        assert_eq!(s.buffers_sent(), 3);
    }
}

#[test]
fn late_failure_keeps_decoded_records() {
    let responses = || {
        vec![
            filled(100, &[record(10, 5, b"")]),
            filled(200, &[record(11, 5, b"")]),
            FetchResponse::Failed { status: 1117 },
            filled(300, &[record(12, 5, b"")]),
        ]
    };
    let a = run_synchronous(&journal(), responses());
    let b = run_queued(&journal(), responses());
    assert_same(&a, &b, &[5]);
    assert_eq!(a.failure(), Some(EnumerationError::Device { status: 1117 }));
    assert!(a.completed());
    assert_eq!(a.buffers_sent(), 2);
    assert_eq!(a.buffers_processed(), 2);
    assert_eq!(a.records_indexed(), 2);
    assert_eq!(refs(a.index().children(5)), vec![10, 11]);
}

#[test]
fn malformed_buffer_is_reported_and_the_next_is_decoded() {
    let responses = || {
        let mut bad = record(21, 5, b"");
        bad[0..4].copy_from_slice(&500u32.to_le_bytes());
        vec![
            filled(100, &[record(10, 5, b"")]),
            filled(200, &[record(20, 5, b""), bad]),
            filled(300, &[record(30, 5, b"")]),
            FetchResponse::Failed { status: END_OF_DATA },
        ]
    };
    let a = run_synchronous(&journal(), responses());
    let b = run_queued(&journal(), responses());
    assert_same(&a, &b, &[5]);
    assert_eq!(a.failure(), None);
    assert_eq!(a.buffers_processed(), 3);
    assert_eq!(a.records_indexed(), 3);
    assert_eq!(refs(a.index().children(5)), vec![10, 20, 30]);
    assert_eq!(
        a.malformed(),
        &vec![MalformedReport {
            buffer_index: 1,
            error: MalformedRecordError { offset: 68, kind: MalformedKind::Overrun },
        }]
    );
}

#[test]
fn run_without_terminal_response_is_not_completed() {
    let s = run_queued(&journal(), vec![filled(100, &[record(10, 5, b"")])]);
    assert!(!s.completed());
    assert_eq!(s.failure(), None);
    assert_eq!(s.buffers_sent(), 1);
    assert_eq!(s.buffers_processed(), 1);
    let e = run_synchronous(&journal(), Vec::new());
    assert!(!e.completed());
    assert_eq!(e.records_indexed(), 0);
    assert!(!e.index().has_children(5));
}

#[test]
fn producer_sends_the_marker_once() {
    let mut p = Producer::new(&journal());
    assert!(!p.is_finished());
    assert_eq!(p.cursor().start_file_reference_number(), 0);
    assert!(matches!(p.offer(filled(64, &[])), Some(QueueItem::Buffer(_))));
    assert_eq!(p.cursor().start_file_reference_number(), 64);
    assert_eq!(p.sent(), 1);
    assert!(matches!(
        p.offer(FetchResponse::Failed { status: END_OF_DATA }),
        Some(QueueItem::EndOfStream)
    ));
    assert!(p.is_finished());
    assert_eq!(p.failure(), None);
    assert!(p.offer(filled(128, &[])).is_none());
    assert_eq!(p.cursor().start_file_reference_number(), 64);
    assert_eq!(p.sent(), 1);
}

#[test]
fn producer_keeps_the_failure() {
    let mut p = Producer::new(&journal());
    assert!(matches!(p.offer(FetchResponse::Failed { status: 5 }), Some(QueueItem::EndOfStream)));
    assert!(p.is_finished());
    assert_eq!(p.failure(), Some(EnumerationError::Device { status: 5 }));
    assert_eq!(p.sent(), 0);
}

#[test]
fn consumer_ignores_items_after_the_marker() {
    let mut c = Consumer::new();
    let mut bytes = 0u64.to_le_bytes().to_vec();
    bytes.extend_from_slice(&record(10, 5, b""));
    let item = |b: &Vec<u8>| QueueItem::Buffer(RawBuffer::new(b.clone(), b.len() as u32).unwrap());
    c.accept(item(&bytes));
    assert!(!c.is_finished());
    assert_eq!(c.index().children(5).len(), 1);
    c.accept(QueueItem::EndOfStream);
    assert!(c.is_finished());
    c.accept(item(&bytes));
    assert_eq!(c.index().children(5).len(), 1);
    let s = summarize(Producer::new(&journal()), c);
    assert_eq!(s.buffers_processed(), 1);
    assert_eq!(s.records_indexed(), 1);
    assert!(s.completed());
    assert_eq!(s.into_index().children(5).len(), 1);
}

#[test]
fn run_gives_the_same_summary_in_either_mode() {
    let a = run(ExecutionMode::Synchronous, &journal(), source());
    let b = run(ExecutionMode::ProducerConsumer, &journal(), source());
    assert_same(&a, &b, &[5, 7, 9]);
    assert_eq!(a.records_indexed(), 5);
    assert_eq!(a.buffers_sent(), 3);
    assert_eq!(refs(b.index().children(7)), vec![12, 14]);
}
