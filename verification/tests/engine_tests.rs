use egit::coordinator::{Coordinator, DownloadTask};
use egit::error::{DownloadError, FetchError};
use egit::fetch::{check_status, range_header_value, ChunkFetch, ChunkResult};
use egit::planner::ByteRange;

fn make_task(total_size: u64, worker_count: usize) -> DownloadTask {
    DownloadTask {
        source_url: String::from("http://localhost/fixture"),
        destination_path: String::from("fixture.bin"),
        total_size,
        worker_count,
    }
}

fn fixture_bytes(len: usize) -> Vec<u8> {
    let mut data = Vec::with_capacity(len);
    for i in 0..len {
        data.push((i.wrapping_mul(31).wrapping_add(i >> 8)) as u8);
    }
    data
}

/// Plays the part of a range-honoring server plus one worker: streams the
/// fixture's bytes for one range in reads of at most 8 KiB.
fn fetch_chunk(fixture: &[u8], range: &ByteRange) -> ChunkResult {
    let mut fetch = ChunkFetch::begin(range);
    let mut pos = range.start as usize;
    let end = range.end as usize;
    while pos <= end {
        let step = (end - pos + 1).min(8192);
        fetch.on_data(&fixture[pos..pos + step]);
        pos += step;
        assert_eq!(fetch.received(), pos - range.start as usize);
    }
    match fetch.finish() {
        Ok(chunk) => chunk,
        Err(_) => panic!("a complete chunk must not be rejected"),
    }
}

fn run_download(fixture: &[u8], worker_count: usize) -> Result<Vec<u8>, DownloadError> {
    let task = make_task(fixture.len() as u64, worker_count);
    let (mut coordinator, ranges) = Coordinator::start(&task).unwrap();
    for range in &ranges {
        let chunk = fetch_chunk(fixture, range);
        coordinator.on_chunk_done(chunk.index, chunk.bytes);
    }
    coordinator.finish()
}

#[test]
fn reverse_completion_order_preserves_byte_order() {
    let fixture = fixture_bytes(100_000);
    let task = make_task(fixture.len() as u64, 4);
    let (mut coordinator, ranges) = Coordinator::start(&task).unwrap();
    for range in ranges.iter().rev() {
        let chunk = fetch_chunk(&fixture, range);
        coordinator.on_chunk_done(chunk.index, chunk.bytes);
    }
    let out = coordinator.finish().unwrap();
    assert!(out == fixture);
}

#[test]
fn single_worker_output_matches_many_workers() {
    let fixture = fixture_bytes(50_001);
    let one = run_download(&fixture, 1).unwrap();
    let many = run_download(&fixture, 7).unwrap();
    assert!(one == many);
    assert!(one == fixture);
}

#[test]
fn failed_chunk_aborts_whole_download() {
    let fixture = fixture_bytes(4096);
    let task = make_task(fixture.len() as u64, 4);
    let (mut coordinator, ranges) = Coordinator::start(&task).unwrap();
    assert_eq!(ranges.len(), 4);
    for range in &ranges {
        if range.index == 2 {
            coordinator.on_chunk_failed(range.index, FetchError::Network);
        } else {
            let chunk = fetch_chunk(&fixture, range);
            coordinator.on_chunk_done(chunk.index, chunk.bytes);
        }
    }
    match coordinator.finish() {
        Err(DownloadError::ChunkFailed { index, cause }) => {
            assert_eq!(index, 2);
            assert_eq!(cause, FetchError::Network);
        }
        _ => panic!("a download with a failed chunk must fail"),
    }
}

#[test]
fn first_observed_failure_wins() {
    let task = make_task(4096, 4);
    let (mut coordinator, _ranges) = Coordinator::start(&task).unwrap();
    coordinator.on_chunk_failed(3, FetchError::Http(503));
    coordinator.on_chunk_failed(1, FetchError::Network);
    match coordinator.finish() {
        Err(DownloadError::ChunkFailed { index, cause }) => {
            assert_eq!(index, 3);
            assert_eq!(cause, FetchError::Http(503));
        }
        _ => panic!("a download with failed chunks must fail"),
    }
}

#[test]
fn zero_size_download_produces_empty_output() {
    let out = run_download(&[], 4).unwrap();
    assert!(out.is_empty());
}

#[test]
fn oversubscribed_download_reconstructs_resource() {
    let fixture = fixture_bytes(10);
    let task = make_task(10, 100);
    let (_, ranges) = Coordinator::start(&task).unwrap();
    assert_eq!(ranges.len(), 10);
    assert!(ranges.iter().all(|r| r.end >= r.start));
    let out = run_download(&fixture, 100).unwrap();
    assert!(out == fixture);
}

#[test]
fn ten_mebibyte_fixture_with_four_workers() {
    let fixture = fixture_bytes(10 * 1024 * 1024);
    let out = run_download(&fixture, 4).unwrap();
    assert_eq!(out.len(), fixture.len());
    assert!(out == fixture);
}

#[test]
fn short_body_is_rejected_as_range_not_honored() {
    let range = ByteRange { index: 0, start: 0, end: 9 };
    let mut fetch = ChunkFetch::begin(&range);
    fetch.on_data(&[1, 2, 3]);
    assert!(matches!(fetch.finish(), Err(FetchError::RangeNotHonored)));
}

#[test]
fn long_body_is_rejected_as_range_not_honored() {
    let range = ByteRange { index: 0, start: 0, end: 1 };
    let mut fetch = ChunkFetch::begin(&range);
    fetch.on_data(&[1, 2, 3]);
    assert!(matches!(fetch.finish(), Err(FetchError::RangeNotHonored)));
}

#[test]
fn status_checks() {
    assert!(check_status(206).is_ok());
    assert_eq!(check_status(200), Err(FetchError::RangeNotHonored));
    assert_eq!(check_status(204), Err(FetchError::RangeNotHonored));
    assert_eq!(check_status(404), Err(FetchError::Http(404)));
    assert_eq!(check_status(301), Err(FetchError::Http(301)));
    assert_eq!(check_status(500), Err(FetchError::Http(500)));
}

#[test]
fn range_header_names_both_bounds() {
    let range = ByteRange { index: 1, start: 25, end: 49 };
    assert_eq!(range_header_value(&range), "bytes=25-49");
    let first = ByteRange { index: 0, start: 0, end: 0 };
    assert_eq!(range_header_value(&first), "bytes=0-0");
}
