use parallel_downloader::decimal::{parse_decimal, push_decimal};
use parallel_downloader::error::DownloadError;
use parallel_downloader::orchestrator::{conclude, Outcome};
use parallel_downloader::planner::{calculate_chunks, Chunk};
use parallel_downloader::ratelimit::RateLimiter;
use parallel_downloader::state::{state_path, DownloadState};
use parallel_downloader::worker::{
    check_range_response, collect_failures, content_length, range_header, ChunkCursor,
};

fn spans(chunks: &[Chunk]) -> Vec<(u64, u64)> {
    chunks.iter().map(|c| (c.start, c.end)).collect()
}

#[test]
fn plan_splits_with_remainder_in_last_chunk() {
    let chunks = calculate_chunks(100, 3);
    assert_eq!(spans(&chunks), vec![(0, 32), (33, 65), (66, 99)]);
    assert!(chunks.iter().all(|c| !c.completed));
}

#[test]
fn plan_never_makes_empty_chunks() {
    let chunks = calculate_chunks(5, 8);
    assert_eq!(spans(&chunks), vec![(0, 0), (1, 1), (2, 2), (3, 3), (4, 4)]);
}

#[test]
fn plan_is_contiguous_and_covers_everything() {
    for total in 1u64..60 {
        for n in 1u64..10 {
            let chunks = calculate_chunks(total, n);
            assert_eq!(chunks.len() as u64, n.min(total));
            assert_eq!(chunks[0].start, 0);
            assert_eq!(chunks[chunks.len() - 1].end, total - 1);
            for w in chunks.windows(2) {
                assert!(w[0].start <= w[0].end);
                assert_eq!(w[1].start, w[0].end + 1);
            }
        }
    }
}

#[test]
fn plan_of_nothing_is_empty() {
    assert!(calculate_chunks(0, 4).is_empty());
}

#[test]
fn one_worker_takes_the_whole_file() {
    assert_eq!(spans(&calculate_chunks(11, 1)), vec![(0, 10)]);
}

fn state_with_flags(url: &str, flags: &[bool]) -> DownloadState {
    let mut s = DownloadState::new(url.to_string(), 40, flags.len() as u64);
    for (i, f) in flags.iter().enumerate() {
        if *f {
            s.mark_completed(i);
        }
    }
    s
}

#[test]
fn resume_fetches_only_the_missing_chunk() {
    for missing in 0..4 {
        let flags: Vec<bool> = (0..4).map(|i| i != missing).collect();
        let loaded = state_with_flags("http://h/f", &flags);
        let layout = spans(&loaded.chunks);
        let s = DownloadState::resume_or_plan(Some(loaded), "http://h/f".to_string(), 40, 4);
        assert_eq!(s.pending_chunks(), vec![missing]);
        assert_eq!(spans(&s.chunks), layout);
        assert!(!s.is_complete());
    }
}

#[test]
fn resume_with_other_url_plans_afresh() {
    let loaded = state_with_flags("http://h/old", &[true, true]);
    let s = DownloadState::resume_or_plan(Some(loaded), "http://h/new".to_string(), 30, 3);
    assert_eq!(s.url, "http://h/new");
    assert_eq!(spans(&s.chunks), vec![(0, 9), (10, 19), (20, 29)]);
    assert_eq!(s.pending_chunks(), vec![0, 1, 2]);
}

#[test]
fn resume_without_sidecar_plans_afresh() {
    let s = DownloadState::resume_or_plan(None, "u".to_string(), 10, 2);
    assert_eq!(spans(&s.chunks), vec![(0, 4), (5, 9)]);
}

#[test]
fn marking_every_chunk_completes_the_state() {
    let mut s = DownloadState::new("u".to_string(), 10, 2);
    s.mark_completed(1);
    assert_eq!(s.pending_chunks(), vec![0]);
    s.mark_completed(0);
    assert!(s.is_complete());
    assert!(s.pending_chunks().is_empty());
}

#[test]
fn sidecar_sits_beside_the_output() {
    assert_eq!(state_path("/tmp/out.bin"), "/tmp/out.bin.state");
}

#[test]
fn range_header_names_both_ends() {
    let c = Chunk { start: 0, end: 10, completed: false };
    assert_eq!(range_header(&c), "bytes=0-10");
    let c = Chunk { start: 33, end: 18446744073709551614, completed: false };
    assert_eq!(range_header(&c), "bytes=33-18446744073709551614");
}

#[test]
fn single_chunk_scenario_fills_the_file() {
    // One worker, eleven bytes: the request asks for bytes 0-10 and the body
    // lands at offset 0; afterwards the chunk is completed.
    let mut state = DownloadState::new("http://h/hello".to_string(), 11, 1);
    let chunk = state.chunks[0].clone();
    assert_eq!(range_header(&chunk), "bytes=0-10");
    assert_eq!(check_range_response(200, chunk.start), Ok(()));
    let mut file = vec![0u8; 11];
    let mut cursor = ChunkCursor::new(&chunk);
    for part in [&b"Hello"[..], &b" World"[..]] {
        let (offset, take) = cursor.accept(part.len() as u64);
        let o = offset as usize;
        file[o..o + take as usize].copy_from_slice(&part[..take as usize]);
    }
    assert_eq!(cursor.finish(), Ok(()));
    state.mark_completed(0);
    assert_eq!(file, b"Hello World".to_vec());
    assert!(state.chunks[0].completed);
    assert!(state.is_complete());
}

#[test]
fn disjoint_writes_in_any_order_give_the_concatenation() {
    let body: Vec<u8> = (0u8..50).collect();
    let chunks = calculate_chunks(50, 4);
    let mut file = vec![0xffu8; 50];
    for c in chunks.iter().rev() {
        let mut cursor = ChunkCursor::new(c);
        let part = &body[c.start as usize..=c.end as usize];
        for piece in part.chunks(3) {
            let (offset, take) = cursor.accept(piece.len() as u64);
            let o = offset as usize;
            file[o..o + take as usize].copy_from_slice(&piece[..take as usize]);
        }
        assert_eq!(cursor.finish(), Ok(()));
    }
    assert_eq!(file, body);
}

#[test]
fn cursor_drops_bytes_past_the_chunk() {
    let c = Chunk { start: 10, end: 19, completed: false };
    let mut cursor = ChunkCursor::new(&c);
    assert_eq!(cursor.accept(4), (10, 4));
    assert_eq!(cursor.accept(10), (14, 6));
    assert_eq!(cursor.accept(5), (20, 0));
    assert_eq!(cursor.finish(), Ok(()));
}

#[test]
fn cursor_reports_a_short_body() {
    let c = Chunk { start: 10, end: 19, completed: false };
    let mut cursor = ChunkCursor::new(&c);
    cursor.accept(4);
    assert_eq!(
        cursor.finish(),
        Err(DownloadError::IncompleteBody { expected: 10, received: 4 })
    );
}

#[test]
fn size_probe_reads_content_length() {
    assert_eq!(content_length(200, Some("11")), Ok(11));
    assert_eq!(
        content_length(200, Some("18446744073709551615")),
        Ok(18446744073709551615)
    );
}

#[test]
fn size_probe_errors() {
    assert_eq!(content_length(404, Some("11")), Err(DownloadError::HttpStatus(404)));
    assert_eq!(content_length(200, None), Err(DownloadError::MissingHeader));
    assert_eq!(content_length(204, Some("1a")), Err(DownloadError::InvalidHeader));
    assert_eq!(content_length(200, Some("")), Err(DownloadError::InvalidHeader));
    assert_eq!(
        content_length(200, Some("18446744073709551616")),
        Err(DownloadError::InvalidHeader)
    );
}

#[test]
fn range_response_checks() {
    assert_eq!(check_range_response(206, 33), Ok(()));
    assert_eq!(check_range_response(200, 0), Ok(()));
    assert_eq!(check_range_response(200, 33), Err(DownloadError::RangeIgnored));
    assert_eq!(check_range_response(500, 0), Err(DownloadError::HttpStatus(500)));
}

#[test]
fn failures_are_all_collected() {
    let results = vec![
        Ok(()),
        Err(DownloadError::HttpStatus(503)),
        Ok(()),
        Err(DownloadError::Io),
    ];
    assert_eq!(
        collect_failures(&results),
        Err(vec![(1, DownloadError::HttpStatus(503)), (3, DownloadError::Io)])
    );
    assert_eq!(collect_failures(&vec![Ok(()), Ok(())]), Ok(()));
}

#[test]
fn conclusion_of_a_run() {
    assert!(matches!(conclude(&vec![Ok(()), Ok(())]), Outcome::Finished));
    assert!(matches!(
        conclude(&vec![Ok(()), Err(DownloadError::RangeIgnored), Err(DownloadError::Io)]),
        Outcome::RetrySingleStream
    ));
    match conclude(&vec![Err(DownloadError::Io), Ok(())]) {
        Outcome::Failed(v) => assert_eq!(v, vec![(0, DownloadError::Io)]),
        other => panic!("unexpected {:?}", other),
    }
}

#[test]
fn rate_limiter_grants_what_the_bucket_holds() {
    let mut rl = RateLimiter::new(1000, 0);
    assert_eq!(rl.acquire(1500, 0), 1000);
    assert_eq!(rl.acquire(100, 0), 0);
    assert_eq!(rl.wait_ms(100), 100);
    assert_eq!(rl.acquire(100, 100), 100);
    assert_eq!(rl.acquire(100, 150), 50);
}

#[test]
fn rate_limiter_window_stays_within_one_burst() {
    let mut rl = RateLimiter::new(500, 0);
    let mut total: u64 = 0;
    for t in (0..=1000).step_by(10) {
        total += rl.acquire(64, t);
    }
    assert!(total <= 500 + 500);
    assert!(total >= 500);
}

#[test]
fn rate_limiter_caps_a_long_idle_period() {
    let mut rl = RateLimiter::new(100, 0);
    assert_eq!(rl.acquire(100, 0), 100);
    assert_eq!(rl.acquire(1000, 60_000), 100);
}

#[test]
fn decimal_text_both_ways() {
    let mut s = String::from("n=");
    push_decimal(&mut s, 9071);
    assert_eq!(s, "n=9071");
    let mut z = String::new();
    push_decimal(&mut z, 0);
    assert_eq!(z, "0");
    assert_eq!(parse_decimal("9071"), Some(9071));
    assert_eq!(parse_decimal("-1"), None);
}
