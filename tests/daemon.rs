use parallel_downloader::config::Settings;
use parallel_downloader::ipc::{
    find_frame, frame_message, Frame,
    get_filename_from_url, handle_request, invalid_json_response, Action, Command, Request,
    Response,
};
use parallel_downloader::jobs::{added_message, progress_percent, JobTable};

fn add(url: &str) -> Request {
    Request { secret: None, command: Command::Add { url: url.to_string() } }
}

#[test]
fn add_returns_increasing_ids() {
    let mut t = JobTable::new();
    let mut last = 0;
    for i in 0..5 {
        let (resp, action) = handle_request(&mut t, add(&format!("http://h/f{}", i)), &None);
        match (resp, action) {
            (Response::Success(m), Action::StartJob { id, url }) => {
                assert!(id > last);
                assert_eq!(m, format!("Added job #{}", id));
                assert_eq!(url, format!("http://h/f{}", i));
                last = id;
            }
            other => panic!("unexpected {:?}", other),
        }
    }
    assert_eq!(last, 5);
}

#[test]
fn status_lists_every_added_job() {
    let mut t = JobTable::new();
    handle_request(&mut t, add("http://h/a.iso"), &None);
    handle_request(&mut t, add("http://h/dir/"), &None);
    let (resp, action) =
        handle_request(&mut t, Request { secret: None, command: Command::Status }, &None);
    assert!(matches!(action, Action::Continue));
    match resp {
        Response::StatusList(v) => {
            let ids: Vec<usize> = v.iter().map(|j| j.id).collect();
            assert_eq!(ids, vec![1, 2]);
            assert_eq!(v[0].filename, "a.iso");
            assert_eq!(v[1].filename, "download.bin");
            assert!(v.iter().all(|j| j.state == "Starting" && j.progress_percent == 0));
        }
        other => panic!("unexpected {:?}", other),
    }
}

#[test]
fn job_states_follow_outcomes() {
    let mut t = JobTable::new();
    let a = t.add("a".to_string()).unwrap();
    let b = t.add("b".to_string()).unwrap();
    assert!(t.set_total(a, 200));
    assert!(t.record_bytes(a, 50));
    assert_eq!(t.statuses()[0].progress_percent, 25);
    assert!(t.finish_job(a, Ok(())));
    assert!(t.finish_job(b, Err("HttpStatus(404)".to_string())));
    assert!(!t.finish_job(99, Ok(())));
    let s = t.statuses();
    assert_eq!((s[0].state.as_str(), s[0].progress_percent), ("Done", 100));
    assert_eq!((s[1].state.as_str(), s[1].progress_percent), ("Failed: HttpStatus(404)", 0));
}

#[test]
fn percentages() {
    assert_eq!(progress_percent(50, 200), 25);
    assert_eq!(progress_percent(300, 200), 100);
    assert_eq!(progress_percent(5, 0), 0);
    assert_eq!(progress_percent(u64::MAX, u64::MAX), 100);
}

#[test]
fn malformed_json_gets_an_error_and_the_daemon_goes_on() {
    match invalid_json_response("expected value at line 1 column 1") {
        Response::Failure(m) => assert_eq!(m, "Invalid JSON: expected value at line 1 column 1"),
        other => panic!("unexpected {:?}", other),
    }
    let mut t = JobTable::new();
    let (resp, _) = handle_request(&mut t, add("http://h/x"), &None);
    assert!(matches!(resp, Response::Success(_)));
}

#[test]
fn wrong_secret_is_refused_before_anything_happens() {
    let mut t = JobTable::new();
    let secret = Some("s3".to_string());
    let req = Request { secret: Some("nope".to_string()), command: Command::Add { url: "u/f".to_string() } };
    let (resp, action) = handle_request(&mut t, req, &secret);
    assert!(matches!(resp, Response::Failure(ref m) if m == "Unauthorized"));
    assert!(matches!(action, Action::Continue));
    assert!(t.statuses().is_empty());
    let req = Request { secret: None, command: Command::Shutdown };
    assert!(matches!(handle_request(&mut t, req, &secret).1, Action::Continue));
    let req = Request { secret: Some("s3".to_string()), command: Command::Add { url: "u/f".to_string() } };
    assert!(matches!(handle_request(&mut t, req, &secret).1, Action::StartJob { id: 1, .. }));
}

#[test]
fn shutdown_acknowledges_and_exits() {
    let mut t = JobTable::new();
    let (resp, action) =
        handle_request(&mut t, Request { secret: None, command: Command::Shutdown }, &None);
    assert!(matches!(resp, Response::Success(ref m) if m == "Shutting down..."));
    assert!(matches!(action, Action::Exit));
}

#[test]
fn file_names_from_urls() {
    assert_eq!(get_filename_from_url("http://h/a/file.zip"), "file.zip");
    assert_eq!(get_filename_from_url("http://h/"), "download.bin");
    assert_eq!(get_filename_from_url("name"), "name");
    assert_eq!(added_message(42), "Added job #42");
}

#[test]
fn settings_resolution() {
    let mut s = Settings::default();
    assert_eq!(s.effective_threads(None), 4);
    assert_eq!(s.daemon_address(), "127.0.0.1:9090");
    assert_eq!(s.effective_rate_limit(), None);
    s.threads = Some(8);
    s.rate_limit = Some(0);
    s.daemon_addr = Some("10.0.0.1:1".to_string());
    assert_eq!(s.effective_threads(None), 8);
    assert_eq!(s.effective_threads(Some(2)), 2);
    assert_eq!(s.effective_threads(Some(0)), 1);
    assert_eq!(s.effective_rate_limit(), None);
    assert_eq!(s.daemon_address(), "10.0.0.1:1");
}

#[test]
fn frames_end_at_the_first_newline() {
    assert_eq!(find_frame(b"{\"a\":1}\nrest", 100), Frame::Complete(7));
    assert_eq!(find_frame(b"{\"a\":", 100), Frame::Incomplete);
    assert_eq!(find_frame(b"0123456789", 4), Frame::TooLong);
    assert_eq!(find_frame(b"0123\n", 4), Frame::Complete(4));
    assert_eq!(find_frame(b"", 0), Frame::Incomplete);
    assert_eq!(frame_message("\"Status\""), "\"Status\"\n");
}
