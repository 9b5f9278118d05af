use testserver::headers::read_headers;
use testserver::server::AcceptLoop;
use testserver::server::ReadinessProbe;
use testserver::server::TestServer;
use testserver::server::MAX_PROBE_ATTEMPTS;

#[test]
fn parses_request_line_and_headers() {
    let lines = vec![
        "GET /x HTTP/1.1".to_string(),
        "Host: test".to_string(),
        "".to_string(),
    ];
    let h = read_headers(lines);
    assert_eq!(h.len(), 2);
    assert_eq!(h.path(), "/x");
    assert_eq!(h.headers(), &["Host: test".to_string()]);
}

#[test]
fn empty_input_gives_empty_sequence_and_path() {
    let h = read_headers(vec![]);
    assert_eq!(h.len(), 0);
    assert_eq!(h.path(), "");
}

#[test]
fn immediate_blank_line_gives_empty_sequence() {
    let h = read_headers(vec!["".to_string(), "Host: late".to_string()]);
    assert_eq!(h.len(), 0);
    assert_eq!(h.path(), "");
}

#[test]
fn echoed_request_line_yields_path() {
    let h = read_headers(vec!["GET /foo HTTP/1.1".to_string()]);
    assert_eq!(h.path(), "/foo");
}

#[test]
fn lines_after_blank_are_dropped() {
    let lines = vec![
        "POST /submit HTTP/1.1".to_string(),
        "Content-Length: 0".to_string(),
        "".to_string(),
        "trailing body text".to_string(),
    ];
    let h = read_headers(lines);
    assert_eq!(h.len(), 2);
    assert_eq!(h.path(), "/submit");
    assert_eq!(h.headers(), &["Content-Length: 0".to_string()]);
}

#[test]
fn doubled_space_gives_empty_second_token() {
    let h = read_headers(vec!["GET  /foo HTTP/1.1".to_string()]);
    assert_eq!(h.path(), "");
}

#[test]
fn path_at_end_of_request_line() {
    let h = read_headers(vec!["GET /only".to_string()]);
    assert_eq!(h.path(), "/only");
}

#[test]
fn handle_starts_with_flag_unset() {
    let s = TestServer::new(4567);
    assert_eq!(s.port, 4567);
    assert!(!s.done);
}

#[test]
fn shutdown_sets_flag_and_keeps_port() {
    let mut s = TestServer::new(8080);
    s.shutdown();
    assert!(s.done);
    assert_eq!(s.port, 8080);
}

#[test]
fn ten_connections_all_dispatched_independently() {
    let mut l = AcceptLoop::new();
    let mut i = 0;
    while i < 10 {
        let dispatched = l.on_accept(false);
        assert!(dispatched);
        assert!(l.is_running());
        i += 1;
    }
    assert_eq!(l.dispatched, 10);
}

#[test]
fn shutdown_connection_is_dispatched_then_loop_exits() {
    let mut l = AcceptLoop::new();
    let dispatched = l.on_accept(false);
    assert!(dispatched);
    let unblocking = l.on_accept(true);
    assert!(unblocking);
    assert!(!l.is_running());
    assert_eq!(l.dispatched, 2);
}

#[test]
fn failing_handler_does_not_block_later_connection() {
    // The first connection's handler fails on its own thread; its result
    // never reaches the loop, so the second connection is dispatched the
    // same way.
    let mut l = AcceptLoop::new();
    assert!(l.on_accept(false));
    assert!(l.on_accept(false));
    assert!(l.is_running());
    assert_eq!(l.dispatched, 2);
}

#[test]
fn probe_stops_at_first_success() {
    let mut p = ReadinessProbe::new();
    assert!(p.should_retry());
    p.record_attempt(false);
    p.record_attempt(false);
    assert!(p.should_retry());
    p.record_attempt(true);
    assert!(p.connected);
    assert!(!p.should_retry());
    assert_eq!(p.attempts, 3);
}

#[test]
fn probe_gives_up_after_budget() {
    let mut p = ReadinessProbe::new();
    let mut i = 0;
    while i < MAX_PROBE_ATTEMPTS {
        assert!(p.should_retry());
        p.record_attempt(false);
        i += 1;
    }
    assert!(!p.should_retry());
    assert!(!p.connected);
    assert_eq!(p.attempts, MAX_PROBE_ATTEMPTS);
}
