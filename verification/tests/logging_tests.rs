use dsh_desktop::logging::{has_shutdown_mark, tail_log, NORMAL_SHUTDOWN_LINE};

#[test]
fn tail_of_empty_log_reads_nothing() {
    let r = tail_log(10, 0, |_| panic!("not asked"), |_| panic!("not read"));
    assert_eq!(r.offset, 0);
    assert!(r.lines.is_empty());
    assert!(!r.truncated);
}

#[test]
fn tail_from_start_keeps_first_line() {
    let r = tail_log(0, 12, |_| panic!("not asked at the start"), |start| {
        assert_eq!(start, 0);
        "one\r\n\r\ntwo\n".to_string()
    });
    assert_eq!(r.offset, 12);
    assert_eq!(r.lines, vec!["one", "two"]);
    assert!(!r.truncated);
}

#[test]
fn tail_from_middle_drops_partial_line() {
    let r = tail_log(5, 20, |start| {
        assert_eq!(start, 5);
        false
    }, |start| {
        assert_eq!(start, 5);
        "rtial\nnext\nlast".to_string()
    });
    assert_eq!(r.lines, vec!["next", "last"]);
    assert_eq!(r.offset, 20);
    // an empty first piece is the one dropped
    let r2 = tail_log(5, 20, |_| false, |_| "\nnext\n".to_string());
    assert_eq!(r2.lines, vec!["next"]);
}

#[test]
fn tail_from_line_boundary_keeps_complete_line() {
    // the file was "a\nb\n" at the previous read, which returned offset 4
    let file = "a\nb\nc\n";
    let r = tail_log(4, 6, |start| file.as_bytes()[(start - 1) as usize] == b'\n', |start| {
        file[start as usize..].to_string()
    });
    assert_eq!(r.offset, 6);
    assert_eq!(r.lines, vec!["c"]);
    assert!(!r.truncated);
}

#[test]
fn two_reads_deliver_what_one_read_does() {
    let file = "a\nb\nc\n";
    let boundary = |start: u64| file.as_bytes()[(start - 1) as usize] == b'\n';
    let first = tail_log(0, 4, boundary, |start| file[start as usize..4].to_string());
    let second = tail_log(first.offset, 6, boundary, |start| file[start as usize..].to_string());
    let whole = tail_log(0, 6, boundary, |start| file[start as usize..].to_string());
    let mut joined = first.lines.clone();
    joined.extend(second.lines);
    assert_eq!(joined, whole.lines);
    assert_eq!(whole.lines, vec!["a", "b", "c"]);
}

#[test]
fn tail_after_truncation_restarts() {
    let r = tail_log(100, 8, |_| panic!("not asked at the start"), |start| {
        assert_eq!(start, 0);
        "fresh\n".to_string()
    });
    assert!(r.truncated);
    assert_eq!(r.offset, 8);
    assert_eq!(r.lines, vec!["fresh"]);
}

#[test]
fn shutdown_mark_detection() {
    assert!(has_shutdown_mark(&format!("log\n{NORMAL_SHUTDOWN_LINE}\n")));
    assert!(!has_shutdown_mark("log\n--- normal shut"));
}
