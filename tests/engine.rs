use batch_tasks::download::{
    bytes_per_second, chosen_dir, declared_total, failure_message, is_success_status, next_step,
    parse_decimal_u64, AttemptOutcome, RetryStep, TransferProgress, CHUNK_SIZE, MAX_ATTEMPTS,
};

#[test]
fn server_error_is_retried_twice_then_fails_naming_the_status() {
    let o = AttemptOutcome::Status { code: 500 };
    assert_eq!(next_step(1, o), RetryStep::Retry { delay_ms: 300, next_attempt: 2 });
    assert_eq!(next_step(2, o), RetryStep::Retry { delay_ms: 600, next_attempt: 3 });
    assert_eq!(next_step(3, o), RetryStep::Failed);
    let m = failure_message(o, String::new());
    assert_eq!(m, "HTTP 500");
    assert!(m.contains("500"));
    assert_eq!(MAX_ATTEMPTS, 3);
}

#[test]
fn transport_errors_follow_the_same_schedule() {
    let o = AttemptOutcome::Transport;
    assert_eq!(next_step(1, o), RetryStep::Retry { delay_ms: 300, next_attempt: 2 });
    assert_eq!(next_step(2, o), RetryStep::Retry { delay_ms: 600, next_attempt: 3 });
    assert_eq!(next_step(3, o), RetryStep::Failed);
    assert_eq!(failure_message(o, "connection refused".to_string()), "connection refused");
}

#[test]
fn local_failures_are_never_retried() {
    assert_eq!(next_step(1, AttemptOutcome::WriteFailed), RetryStep::Failed);
    assert_eq!(next_step(1, AttemptOutcome::ReadFailed), RetryStep::Failed);
    assert_eq!(failure_message(AttemptOutcome::WriteFailed, "disk full".to_string()), "disk full");
}

#[test]
fn saved_file_succeeds_at_any_attempt() {
    assert_eq!(next_step(1, AttemptOutcome::Saved), RetryStep::Succeeded);
    assert_eq!(next_step(3, AttemptOutcome::Saved), RetryStep::Succeeded);
}

#[test]
fn success_statuses() {
    assert!(is_success_status(200));
    assert!(is_success_status(204));
    assert!(is_success_status(299));
    assert!(!is_success_status(199));
    assert!(!is_success_status(301));
    assert!(!is_success_status(404));
    assert!(!is_success_status(500));
}

#[test]
fn final_progress_count_equals_bytes_written() {
    let mut p = TransferProgress::start("http://h/f".to_string(), "/tmp/f".to_string(), 10);
    let chunks: Vec<Vec<u8>> = vec![vec![1, 2, 3], vec![], vec![4, 5, 6, 7], vec![8, 9, 10]];
    let mut file: Vec<u8> = Vec::new();
    let mut last = None;
    for c in &chunks {
        file.extend_from_slice(c);
        last = Some(p.record_chunk(c, 2000));
    }
    let ev = last.unwrap();
    assert_eq!(ev.downloaded as usize, file.len());
    assert_eq!(p.downloaded(), 10);
    assert_eq!(ev.total, 10);
    assert_eq!(ev.bytes_per_sec, 5);
    assert_eq!(ev.url, "http://h/f");
    assert_eq!(ev.path, "/tmp/f");
}

#[test]
fn full_chunk_is_counted() {
    let mut p = TransferProgress::start(String::new(), String::new(), 0);
    let chunk = vec![7u8; CHUNK_SIZE];
    let ev = p.record_chunk(&chunk, 0);
    assert_eq!(ev.downloaded, 65536);
    assert_eq!(ev.bytes_per_sec, 0);
    assert_eq!(ev.total, 0);
}

#[test]
fn throughput_values() {
    assert_eq!(bytes_per_second(1000, 0), 0);
    assert_eq!(bytes_per_second(1000, 1000), 1000);
    assert_eq!(bytes_per_second(1500, 500), 3000);
    assert_eq!(bytes_per_second(1, 3), 333);
    assert_eq!(bytes_per_second(u64::MAX, 1), u64::MAX);
}

#[test]
fn content_length_parsing() {
    assert_eq!(parse_decimal_u64("1234"), Some(1234));
    assert_eq!(parse_decimal_u64("+7"), Some(7));
    assert_eq!(parse_decimal_u64("0"), Some(0));
    assert_eq!(parse_decimal_u64("18446744073709551615"), Some(u64::MAX));
    assert_eq!(parse_decimal_u64("18446744073709551616"), None);
    assert_eq!(parse_decimal_u64(""), None);
    assert_eq!(parse_decimal_u64("+"), None);
    assert_eq!(parse_decimal_u64("-1"), None);
    assert_eq!(parse_decimal_u64("12a"), None);
    assert_eq!(parse_decimal_u64(" 12"), None);
    assert_eq!(declared_total(Some("2048")), 2048);
    assert_eq!(declared_total(Some("abc")), 0);
    assert_eq!(declared_total(None), 0);
}

#[test]
fn chosen_directory() {
    assert_eq!(chosen_dir(Some("/data/out".to_string())), Some("/data/out".to_string()));
    assert_eq!(chosen_dir(Some(String::new())), None);
    assert_eq!(chosen_dir(None), None);
}
