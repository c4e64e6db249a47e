use quotelementa::assigner::{
    assigner_step, job_from_line, jobs_from_lines, largest_index_from_tail, parse_decimal,
    tail_window_start, AssignError, AssignStep, TAIL_WINDOW,
};

fn input_with_final_index(k: usize) -> Vec<u8> {
    let mut bytes = Vec::new();
    for i in 0..=k {
        bytes.extend_from_slice(format!("{},site-{}.example\n", i, i).as_bytes());
    }
    bytes
}

fn tail_of(bytes: &[u8]) -> &[u8] {
    let start = tail_window_start(bytes.len() as u64) as usize;
    &bytes[start..]
}

#[test]
fn progress_total_from_long_file() {
    // Many records: the file is longer than the inspection window.
    let bytes = input_with_final_index(41);
    assert!(bytes.len() as u64 > TAIL_WINDOW);
    assert_eq!(largest_index_from_tail(tail_of(&bytes)), Ok(41));
}

#[test]
fn progress_total_from_short_file() {
    // A couple of records: the whole file fits in the window.
    let bytes = input_with_final_index(2);
    assert!((bytes.len() as u64) < TAIL_WINDOW);
    assert_eq!(largest_index_from_tail(tail_of(&bytes)), Ok(2));
}

#[test]
fn progress_total_single_record() {
    let bytes = b"0,example.com\n".to_vec();
    assert_eq!(largest_index_from_tail(tail_of(&bytes)), Ok(0));
}

#[test]
fn truncated_final_line_falls_back_to_last_complete_record() {
    // Only complete records (ending in a line break) count.
    assert_eq!(largest_index_from_tail(b"4,ok\n5,partial-rec"), Ok(4));
}

#[test]
fn tail_without_newline_is_rejected() {
    assert_eq!(
        largest_index_from_tail(b"0,example.com"),
        Err(AssignError::MissingRecord)
    );
    assert_eq!(largest_index_from_tail(b""), Err(AssignError::MissingRecord));
}

#[test]
fn record_without_comma_is_rejected() {
    assert_eq!(
        largest_index_from_tail(b"0,ok\njust-a-host\n"),
        Err(AssignError::MissingDelimiter)
    );
}

#[test]
fn non_numeric_index_is_rejected() {
    assert_eq!(
        largest_index_from_tail(b"0,ok\nxyz,host\n"),
        Err(AssignError::NotNumeric)
    );
    assert_eq!(
        largest_index_from_tail(b"0,ok\n,host\n"),
        Err(AssignError::NotNumeric)
    );
}

#[test]
fn decimal_parsing() {
    assert_eq!(parse_decimal(b"0"), Some(0));
    assert_eq!(parse_decimal(b"123"), Some(123));
    assert_eq!(parse_decimal(b""), None);
    assert_eq!(parse_decimal(b"12a"), None);
    assert_eq!(parse_decimal(b"-5"), None);
    // Far beyond what any usize holds.
    assert_eq!(parse_decimal(b"999999999999999999999999999999"), None);
}

#[test]
fn job_gets_scheme_prefixed() {
    let job = job_from_line("0,example.com").expect("well-formed record");
    assert_eq!(job.url, "https://example.com/");
}

#[test]
fn job_keeps_existing_scheme() {
    let job = job_from_line("7,https://example.org/path").expect("well-formed record");
    assert_eq!(job.url, "https://example.org/path");
}

#[test]
fn line_without_comma_fails() {
    match job_from_line("example.com") {
        Err(e) => assert_eq!(e, AssignError::MissingDelimiter),
        Ok(j) => panic!("expected failure, got job {}", j.url),
    }
}

#[test]
fn unparsable_url_fails() {
    match job_from_line("0,#") {
        Err(e) => assert_eq!(e, AssignError::InvalidUrl),
        Ok(j) => panic!("expected failure, got job {}", j.url),
    }
}

#[test]
fn job_list_in_file_order() {
    let lines = vec![
        "0,example.com".to_string(),
        "1,example.org".to_string(),
        "2,example.net".to_string(),
    ];
    let jobs = jobs_from_lines(&lines).expect("all records well-formed");
    let urls: Vec<&str> = jobs.iter().map(|j| j.url.as_str()).collect();
    assert_eq!(
        urls,
        vec![
            "https://example.com/",
            "https://example.org/",
            "https://example.net/"
        ]
    );
}

#[test]
fn job_list_fails_on_first_bad_record() {
    let lines = vec!["0,example.com".to_string(), "no-comma".to_string()];
    match jobs_from_lines(&lines) {
        Err(e) => assert_eq!(e, AssignError::MissingDelimiter),
        Ok(jobs) => panic!("expected failure, got {} jobs", jobs.len()),
    }
}

#[test]
fn reader_stops_on_shutdown_even_mid_file() {
    // A shutdown observed before the next record stops the reader at
    // once; the well-formed record is not enqueued.
    match assigner_step(true, Some("0,example.com")) {
        AssignStep::Stop => {}
        other => panic!("expected Stop, got {:?}", other),
    }
    // Without the signal the same record becomes a job.
    match assigner_step(false, Some("0,example.com")) {
        AssignStep::Enqueue(j) => assert_eq!(j.url, "https://example.com/"),
        other => panic!("expected Enqueue, got {:?}", other),
    }
    // End of input stops the reader too.
    match assigner_step(false, None) {
        AssignStep::Stop => {}
        other => panic!("expected Stop, got {:?}", other),
    }
    // A malformed record fails the run immediately.
    match assigner_step(false, Some("no-comma")) {
        AssignStep::Fail(e) => assert_eq!(e, AssignError::MissingDelimiter),
        other => panic!("expected Fail, got {:?}", other),
    }
}
