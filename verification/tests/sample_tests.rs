use bench_nord_servers::sample::{
    parse_sample, speedtest_result, split_fields, SampleError, PACKET_LOSS_PLACEHOLDER,
};

fn line(fields: &[&str]) -> Vec<u8> {
    fields.join("\t").into_bytes()
}

#[test]
fn parses_full_line() {
    let out = line(&["ServerA", "123", "5.483", "0.203", "0", "5000.5", "1200.25"]);
    let s = parse_sample(&out).unwrap();
    assert_eq!(s.latency, 5_483);
    assert_eq!(s.jitter, 203);
    assert_eq!(s.packet_loss, 0);
    assert!(!s.no_pl_data);
    assert_eq!(s.download, 5_000_500);
    assert_eq!(s.upload, 1_200_250);
}

#[test]
fn unparsable_packet_loss_is_flagged_not_fatal() {
    // Every required field parses; the packet-loss field holds a marker.
    let out = line(&["ServerA", "123", "5.483", "0.203", "N/A", "5000.5", "1200.25"]);
    let s = parse_sample(&out).unwrap();
    assert!(s.no_pl_data);
    assert_eq!(s.packet_loss, PACKET_LOSS_PLACEHOLDER);
    assert_eq!(s.latency, 5_483);
    assert_eq!(s.jitter, 203);
    assert_eq!(s.download, 5_000_500);
    assert_eq!(s.upload, 1_200_250);
}

#[test]
fn missing_upload_field_fails() {
    // Only six fields: index 6 (upload) is absent, so no sample exists to
    // hand on to scoring.
    let out = line(&["ServerA", "123", "5.483", "0.203", "0", "5000.5"]);
    assert_eq!(parse_sample(&out), Err(SampleError::MissingField(6)));
}

#[test]
fn missing_early_fields_fail() {
    assert_eq!(parse_sample(b""), Err(SampleError::MissingField(2)));
    let out = line(&["ServerA", "123"]);
    assert_eq!(parse_sample(&out), Err(SampleError::MissingField(2)));
    let out = line(&["ServerA", "123", "5.483"]);
    assert_eq!(parse_sample(&out), Err(SampleError::MissingField(3)));
}

#[test]
fn malformed_required_fields_fail() {
    let out = line(&["S", "1", "bad", "0.2", "0", "5000", "1200"]);
    assert_eq!(parse_sample(&out), Err(SampleError::MalformedField(2)));
    let out = line(&["S", "1", "5.4", "bad", "0", "5000", "1200"]);
    assert_eq!(parse_sample(&out), Err(SampleError::MalformedField(3)));
    let out = line(&["S", "1", "5.4", "0.2", "0", "bad", "1200"]);
    assert_eq!(parse_sample(&out), Err(SampleError::MalformedField(5)));
    let out = line(&["S", "1", "5.4", "0.2", "0", "5000", "bad"]);
    assert_eq!(parse_sample(&out), Err(SampleError::MalformedField(6)));
}

#[test]
fn failed_process_reports_exit_state() {
    let out = line(&["S", "1", "5.4", "0.2", "0", "5000", "1200"]);
    assert_eq!(
        speedtest_result(false, Some(2), &out),
        Err(SampleError::ExitCode(2))
    );
    assert_eq!(
        speedtest_result(false, None, &out),
        Err(SampleError::SignalTerminated)
    );
    assert!(speedtest_result(true, Some(0), &out).is_ok());
}

#[test]
fn extra_fields_are_ignored() {
    let out = line(&[
        "ServerA", "123", "5.483", "0.203", "0.1", "5000.5", "1200.25", "999", "extra",
    ]);
    let s = parse_sample(&out).unwrap();
    assert_eq!(s.upload, 1_200_250);
    assert_eq!(s.packet_loss, 100);
}

#[test]
fn split_uses_trailing_tab_as_terminator() {
    let parts = split_fields(b"a\tb\t");
    assert_eq!(parts, vec![b"a".to_vec(), b"b".to_vec()]);
    let parts = split_fields(b"a\t\tb");
    assert_eq!(parts, vec![b"a".to_vec(), b"".to_vec(), b"b".to_vec()]);
    let parts = split_fields(b"");
    assert!(parts.is_empty());
}
