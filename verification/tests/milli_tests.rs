use bench_nord_servers::milli::{parse_milli, render_milli, render_milli_signed, render_u64};

#[test]
fn parse_plain_integer() {
    assert_eq!(parse_milli(b"20"), Some(20_000));
    assert_eq!(parse_milli(b"0"), Some(0));
    assert_eq!(parse_milli(b"007"), Some(7_000));
}

#[test]
fn parse_fraction() {
    assert_eq!(parse_milli(b"5.483"), Some(5_483));
    assert_eq!(parse_milli(b"0.3"), Some(300));
    assert_eq!(parse_milli(b"0.045"), Some(45));
    assert_eq!(parse_milli(b"12.5"), Some(12_500));
}

#[test]
fn parse_truncates_past_thousandths() {
    assert_eq!(parse_milli(b"1.23456"), Some(1_234));
    assert_eq!(parse_milli(b"0.0009"), Some(0));
}

#[test]
fn parse_rejects_marker_text() {
    assert_eq!(parse_milli(b"N/A"), None);
    assert_eq!(parse_milli(b""), None);
    assert_eq!(parse_milli(b"-"), None);
}

#[test]
fn parse_rejects_bad_shapes() {
    assert_eq!(parse_milli(b"1.2.3"), None);
    assert_eq!(parse_milli(b".5"), None);
    assert_eq!(parse_milli(b"5."), None);
    assert_eq!(parse_milli(b"5a"), None);
    assert_eq!(parse_milli(b"-1"), None);
    assert_eq!(parse_milli(b" 1"), None);
}

#[test]
fn parse_rejects_out_of_range() {
    // The bound is exclusive at 10^12 whole units.
    assert_eq!(parse_milli(b"1000000000000"), None);
    assert_eq!(parse_milli(b"999999999999.999"), Some(999_999_999_999_999));
    assert_eq!(parse_milli(b"99999999999999999999999999999"), None);
}

#[test]
fn render_whole_values() {
    assert_eq!(render_u64(0), b"0");
    assert_eq!(render_u64(467), b"467");
    assert_eq!(render_milli(20_000), b"20");
    assert_eq!(render_milli(0), b"0");
}

#[test]
fn render_trims_trailing_zeros() {
    assert_eq!(render_milli(300), b"0.3");
    assert_eq!(render_milli(5_483), b"5.483");
    assert_eq!(render_milli(45), b"0.045");
    assert_eq!(render_milli(1_230), b"1.23");
}

#[test]
fn render_signed_values() {
    assert_eq!(render_milli_signed(97_200), b"97.2");
    assert_eq!(render_milli_signed(-1_500), b"-1.5");
    assert_eq!(render_milli_signed(0), b"0");
}

#[test]
fn parse_and_render_round_trip() {
    for text in ["0.125", "3", "250.5", "999.999"] {
        let value = parse_milli(text.as_bytes()).unwrap();
        assert_eq!(render_milli(value), text.as_bytes());
    }
}
