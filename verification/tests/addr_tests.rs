use bench_nord_servers::addr::{ip_from_resolution, verify_ip_match, Resolution, IP};

fn ip(octets: [u8; 4]) -> IP {
    IP { octets }
}

#[test]
fn fourth_octet_within_tolerance_matches() {
    // Difference of four in the fourth octet, first three equal.
    assert!(verify_ip_match(&ip([103, 10, 5, 20]), &ip([103, 10, 5, 24])));
}

#[test]
fn fourth_octet_beyond_tolerance_mismatches() {
    // Difference of seven in the fourth octet.
    assert!(!verify_ip_match(&ip([103, 10, 5, 20]), &ip([103, 10, 5, 27])));
}

#[test]
fn differing_third_octet_mismatches() {
    assert!(!verify_ip_match(&ip([103, 10, 6, 20]), &ip([103, 10, 5, 20])));
}

#[test]
fn tolerance_boundary() {
    assert!(verify_ip_match(&ip([1, 2, 3, 10]), &ip([1, 2, 3, 15])));
    assert!(!verify_ip_match(&ip([1, 2, 3, 10]), &ip([1, 2, 3, 16])));
    assert!(verify_ip_match(&ip([1, 2, 3, 15]), &ip([1, 2, 3, 10])));
}

#[test]
fn only_ipv4_resolutions_are_usable() {
    let got = ip_from_resolution(Some(Resolution::V4([8, 8, 8, 8])));
    assert_eq!(got.map(|a| a.octets), Some([8, 8, 8, 8]));
    assert!(ip_from_resolution(Some(Resolution::V6)).is_none());
    assert!(ip_from_resolution(None).is_none());
}
