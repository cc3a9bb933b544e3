use deplorable::text::{format_usize, parse_usize, same_bytes, starts_with, to_lower};

#[test]
fn same_bytes_compares_length_and_content() {
    assert!(same_bytes(b"", b""));
    assert!(same_bytes(b"push", b"push"));
    assert!(!same_bytes(b"push", b"pull"));
    assert!(!same_bytes(b"push", b"pushed"));
    assert!(!same_bytes(b"Push", b"push"));
}

#[test]
fn starts_with_finds_a_prefix() {
    assert!(starts_with(b"sha1=abc", b"sha1="));
    assert!(starts_with(b"sha1=", b"sha1="));
    assert!(starts_with(b"anything", b""));
    assert!(!starts_with(b"sha", b"sha1="));
    assert!(!starts_with(b"sha256=abc", b"sha1="));
}

#[test]
fn to_lower_changes_ascii_capitals_only() {
    assert_eq!(to_lower(b"Content-Length"), b"content-length".to_vec());
    assert_eq!(to_lower(b"X-GitHub-Event"), b"x-github-event".to_vec());
    assert_eq!(to_lower(b"@AZ[`az{"), b"@az[`az{".to_vec());
    assert_eq!(to_lower(b"\xc3\x89"), b"\xc3\x89".to_vec());
}

#[test]
fn parse_usize_reads_digits() {
    assert_eq!(parse_usize(b"0"), Some(0));
    assert_eq!(parse_usize(b"25"), Some(25));
    assert_eq!(parse_usize(b"007"), Some(7));
    assert_eq!(parse_usize(b"+12"), Some(12));
}

#[test]
fn parse_usize_refuses_what_is_no_number() {
    assert_eq!(parse_usize(b""), None);
    assert_eq!(parse_usize(b"+"), None);
    assert_eq!(parse_usize(b"-1"), None);
    assert_eq!(parse_usize(b" 1"), None);
    assert_eq!(parse_usize(b"1 "), None);
    assert_eq!(parse_usize(b"1+"), None);
    assert_eq!(parse_usize(b"++1"), None);
    assert_eq!(parse_usize(b"12a"), None);
    assert_eq!(parse_usize(b"0x10"), None);
}

#[test]
fn parse_usize_stops_at_the_largest_number() {
    let largest = usize::MAX.to_string();
    assert_eq!(parse_usize(largest.as_bytes()), Some(usize::MAX));
    let mut beyond = largest.clone();
    beyond.push('0');
    assert_eq!(parse_usize(beyond.as_bytes()), None);
    assert_eq!(parse_usize(b"99999999999999999999999999999999999999999"), None);
}

#[test]
fn parse_usize_agrees_with_the_standard_library() {
    let samples: [&str; 10] = ["0", "1", "+1", "-0", "", "+", "18446744073709551615", "18446744073709551616", "42", "4 2"];
    for text in samples {
        assert_eq!(parse_usize(text.as_bytes()), text.parse::<usize>().ok());
    }
}

#[test]
fn format_usize_writes_digits() {
    assert_eq!(format_usize(0), b"0".to_vec());
    assert_eq!(format_usize(9), b"9".to_vec());
    assert_eq!(format_usize(10), b"10".to_vec());
    assert_eq!(format_usize(404), b"404".to_vec());
    assert_eq!(format_usize(usize::MAX), usize::MAX.to_string().into_bytes());
}

#[test]
fn format_then_parse_gives_the_number_back() {
    let samples: [usize; 7] = [0, 1, 9, 10, 99, 12345, usize::MAX];
    for n in samples {
        assert_eq!(parse_usize(&format_usize(n)), Some(n));
    }
}
