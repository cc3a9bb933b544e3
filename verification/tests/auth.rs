use bytes::Bytes;
use deplorable::auth::{read_signature, verify_github_request};
use deplorable::http::StatusCode;

const BODY: &[u8] = b"{\"ref\":\"refs/heads/main\"}";

fn hex_of(bytes: &[u8], upper: bool) -> String {
    let digits: &[u8; 16] = if upper { b"0123456789ABCDEF" } else { b"0123456789abcdef" };
    let mut text = String::new();
    for byte in bytes {
        text.push(digits[(byte >> 4) as usize] as char);
        text.push(digits[(byte & 0x0f) as usize] as char);
    }
    text
}

fn signature_for(secret: &str, body: &[u8], upper: bool) -> Vec<u8> {
    let key = ring::hmac::Key::new(ring::hmac::HMAC_SHA1_FOR_LEGACY_USE_ONLY, secret.as_bytes());
    let tag = ring::hmac::sign(&key, body);
    let mut header = b"sha1=".to_vec();
    header.extend_from_slice(hex_of(tag.as_ref(), upper).as_bytes());
    header
}

#[test]
fn without_a_secret_everything_passes() {
    let bodies: [&[u8]; 4] = [b"", BODY, b"\xff\xfe not text", b"anything at all"];
    let valid = signature_for("sekret", BODY, false);
    let tags: [Option<&[u8]>; 6] = [
        None,
        Some(b""),
        Some(b"sha1="),
        Some(b"garbage"),
        Some(b"sha1=zz"),
        Some(&valid),
    ];
    for body in bodies {
        for tag in tags {
            assert_eq!(verify_github_request(&None, &Bytes::copy_from_slice(body), tag), Ok(()));
        }
    }
}

#[test]
fn the_right_signature_passes_in_small_letters() {
    let secret = Some("sekret".to_string());
    let header = signature_for("sekret", BODY, false);
    assert_eq!(verify_github_request(&secret, &Bytes::from_static(BODY), Some(&header)), Ok(()));
}

#[test]
fn the_right_signature_passes_in_capital_letters() {
    let secret = Some("sekret".to_string());
    let header = signature_for("sekret", BODY, true);
    assert_eq!(verify_github_request(&secret, &Bytes::from_static(BODY), Some(&header)), Ok(()));
}

#[test]
fn a_known_tag_passes() {
    let secret = Some("Jefe".to_string());
    let body = Bytes::from_static(b"what do ya want for nothing?");
    let header = b"sha1=effcdf6ae5eb2fa2d27416d5f184df9c259a7c79";
    assert_eq!(verify_github_request(&secret, &body, Some(&header[..])), Ok(()));
    let other = b"sha1=effcdf6ae5eb2fa2d27416d5f184df9c259a7c78";
    assert_eq!(verify_github_request(&secret, &body, Some(&other[..])), Err(StatusCode::Unauthorized));
}

#[test]
fn flipping_any_byte_of_the_body_fails() {
    let secret = Some("sekret".to_string());
    let header = signature_for("sekret", BODY, false);
    for at in 0..BODY.len() {
        for bit in 0..8 {
            let mut changed = BODY.to_vec();
            changed[at] ^= 1 << bit;
            assert_eq!(
                verify_github_request(&secret, &Bytes::from(changed), Some(&header)),
                Err(StatusCode::Unauthorized)
            );
        }
    }
}

#[test]
fn a_signature_under_another_secret_fails() {
    let secret = Some("sekret".to_string());
    let header = signature_for("secret", BODY, false);
    assert_eq!(
        verify_github_request(&secret, &Bytes::from_static(BODY), Some(&header)),
        Err(StatusCode::Unauthorized)
    );
}

#[test]
fn any_other_tag_fails() {
    let secret = Some("sekret".to_string());
    let right = signature_for("sekret", BODY, false);
    for at in 5..right.len() {
        let mut wrong = right.clone();
        wrong[at] = if wrong[at] == b'0' { b'1' } else { b'0' };
        assert_eq!(
            verify_github_request(&secret, &Bytes::from_static(BODY), Some(&wrong)),
            Err(StatusCode::Unauthorized)
        );
    }
}

#[test]
fn a_missing_signature_is_unauthorized() {
    let secret = Some("sekret".to_string());
    assert_eq!(
        verify_github_request(&secret, &Bytes::from_static(BODY), None),
        Err(StatusCode::Unauthorized)
    );
}

#[test]
fn a_signature_that_is_not_well_formed_is_a_bad_request() {
    let secret = Some("sekret".to_string());
    let right = signature_for("sekret", BODY, false);
    let digits = &right[5..];
    let mut other_prefix = b"sha2=".to_vec();
    other_prefix.extend_from_slice(digits);
    let mut capital_prefix = b"SHA1=".to_vec();
    capital_prefix.extend_from_slice(digits);
    let mut too_long = right.clone();
    too_long.extend_from_slice(b"00");
    let too_short = right[..right.len() - 2].to_vec();
    let odd = right[..right.len() - 1].to_vec();
    let mut not_hex = right.clone();
    not_hex[10] = b'g';
    let mut spaced = right.clone();
    spaced.push(b' ');
    let cases: [&[u8]; 11] = [
        b"",
        b"sha",
        b"sha1=",
        digits,
        &other_prefix,
        &capital_prefix,
        &too_long,
        &too_short,
        &odd,
        &not_hex,
        &spaced,
    ];
    for header in cases {
        assert_eq!(
            verify_github_request(&secret, &Bytes::from_static(BODY), Some(header)),
            Err(StatusCode::BadRequest)
        );
    }
}

#[test]
fn read_signature_gives_the_twenty_bytes() {
    let tag = read_signature(b"sha1=000102030405060708090a0b0c0d0e0f10111213");
    assert_eq!(tag, Some((0u8..20).collect::<Vec<u8>>()));
    let upper = read_signature(b"sha1=FFFEFDFCFBFAF9F8F7F6F5F4F3F2F1F0EFEEEDEC");
    assert_eq!(upper, Some((0..20).map(|i| 0xff - i as u8).collect::<Vec<u8>>()));
}

#[test]
fn read_signature_refuses_other_shapes() {
    assert_eq!(read_signature(b""), None);
    assert_eq!(read_signature(b"sha1="), None);
    assert_eq!(read_signature(b"000102030405060708090a0b0c0d0e0f10111213"), None);
    assert_eq!(read_signature(b"sha1=000102030405060708090a0b0c0d0e0f101112"), None);
    assert_eq!(read_signature(b"sha1=000102030405060708090a0b0c0d0e0f1011121314"), None);
    assert_eq!(read_signature(b"sha1=000102030405060708090a0b0c0d0e0f1011121g"), None);
    assert_eq!(read_signature(b"md5==000102030405060708090a0b0c0d0e0f10111213"), None);
}
