use bytes::Bytes;
use deplorable::config::{Config, Repo};
use deplorable::http::{Headers, Request, StatusCode};
use deplorable::nixlify::Nixlify;

fn served() -> Nixlify {
    Nixlify::new(Config {
        repos: vec![
            (
                "open".to_string(),
                Repo {
                    repo: "owner/open".to_string(),
                    reference: "refs/heads/main".to_string(),
                    out: "/var/www/open".to_string(),
                    token: None,
                    secret: None,
                },
            ),
            (
                "signed".to_string(),
                Repo {
                    repo: "owner/signed".to_string(),
                    reference: "refs/heads/main".to_string(),
                    out: "/var/www/signed".to_string(),
                    token: None,
                    secret: Some("sekret".to_string()),
                },
            ),
        ],
    })
}

fn delivery(path: &str, headers: &[(&str, &[u8])]) -> Request {
    let fields: Vec<(Vec<u8>, Vec<u8>)> =
        headers.iter().map(|(name, value)| (name.as_bytes().to_vec(), value.to_vec())).collect();
    Request {
        method: Some("POST".to_string()),
        path: Some(path.to_string()),
        version: Some(1),
        headers: Headers::parse(&fields),
    }
}

fn signed_with(secret: &str, body: &[u8]) -> Vec<u8> {
    let key = ring::hmac::Key::new(ring::hmac::HMAC_SHA1_FOR_LEGACY_USE_ONLY, secret.as_bytes());
    let tag = ring::hmac::sign(&key, body);
    let mut header = b"sha1=".to_vec();
    for byte in tag.as_ref() {
        header.extend_from_slice(format!("{:02x}", byte).as_bytes());
    }
    header
}

#[test]
fn the_plain_dispatcher_does_not_find_unknown_paths() {
    let nixlify = served();
    let outcome = nixlify.handle_request(&delivery("/elsewhere", &[]), &Bytes::from_static(b"x"));
    assert_eq!(outcome.response.status, StatusCode::NotFound);
    assert!(outcome.response.body.is_empty());
    assert_eq!(outcome.signal, None);
}

#[test]
fn the_plain_dispatcher_builds_on_any_delivery_to_an_open_repository() {
    let nixlify = served();
    let bodies: [&[u8]; 3] = [b"", b"not a payload", b"{\"ref\":\"refs/heads/dev\"}"];
    for body in bodies {
        let outcome = nixlify.handle_request(&delivery("/open", &[]), &Bytes::copy_from_slice(body));
        assert_eq!(outcome.response.status, StatusCode::Success);
        assert_eq!(&outcome.response.body[..], body);
        let index = outcome.signal.unwrap();
        assert_eq!(nixlify.routes().slug(index), "open");
    }
}

#[test]
fn the_plain_dispatcher_builds_on_a_signed_delivery() {
    let nixlify = served();
    let body: &[u8] = b"anything";
    let signature = signed_with("sekret", body);
    let outcome =
        nixlify.handle_request(&delivery("/signed", &[("X-Hub-Signature", &signature)]), &Bytes::from_static(body));
    assert_eq!(outcome.response.status, StatusCode::Success);
    assert_eq!(&outcome.response.body[..], body);
    assert_eq!(nixlify.routes().slug(outcome.signal.unwrap()), "signed");
}

#[test]
fn the_plain_dispatcher_refuses_every_fault_as_unauthorized() {
    let nixlify = served();
    let body: &[u8] = b"anything";
    let other = signed_with("other", body);
    let stale = signed_with("sekret", b"something else");
    let cases: [Option<&[u8]>; 5] = [None, Some(b""), Some(b"sha1=zz"), Some(&other), Some(&stale)];
    for signature in cases {
        let request = match signature {
            None => delivery("/signed", &[]),
            Some(value) => delivery("/signed", &[("X-Hub-Signature", value)]),
        };
        let outcome = nixlify.handle_request(&request, &Bytes::from_static(body));
        assert_eq!(outcome.response.status, StatusCode::Unauthorized);
        assert!(outcome.response.body.is_empty());
        assert_eq!(outcome.signal, None);
    }
}
