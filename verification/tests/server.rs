use base64::prelude::{Engine, BASE64_STANDARD};
use cync::body::{bytes, empty, Body};
use cync::client::{connect, connect_with, format_sync_uri, negotiate, Negotiated};
use cync::crypto::{derive_key, Cipher};
use cync::server::{
    check_password, choose_secrets, format_listen_address, grant_connection, handle_request,
    has_upgrade, hash_password, is_websocket_request, refuse, Request, Response, Version,
};
use hyper::header::{HeaderName, HeaderValue};
use hyper::HeaderMap;

const SALT: [u8; 20] = [5; 20];

fn headers(fields: &[(&str, &str)]) -> HeaderMap {
    let mut headers = HeaderMap::new();
    for (name, value) in fields {
        headers.append(
            HeaderName::from_bytes(name.as_bytes()).unwrap(),
            HeaderValue::from_bytes(value.as_bytes()).unwrap(),
        );
    }
    headers
}

fn request(fields: &[(&str, &str)]) -> Request {
    Request {
        method: "GET".to_string(),
        version: Version::Http11,
        uri: "/sync".to_string(),
        headers: headers(fields),
    }
}

const FIELDS: [(&str, &str); 3] = [
    ("Connection", "keep-alive, Upgrade"),
    ("Sec-WebSocket-Version", "13"),
    ("Sec-WebSocket-Key", "dGhlIHNhbXBsZSBub25jZQ=="),
];

fn with_password(password: &str) -> Request {
    let mut req = request(&FIELDS);
    req.headers.append("x-password", password.parse().unwrap());
    req
}

fn without(name: &str) -> Request {
    let mut req = request(&FIELDS);
    req.headers.remove(name);
    req
}

fn field(res: &Response, name: &str) -> Option<String> {
    res.headers.get(name).map(|value| value.to_str().unwrap().to_string())
}

fn is_refusal(res: &Response, reason: &str) -> bool {
    res.status == 200
        && res.version == Version::Http11
        && res.headers.is_empty()
        && res.body == Body::Full(reason.as_bytes().to_vec())
}

#[test]
fn bodies() {
    assert_eq!(empty(), Body::Empty);
    assert_eq!(bytes(vec![1, 2]), Body::Full(vec![1, 2]));
}

#[test]
fn proper_request_is_granted() {
    let res = handle_request(&request(&FIELDS), None, SALT);
    assert_eq!(res.status, 101);
    assert_eq!(res.version, Version::Http11);
    assert_eq!(res.body, Body::Empty);
    assert_eq!(field(&res, "connection"), Some("Upgrade".to_string()));
    assert_eq!(field(&res, "upgrade"), Some("websocket".to_string()));
    assert_eq!(
        field(&res, "sec-websocket-accept"),
        Some("s3pPLMBiTxaQ9kYGzzhZRbK+xOo=".to_string())
    );
    assert_eq!(field(&res, "x-salt"), None);
    assert_eq!(res.headers.len(), 3);
}

#[test]
fn version_of_the_request_is_kept() {
    let mut req = request(&FIELDS);
    req.version = Version::Http2;
    assert_eq!(handle_request(&req, None, SALT).version, Version::Http2);
}

#[test]
fn improper_requests_are_refused() {
    let reason = "failed to establish websocket connection";
    let mut post = request(&FIELDS);
    post.method = "POST".to_string();
    let mut lower = request(&FIELDS);
    lower.method = "get".to_string();
    let mut old = request(&FIELDS);
    old.version = Version::Http10;
    let mut older = request(&FIELDS);
    older.version = Version::Http09;
    let mut elsewhere = request(&FIELDS);
    elsewhere.uri = "/".to_string();
    let mut query = request(&FIELDS);
    query.uri = "/sync?a=b".to_string();
    let mut absolute = request(&FIELDS);
    absolute.uri = "http://host/sync".to_string();
    let mut other_version = without("sec-websocket-version");
    other_version.headers.append("sec-websocket-version", "8".parse().unwrap());
    let improper = vec![
        post,
        lower,
        old,
        older,
        elsewhere,
        query,
        absolute,
        other_version,
        without("connection"),
        without("sec-websocket-version"),
        without("sec-websocket-key"),
    ];
    for req in improper {
        assert!(!is_websocket_request(&req));
        assert!(is_refusal(&handle_request(&req, None, SALT), reason));
        assert!(is_refusal(&handle_request(&req, Some([0; 32]), SALT), reason));
    }
}

#[test]
fn empty_query_is_ignored() {
    let mut req = request(&FIELDS);
    req.uri = "/sync?".to_string();
    assert!(is_websocket_request(&req));
}

#[test]
fn first_value_of_a_field_counts() {
    let mut req = request(&FIELDS);
    req.headers.append("sec-websocket-version", "8".parse().unwrap());
    assert!(is_websocket_request(&req));
}

#[test]
fn upgrade_is_found_among_the_items() {
    assert!(has_upgrade(b"upgrade"));
    assert!(has_upgrade(b"UPGRADE"));
    assert!(has_upgrade(b"keep-alive, Upgrade"));
    assert!(has_upgrade(b"Upgrade,keep-alive"));
    assert!(has_upgrade(b" , upgrade , "));
    assert!(!has_upgrade(b""));
    assert!(!has_upgrade(b"keep-alive"));
    assert!(!has_upgrade(b"upgrades"));
    assert!(!has_upgrade(b"up grade"));
    assert!(!has_upgrade(b"upgrade;q=1"));
    assert!(!has_upgrade(b"\tupgrade"));
    assert!(has_upgrade(b"\t upgrade"));
    assert!(!has_upgrade(b"upgrade, \xff"));
    assert!(!has_upgrade(b"upgrade\x7f"));
}

#[test]
fn server_with_a_password_asks_for_it() {
    let hash = hash_password(&Some("pw".to_string()), &SALT);
    assert_eq!(hash, Some(derive_key(b"pw", &SALT)));
    assert!(is_refusal(&handle_request(&request(&FIELDS), hash, SALT), "no password"));
}

#[test]
fn wrong_password_is_refused() {
    let hash = hash_password(&Some("pw".to_string()), &SALT);
    let res = handle_request(&with_password("qw"), hash, SALT);
    assert!(is_refusal(&res, "invalid password"));
}

#[test]
fn right_password_is_admitted_and_answered_with_the_salt() {
    let hash = hash_password(&Some("pw".to_string()), &SALT);
    let res = handle_request(&with_password("pw"), hash, SALT);
    assert_eq!(res.status, 101);
    assert_eq!(res.headers.get_all("x-salt").iter().count(), 1);
    let header = res.headers.get("x-salt").unwrap().as_bytes().to_vec();
    assert_eq!(BASE64_STANDARD.decode(&header), Ok(SALT.to_vec()));
    match negotiate(&Some("pw".to_string()), Some(&header)) {
        Negotiated::Encrypted(cipher) => {
            assert_eq!(cipher.key, Cipher::derive("pw", &SALT).key);
            assert_eq!(Some(cipher.key), hash);
        }
        _ => panic!("no cipher"),
    }
}

#[test]
fn password_is_ignored_where_none_is_asked_for() {
    let res = handle_request(&with_password("pw"), None, SALT);
    assert_eq!(res.status, 101);
    assert_eq!(field(&res, "x-salt"), None);
}

#[test]
fn known_salt_is_sent_in_base64() {
    let res = check_password(Version::Http11, "abc=", &[0; 32], &[0; 32], "c2FsdA==");
    assert_eq!(field(&res, "x-salt"), Some("c2FsdA==".to_string()));
    assert_eq!(field(&res, "sec-websocket-accept"), Some("abc=".to_string()));
    let mut salt = [0; 20];
    for i in 0..20 {
        salt[i] = i as u8;
    }
    let hash = hash_password(&Some("hunter2".to_string()), &salt);
    let granted = handle_request(&with_password("hunter2"), hash, salt);
    assert_eq!(
        field(&granted, "x-salt"),
        Some("AAECAwQFBgcICQoLDA0ODxAREhM=".to_string())
    );
    let refused = check_password(Version::Http11, "abc=", &[0; 32], &[1; 32], "c2FsdA==");
    assert!(is_refusal(&refused, "invalid password"));
}

#[test]
fn responses_are_made() {
    assert!(is_refusal(&refuse("why"), "why"));
    let res = grant_connection(Version::Http11, "a", Some("b"));
    assert_eq!(res.status, 101);
    assert_eq!(res.headers.len(), 4);
    assert_eq!(field(&res, "x-salt"), Some("b".to_string()));
}

#[test]
fn client_request_has_its_fields_in_order() {
    let req = connect_with("10.0.0.1", 4343, &Some("pw".to_string()), "KEY=");
    assert_eq!(req.uri, "ws://10.0.0.1:4343/sync");
    let expected: Vec<(String, String)> = [
        ("sec-websocket-key", "KEY="),
        ("host", "10.0.0.1"),
        ("upgrade", "websocket"),
        ("connection", "upgrade"),
        ("sec-websocket-version", "13"),
        ("x-password", "pw"),
    ]
    .iter()
    .map(|(name, value)| (name.to_string(), value.to_string()))
    .collect();
    assert_eq!(req.headers, expected);
    let req = connect_with("10.0.0.1", 4343, &None, "KEY=");
    assert_eq!(req.headers, expected[..5].to_vec());
}

#[test]
fn websocket_key_is_random_base64() {
    let one = connect("h", 1, &None);
    let two = connect("h", 1, &None);
    assert_eq!(one.headers[0].1.len(), 24);
    assert!(one.headers[0].1.ends_with("=="));
    assert_ne!(one.headers[0].1, two.headers[0].1);
}

#[test]
fn client_is_connected_to_a_server_with_its_password() {
    for password in [None, Some("p\u{e4}ss".to_string())] {
        let client = connect("h", 1, &password);
        let mut req = request(&[]);
        for (name, value) in &client.headers {
            req.headers.append(
                HeaderName::from_bytes(name.as_bytes()).unwrap(),
                HeaderValue::from_bytes(value.as_bytes()).unwrap(),
            );
        }
        let secrets = choose_secrets(&password);
        let res = handle_request(&req, secrets.hash, secrets.salt);
        assert_eq!(res.status, 101);
        assert_eq!(res.headers.contains_key("x-salt"), password.is_some());
    }
}

#[test]
fn clients_of_a_server_share_a_key() {
    let hash = hash_password(&Some("pw".to_string()), &SALT);
    let mut keys = Vec::new();
    for _ in 0..2 {
        let res = handle_request(&with_password("pw"), hash, SALT);
        let header = res.headers.get("x-salt").unwrap().as_bytes().to_vec();
        match negotiate(&Some("pw".to_string()), Some(&header)) {
            Negotiated::Encrypted(cipher) => keys.push(cipher.key),
            _ => panic!("no cipher"),
        }
    }
    assert_eq!(keys[0], keys[1]);
}

#[test]
fn salt_comes_with_a_password_only() {
    let hash = hash_password(&Some("pw".to_string()), &SALT);
    let salted = handle_request(&with_password("pw"), hash, SALT);
    let again = handle_request(&with_password("pw"), hash, SALT);
    assert!(field(&salted, "x-salt").is_some());
    assert_eq!(field(&salted, "x-salt"), field(&again, "x-salt"));
    let plain = handle_request(&with_password("pw"), None, SALT);
    assert_eq!(field(&plain, "x-salt"), None);
}

#[test]
fn client_without_a_password_does_not_encrypt() {
    assert!(matches!(negotiate(&None, None), Negotiated::Plain));
    assert!(matches!(negotiate(&None, Some(b"c2FsdA==")), Negotiated::Plain));
}

#[test]
fn client_needs_a_salt_for_its_password() {
    match negotiate(&Some("pw".to_string()), None) {
        Negotiated::Failed(error) => {
            assert_eq!(error.message(), "Error occurred: Failed to get salt")
        }
        _ => panic!("no failure"),
    }
}

#[test]
fn salt_must_be_base64() {
    let password = Some("pw".to_string());
    assert!(matches!(negotiate(&password, Some(b"not base64!")), Negotiated::InvalidSalt));
    match negotiate(&password, Some(b"c2FsdA==")) {
        Negotiated::Encrypted(cipher) => assert_eq!(cipher.key, derive_key(b"pw", b"salt")),
        _ => panic!("no cipher"),
    }
}

#[test]
fn salts_are_random() {
    let one = choose_secrets(&Some("pw".to_string()));
    let two = choose_secrets(&Some("pw".to_string()));
    assert_ne!(one.salt, two.salt);
    assert_eq!(one.hash, Some(derive_key(b"pw", &one.salt)));
    assert_eq!(choose_secrets(&None).hash, None);
}

#[test]
fn addresses_are_written() {
    assert_eq!(format_listen_address("0.0.0.0", 4343), "0.0.0.0:4343");
    assert_eq!(format_sync_uri("127.0.0.1", 80), "ws://127.0.0.1:80/sync");
}
