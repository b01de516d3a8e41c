use comments::auth::{extract_bearer_token, is_admin, token_authorizes};
use comments::codec::encode_secret;

#[test]
fn bearer_token_is_extracted_after_the_prefix() {
    let header = b"bearer sesame".to_vec();
    assert_eq!(extract_bearer_token(Some(&header)), Some(b"sesame".to_vec()));
}

#[test]
fn bearer_prefix_is_case_insensitive() {
    let a = b"Bearer sesame".to_vec();
    let b = b"BEARER sesame".to_vec();
    let c = b"bEaReR sesame".to_vec();
    assert_eq!(extract_bearer_token(Some(&a)), Some(b"sesame".to_vec()));
    assert_eq!(extract_bearer_token(Some(&b)), Some(b"sesame".to_vec()));
    assert_eq!(extract_bearer_token(Some(&c)), Some(b"sesame".to_vec()));
}

#[test]
fn empty_token_after_prefix_is_still_a_token() {
    let header = b"bearer ".to_vec();
    assert_eq!(extract_bearer_token(Some(&header)), Some(Vec::new()));
}

#[test]
fn missing_header_yields_no_token() {
    assert_eq!(extract_bearer_token(None), None);
}

#[test]
fn other_schemes_yield_no_token() {
    let basic = b"Basic c2VzYW1l".to_vec();
    assert_eq!(extract_bearer_token(Some(&basic)), None);
    let short = b"bear".to_vec();
    assert_eq!(extract_bearer_token(Some(&short)), None);
    let missing_space = b"bearersesame".to_vec();
    assert_eq!(extract_bearer_token(Some(&missing_space)), None);
}

#[test]
fn admin_check_accepts_only_the_credential() {
    let good = b"bearer hunter2".to_vec();
    let bad = b"bearer hunter3".to_vec();
    let prefix_of = b"bearer hunter".to_vec();
    assert!(is_admin(Some(&good), b"hunter2"));
    assert!(!is_admin(Some(&bad), b"hunter2"));
    assert!(!is_admin(Some(&prefix_of), b"hunter2"));
    assert!(!is_admin(None, b"hunter2"));
}

#[test]
fn token_authorizes_only_its_own_secret() {
    let stored: [u8; 16] = [3u8; 16];
    let token = encode_secret(&stored);
    assert!(token_authorizes(&token, &stored));
    let other: [u8; 16] = [4u8; 16];
    assert!(!token_authorizes(&token, &other));
}

#[test]
fn malformed_tokens_never_authorize() {
    let stored: [u8; 16] = [3u8; 16];
    assert!(!token_authorizes(b"not base64 at all!", &stored));
    assert!(!token_authorizes(b"aGk", &stored));
    assert!(!token_authorizes(b"", &stored));
}
