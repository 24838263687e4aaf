use echo::redirect_uri::{handle_redirect_request, parse_redirect_request, split_pieces, split_request, Separator};

#[test]
fn callback_yields_credentials_and_success() {
    let reply = handle_redirect_request(b"GET /cb?code=AUTH123&state=CSRF456 HTTP/1.1\r\n\r\n");
    let credentials = reply.credentials.expect("credentials");
    assert_eq!(credentials.auth_code, "AUTH123");
    assert_eq!(credentials.csrf_token, "CSRF456");
    assert!(reply.response.starts_with("HTTP/1.1 200"));
    assert_eq!(
        reply.response,
        "HTTP/1.1 200 OK\r\n\r\nClient authorized. You can return to your terminal and close this window."
    );
}

#[test]
fn empty_request_is_rejected() {
    let reply = handle_redirect_request(b"");
    assert!(reply.credentials.is_none());
    assert!(reply.response.starts_with("HTTP/1.1 400"));
    assert_eq!(reply.response, "HTTP/1.1 400 Bad Request\r\n\r\n400 - Bad Request - Malformed request");
}

#[test]
fn invalid_utf8_is_rejected() {
    let reply = handle_redirect_request(&[b'G', b'E', b'T', b' ', 0xff, 0xfe]);
    assert!(reply.credentials.is_none());
    assert!(reply
        .response
        .starts_with("HTTP/1.1 400 Bad Request\r\n\r\n400 - Bad Request - Invalid UTF-8 sequence: "));
}

#[test]
fn single_word_request_is_rejected() {
    let reply = handle_redirect_request(b"GET");
    assert!(reply.credentials.is_none());
    assert!(reply.response.starts_with("HTTP/1.1 400"));
}

#[test]
fn target_without_query_is_rejected() {
    assert!(parse_redirect_request("GET /favicon.ico HTTP/1.1").is_none());
    assert!(parse_redirect_request("GET /cb?code=A HTTP/1.1").is_none());
}

#[test]
fn request_padded_with_zero_bytes() {
    let mut buffer = b"GET /cb?code=abc&state=xyz HTTP/1.1\r\nHost: localhost\r\n\r\n".to_vec();
    buffer.resize(1000, 0);
    let reply = handle_redirect_request(&buffer);
    let credentials = reply.credentials.expect("credentials");
    assert_eq!(credentials.auth_code, "abc");
    assert_eq!(credentials.csrf_token, "xyz");
}

#[test]
fn words_split_on_any_whitespace() {
    assert_eq!(split_request("  GET\t/a \r\n b  "), vec!["GET", "/a", "b"]);
    assert_eq!(split_request("x\u{3000}y\u{a0}z"), vec!["x", "y", "z"]);
    assert!(split_request(" \n ").is_empty());
}

#[test]
fn query_pieces_keep_empty_parts() {
    assert_eq!(split_pieces("code=&&state=s", Separator::Ampersand), vec!["code=", "", "state=s"]);
    assert_eq!(split_pieces("", Separator::Ampersand), vec![""]);
    assert_eq!(split_pieces("a=b=c", Separator::Ampersand), vec!["a=b=c"]);
}

#[test]
fn callback_keys_in_any_order() {
    let reply = handle_redirect_request(b"GET /cb?state=S&x=1&code=C HTTP/1.1\r\n\r\n");
    let credentials = reply.credentials.expect("credentials");
    assert_eq!(credentials.auth_code, "C");
    assert_eq!(credentials.csrf_token, "S");
    assert!(reply.response.starts_with("HTTP/1.1 200"));
}

#[test]
fn callback_values_keep_equal_signs_and_first_key_wins() {
    let credentials = parse_redirect_request("GET /cb?code=a=b&state=&code=z HTTP/1.1").expect("credentials");
    assert_eq!(credentials.auth_code, "a=b");
    assert_eq!(credentials.csrf_token, "");
}

#[test]
fn callback_without_state_is_rejected() {
    let reply = handle_redirect_request(b"GET /cb?code=C&status=S HTTP/1.1\r\n\r\n");
    assert!(reply.credentials.is_none());
    assert_eq!(reply.response, "HTTP/1.1 400 Bad Request\r\n\r\n400 - Bad Request - Malformed request");
    assert!(parse_redirect_request("GET /cb&code=C&state=S HTTP/1.1").is_none());
}
