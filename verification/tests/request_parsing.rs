use connect_proxy::request::{
    get_request, parse_method, parse_request, ClientRequest, ConnectMethod, ParseError,
    MAX_REQUEST_SIZE,
};

fn strings(lines: &[&str]) -> Vec<String> {
    lines.iter().map(|s| s.to_string()).collect()
}

#[test]
fn test_parse_get_request() {
    let request = "GET / HTTP/1.1\r\nHost: developer.mozilla.org\r\nAccept-Language: fr\r\n\r\n";
    let parsed = parse_request(request).unwrap();
    let expected = ClientRequest {
        method: ConnectMethod::new("GET", "/", "HTTP/1.1"),
        header: [
            "Host: developer.mozilla.org".to_string(),
            "Accept-Language: fr".to_string(),
        ]
        .to_vec(),
        data_block: Vec::default(),
    };
    assert_eq!(parsed, expected);

    let request = "GET / HTTP/1.1\r\n\r\n";
    let parsed = parse_request(request).unwrap();
    let expected = ClientRequest {
        method: ConnectMethod::new("GET", "/", "HTTP/1.1"),
        header: Vec::default(),
        data_block: Vec::default(),
    };
    assert_eq!(parsed, expected);
}

#[test]
fn test_parse_post_request() {
    let request = "POST /contact_form.php HTTP/1.1\r\n\
    Host: developer.mozilla.org\r\n\
    Content-Length: 64\r\n\
    Content-Type: application/x-www-form-urlencoded\r\n\r\n\
    name=Joe%20User&request=Send%20me%20one%20of%20your%20catalogue";
    let parsed = parse_request(request).unwrap();
    let expected = ClientRequest {
        method: ConnectMethod::new("POST", "/contact_form.php", "HTTP/1.1"),
        header: [
            "Host: developer.mozilla.org".to_string(),
            "Content-Length: 64".to_string(),
            "Content-Type: application/x-www-form-urlencoded".to_string(),
        ]
        .to_vec(),
        data_block: ["name=Joe%20User&request=Send%20me%20one%20of%20your%20catalogue".to_string()]
            .to_vec(),
    };
    assert_eq!(parsed, expected);
}

#[test]
fn test_parse_connect_request() {
    let request = "CONNECT en.wikipedia.org:443 HTTP/1.1\r\n\r\n";
    let parsed = parse_request(request).unwrap();
    let expected = ClientRequest {
        method: ConnectMethod::new("CONNECT", "en.wikipedia.org:443", "HTTP/1.1"),
        header: Vec::default(),
        data_block: Vec::default(),
    };
    assert_eq!(parsed, expected);

    let request = "CONNECT en.wikipedia.org:443 HTTP/1.1\r\n\
    Host: en.wikipedia.org:443\r\n\
    User-Agent: curl/7.68.0\r\n\
    Proxy-Connection: Keep-Alive\r\n\r\n";
    let parsed = parse_request(request).unwrap();
    let expected = ClientRequest {
        method: ConnectMethod::new("CONNECT", "en.wikipedia.org:443", "HTTP/1.1"),
        header: [
            "Host: en.wikipedia.org:443".to_string(),
            "User-Agent: curl/7.68.0".to_string(),
            "Proxy-Connection: Keep-Alive".to_string(),
        ]
        .to_vec(),
        data_block: Vec::default(),
    };
    assert_eq!(parsed, expected);
}

#[test]
fn test_parse_invalid_request_without_emptyline() {
    // The request should be ended with "\r\n\r\n"
    let request = "CONNECT en.wikipedia.org:443 HTTP/1.1\r\n";
    assert!(parse_request(request).is_err());
    let request = "CONNECT en.wikipedia.org:443 HTTP/1.1\r\nHost: developer.mozilla.org";
    assert!(parse_request(request).is_err());
    let request = "GET / HTTP/1.1\r\nHost: developer.mozilla.org\r\nAccept-Language: fr";
    assert!(parse_request(request).is_err());
    let request = "GET / HTTP/1.1\r\nHost: developer.mozilla.org\r\nAccept-Language: fr\r\n";
    assert!(parse_request(request).is_err());
}

#[test]
fn connect_request_fields() {
    let parsed = parse_request("CONNECT en.wikipedia.org:443 HTTP/1.1\r\n\r\n").unwrap();
    assert_eq!(parsed.method.name, "CONNECT");
    assert_eq!(parsed.method.uri, "en.wikipedia.org:443");
    assert_eq!(parsed.method.version, "HTTP/1.1");
    assert!(parsed.header.is_empty());
    assert!(parsed.data_block.is_empty());
}

#[test]
fn single_header_and_empty_body() {
    let parsed = parse_request("GET / HTTP/1.1\r\nHost: x\r\n\r\n").unwrap();
    assert_eq!(parsed.header, strings(&["Host: x"]));
    assert_eq!(parsed.data_block, Vec::<String>::new());
}

#[test]
fn errors_tell_the_causes_apart() {
    assert_eq!(parse_request("").unwrap_err(), ParseError::MissingMethod);
    assert_eq!(parse_request("   \r\n\r\n").unwrap_err(), ParseError::MissingMethod);
    assert_eq!(parse_request("CONNECT\r\n\r\n").unwrap_err(), ParseError::MissingUri);
    assert_eq!(parse_request("CONNECT host:443\r\n\r\n").unwrap_err(), ParseError::MissingVersion);
    assert_eq!(
        parse_request("CONNECT host:443 HTTP/1.1").unwrap_err(),
        ParseError::MissingBlankLine
    );
    assert_eq!(
        parse_request("CONNECT host:443 HTTP/1.1\r\nHost: x").unwrap_err(),
        ParseError::MissingBlankLine
    );
    assert_eq!(
        parse_request("CONNECT host:443 HTTP/1.1\r\n").unwrap_err(),
        ParseError::BlankLineLast
    );
    assert_eq!(
        parse_request("CONNECT host:443 HTTP/1.1\r\nHost: x\r\n").unwrap_err(),
        ParseError::BlankLineLast
    );
}

#[test]
fn request_line_error_comes_before_blank_line_error() {
    assert_eq!(parse_request("CONNECT host:443").unwrap_err(), ParseError::MissingVersion);
    assert_eq!(parse_request("CONNECT host:443\r\n").unwrap_err(), ParseError::MissingVersion);
}

#[test]
fn tokens_after_the_third_are_ignored() {
    let parsed = parse_request("CONNECT host:443 HTTP/1.1 extra more\r\n\r\n").unwrap();
    assert_eq!(parsed.method, ConnectMethod::new("CONNECT", "host:443", "HTTP/1.1"));
}

#[test]
fn runs_of_spaces_separate_tokens() {
    let method = parse_method("  CONNECT   host:443  HTTP/1.1 ").unwrap();
    assert_eq!(method, ConnectMethod::new("CONNECT", "host:443", "HTTP/1.1"));
    assert!(!method.name.is_empty() && !method.uri.is_empty() && !method.version.is_empty());
}

#[test]
fn body_keeps_inner_empty_lines_and_drops_one_trailing() {
    let parsed = parse_request("GET / HTTP/1.1\r\n\r\n\r\n").unwrap();
    assert_eq!(parsed.data_block, strings(&[""]));
    let parsed = parse_request("GET / HTTP/1.1\r\nA: b\r\n\r\none\r\n\r\ntwo\r\n").unwrap();
    assert_eq!(parsed.header, strings(&["A: b"]));
    assert_eq!(parsed.data_block, strings(&["one", "", "two"]));
    let parsed = parse_request("GET / HTTP/1.1\r\n\r\none\r\ntwo").unwrap();
    assert_eq!(parsed.data_block, strings(&["one", "two"]));
}

#[test]
fn lone_carriage_return_or_line_feed_is_no_line_break() {
    let parsed = parse_request("GET / HTTP/1.1\r\nA\rB\nC\r\n\r\n").unwrap();
    assert_eq!(parsed.header, strings(&["A\rB\nC"]));
}

#[test]
fn written_request_reads_back() {
    let method = ConnectMethod::new("CONNECT", "example.org:443", "HTTP/1.1");
    let header = strings(&["Host: example.org:443", "User-Agent: t"]);
    let body = strings(&["first", "", "last", ""]);
    let mut text = format!("{} {} {}\r\n", method.name, method.uri, method.version);
    for line in &header {
        text.push_str(line);
        text.push_str("\r\n");
    }
    text.push_str("\r\n");
    for line in &body {
        text.push_str(line);
        text.push_str("\r\n");
    }
    let parsed = parse_request(&text).unwrap();
    assert_eq!(parsed, ClientRequest { method, header, data_block: body });
}

#[test]
fn non_ascii_text_is_kept() {
    let parsed = parse_request("CONNECT b\u{fc}cher.example:443 HTTP/1.1\r\nX: \u{2713}\r\n\r\n").unwrap();
    assert_eq!(parsed.method.uri, "b\u{fc}cher.example:443");
    assert_eq!(parsed.header, strings(&["X: \u{2713}"]));
}

#[test]
fn default_request_is_empty() {
    let request = ClientRequest::default();
    assert_eq!(request.method, ConnectMethod::new("", "", ""));
    assert!(request.header.is_empty() && request.data_block.is_empty());
}

#[test]
fn get_request_parses_bytes() {
    let parsed = get_request(b"CONNECT en.wikipedia.org:443 HTTP/1.1\r\n\r\n").unwrap();
    assert_eq!(parsed.method, ConnectMethod::new("CONNECT", "en.wikipedia.org:443", "HTTP/1.1"));
}

#[test]
fn get_request_refuses_bytes_that_are_not_utf8() {
    assert_eq!(get_request(b"CONNECT \xff:1 HTTP/1.1\r\n\r\n").unwrap_err(), ParseError::NotUtf8);
}

#[test]
fn get_request_reads_no_more_than_the_limit() {
    assert_eq!(MAX_REQUEST_SIZE, 1024);
    let head = "CONNECT host:443 HTTP/1.1\r\n";
    let mut long = head.as_bytes().to_vec();
    while long.len() < MAX_REQUEST_SIZE {
        long.push(b'a');
    }
    // The blank line lies beyond the limit, so it is never seen.
    long.extend_from_slice(b"\r\n\r\n");
    assert_eq!(get_request(&long).unwrap_err(), ParseError::MissingBlankLine);
    // Bytes that are not UTF-8 beyond the limit are never seen either.
    let mut short = b"CONNECT host:443 HTTP/1.1\r\n\r\n".to_vec();
    while short.len() < MAX_REQUEST_SIZE {
        short.push(b'b');
    }
    short.push(0xff);
    let parsed = get_request(&short).unwrap();
    assert_eq!(parsed.data_block.len(), 1);
    assert_eq!(parsed.data_block[0].len(), MAX_REQUEST_SIZE - 29);
}

#[test]
fn errors_have_their_messages() {
    assert_eq!(ParseError::MissingMethod.message(), "No method in client request");
    assert_eq!(ParseError::MissingUri.message(), "No URI in client request");
    assert_eq!(
        ParseError::MissingVersion.message(),
        "No HTTP protocol version in client request"
    );
    assert_eq!(ParseError::MissingBlankLine.message(), "Invalid request");
    assert_eq!(ParseError::BlankLineLast.message(), "Invalid request");
    assert_eq!(ParseError::NotUtf8.message(), "Client request is not UTF-8");
}
