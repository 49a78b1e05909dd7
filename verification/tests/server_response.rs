use connect_proxy::response::{decimal, send_response, ServerResponse};

#[test]
fn status_lines_are_exact() {
    assert_eq!(ServerResponse::Okay.status_line(), "HTTP/1.1 200 OK\r\n\r\n");
    assert_eq!(ServerResponse::BadRequest.status_line(), "HTTP/1.1 400 Bad Request\r\n\r\n");
    assert_eq!(ServerResponse::Forbidden.status_line(), "HTTP/1.1 403 Forbidden\r\n\r\n");
    assert_eq!(
        ServerResponse::MethodNotAllowed.status_line(),
        "HTTP/1.1 405 Method Not Allowed\r\n\r\n"
    );
}

#[test]
fn codes_and_reasons() {
    assert_eq!(ServerResponse::Okay.code(), 200);
    assert_eq!(ServerResponse::BadRequest.code(), 400);
    assert_eq!(ServerResponse::Forbidden.code(), 403);
    assert_eq!(ServerResponse::MethodNotAllowed.code(), 405);
    assert_eq!(ServerResponse::Okay.reason(), "OK");
    assert_eq!(ServerResponse::BadRequest.reason(), "Bad Request");
    assert_eq!(ServerResponse::Forbidden.reason(), "Forbidden");
    assert_eq!(ServerResponse::MethodNotAllowed.reason(), "Method Not Allowed");
}

#[test]
fn send_response_writes_the_status_line() {
    let mut writer = Vec::new();
    send_response(&mut writer, ServerResponse::MethodNotAllowed);
    assert_eq!(writer, b"HTTP/1.1 405 Method Not Allowed\r\n\r\n");
}

#[test]
fn send_response_appends() {
    let mut writer = b"kept".to_vec();
    send_response(&mut writer, ServerResponse::Okay);
    assert_eq!(writer, b"keptHTTP/1.1 200 OK\r\n\r\n");
    send_response(&mut writer, ServerResponse::Forbidden);
    assert_eq!(writer, b"keptHTTP/1.1 200 OK\r\n\r\nHTTP/1.1 403 Forbidden\r\n\r\n");
}

#[test]
fn decimal_writes_numbers() {
    assert_eq!(decimal(0), "0");
    assert_eq!(decimal(7), "7");
    assert_eq!(decimal(10), "10");
    assert_eq!(decimal(405), "405");
    assert_eq!(decimal(1234567890), "1234567890");
    assert_eq!(decimal(u32::MAX), "4294967295");
}
