use servidor_http::package::Package;
use servidor_http::response::{self, Status};
use servidor_http::BinaryRepresentation;

#[test]
fn basic_response_to_string() {
    let response = response::Response::new(Status::OK);

    let response_str = "HTTP/1.1 200 OK\r\n\r\n";
    assert_eq!(response.to_http_string(), response_str);
}

#[test]
fn response_with_headers_to_string() {
    let mut response = response::Response::new(Status::OK);
    response.add_header("Content-Type", "text/html");
    response.add_header("Server", "Servidor HTTP");

    let response_str = response.to_http_string();
    let mut lines = response_str.lines();

    assert_eq!(lines.next().unwrap(), "HTTP/1.1 200 OK");

    let headers = vec!["Content-Type: text/html", "Server: Servidor HTTP"];
    let mut missing_headers = false;

    for header in headers {
        if !response_str.contains(header) {
            missing_headers = true;
            break;
        }
    }

    assert!(!missing_headers);
}

#[test]
fn response_with_body_to_string() {
    let mut response = response::Response::new(Status::OK);
    response.set_body_string(String::from("Hello, world!"));

    let response_str = "HTTP/1.1 200 OK\r\n\r\nHello, world!";
    assert_eq!(response.to_http_string(), response_str);
}

#[test]
fn response_with_headers_and_body_to_string() {
    let mut response = response::Response::new(Status::OK);
    response.add_header("Content-Type", "text/html");
    response.add_header("Server", "Servidor HTTP");

    let body = "Test body";

    response.set_body_string(String::from(body));

    let response_str = response.to_http_string();
    let mut lines = response_str.lines();

    assert_eq!(lines.next().unwrap(), "HTTP/1.1 200 OK");

    let headers = vec!["Content-Type: text/html", "Server: Servidor HTTP"];
    let mut missing_headers = false;

    for header in headers {
        if !response_str.contains(header) {
            missing_headers = true;
            break;
        }
    }

    assert!(!missing_headers);

    assert_eq!(response_str.split("\r\n\r\n").last().unwrap(), body);
}

#[test]
fn packed_response_round_trip() {
    let mut response = response::Response::new(Status::OK);
    response.add_header("Content-Type", "text/html");
    response.set_body_string(String::from("hi"));
    response.pack();

    let bytes = response.to_binary();
    let text = String::from_utf8(bytes).unwrap();

    assert_eq!(text.lines().next().unwrap(), "HTTP/1.1 200 OK");
    assert!(text.contains("Content-Type: text/html"));
    assert!(text.contains("Content-Length: 2"));
    assert_eq!(text.split("\r\n\r\n").last().unwrap(), "hi");
}

#[test]
fn pack_without_body_reports_zero_length() {
    let mut response = response::Response::new(Status::OK);
    response.pack();

    let text = response.to_http_string();
    assert!(text.contains("Content-Length: 0"));
    assert!(text.contains("Content-Type: text/plain"));
}

#[test]
fn pack_keeps_an_explicit_content_type() {
    let mut response = response::Response::new(Status::OK);
    response.add_header("Content-Type", "application/json");
    response.pack();

    let text = response.to_http_string();
    assert!(text.contains("Content-Type: application/json"));
    assert!(!text.contains("text/plain"));
}

#[test]
fn packing_twice_recomputes_the_same_values() {
    let mut once = response::Response::new(Status::OK);
    once.set_body_string(String::from("abc"));
    once.pack();

    let mut twice = response::Response::new(Status::OK);
    twice.set_body_string(String::from("abc"));
    twice.pack();
    twice.pack();

    assert_eq!(once.to_binary(), twice.to_binary());
}

#[test]
fn redirect_sets_location_and_status() {
    let mut response = response::Response::new(Status::OK);
    response.redirect("/elsewhere");

    assert_eq!(response.status, Status::MovedPermanently);
    let text = response.to_http_string();
    assert_eq!(text.lines().next().unwrap(), "HTTP/1.1 301 Moved Permanently");
    assert!(text.contains("Location: /elsewhere"));
}

#[test]
fn session_cookie_is_http_only() {
    let mut response = response::Response::new(Status::OK);
    response.set_session_cookie("session", "abc123");

    let text = response.to_http_string();
    assert!(text.contains("Set-Cookie: session=abc123; HttpOnly"));
}

#[test]
fn binary_body_bytes_are_verbatim() {
    let mut response = response::Response::new(Status::OK);
    response.set_body(vec![0u8, 159, 146, 150]);

    let bytes = response.to_binary();
    assert!(bytes.ends_with(&[0u8, 159, 146, 150]));
}

#[test]
fn unknown_status_code_formats_as_unknown() {
    let status = Status::try_from(999).unwrap();
    assert_eq!(status, Status::Other(999, String::from("Unknown")));
    assert_eq!(status.status_text(), "999 Unknown");
}

#[test]
fn known_status_codes_have_reason_phrases() {
    assert_eq!(Status::try_from(200).unwrap(), Status::OK);
    assert_eq!(Status::try_from(404).unwrap(), Status::NotFound);
    assert_eq!(Status::OK.status_text(), "200 OK");
    assert_eq!(Status::NotFound.status_text(), "404 Not Found");
    assert_eq!(Status::ImATeapot.status_text(), "418 I'm A Teapot");
}

#[test]
fn remove_header_leaves_the_response_unchanged() {
    let mut response = response::Response::new(Status::OK);
    response.add_header("Key", "Value");
    response.remove_header("Key");
    assert!(response.has_header("Key"));
}

#[test]
fn file_body_sets_mime_type_from_extension() {
    let mut response = response::Response::new(Status::OK);
    response.set_file_body(b"<html></html>".to_vec(), "html");

    let text = response.to_http_string();
    assert!(text.contains("Content-Type: text/html"));
    assert_eq!(text.split("\r\n\r\n").last().unwrap(), "<html></html>");
}
