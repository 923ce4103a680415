use servidor_http::package::Package;
use servidor_http::request::{self, Method};
use servidor_http::Error;

#[test]
fn request_without_headers() {
    let req_str = "GET /index.html HTTP/1.1\n";
    let req = request::Request::try_from(req_str).unwrap();

    assert_eq!(req, request::Request::new(Method::GET, "/index.html", None));
}

#[test]
fn request_with_headers() {
    let req_str = "GET /index.html HTTP/1.1
User-Agent: Mozilla/4.0 (compatible; MSIE5.01; Windows NT)
Host: www.example.com
";
    let mut req = request::Request::new(Method::GET, "/index.html", None);
    req.add_header(
        "User-Agent",
        "Mozilla/4.0 (compatible; MSIE5.01; Windows NT)",
    );
    req.add_header("Host", "www.example.com");

    assert_eq!(request::Request::try_from(req_str).unwrap(), req);
}

#[test]
fn request_with_body() {
    let req_str = "POST /index.html HTTP/1.1

This is the body of the request.";

    let mut req = request::Request::new(Method::POST, "/index.html", None);
    req.set_body(String::from("This is the body of the request."));

    assert_eq!(request::Request::try_from(req_str).unwrap(), req);
}

#[test]
fn empty_request() {
    let req_str = "";
    let req = request::Request::try_from(req_str);

    match req.unwrap_err() {
        Error::RequestError(request::RequestError::InvalidRequest(_)) => (),
        _ => unreachable!(),
    }
}

#[test]
fn get_request() {
    let req_str = format!("{} /index.html HTTP/1.1\n", "GET");
    let req = request::Request::try_from(req_str.as_str()).unwrap();

    assert_eq!(req, request::Request::new(request::Method::GET, "/index.html", None));
}

#[test]
fn post_request() {
    let req_str = format!("{} /index.html HTTP/1.1\n", "POST");
    let req = request::Request::try_from(req_str.as_str()).unwrap();

    assert_eq!(req, request::Request::new(request::Method::POST, "/index.html", None));
}

#[test]
fn put_request() {
    let req_str = format!("{} /index.html HTTP/1.1\n", "PUT");
    let req = request::Request::try_from(req_str.as_str()).unwrap();

    assert_eq!(req, request::Request::new(request::Method::PUT, "/index.html", None));
}

#[test]
fn delete_request() {
    let req_str = format!("{} /index.html HTTP/1.1\n", "DELETE");
    let req = request::Request::try_from(req_str.as_str()).unwrap();

    assert_eq!(req, request::Request::new(request::Method::DELETE, "/index.html", None));
}

#[test]
fn head_request() {
    let req_str = format!("{} /index.html HTTP/1.1\n", "HEAD");
    let req = request::Request::try_from(req_str.as_str()).unwrap();

    assert_eq!(req, request::Request::new(request::Method::HEAD, "/index.html", None));
}

#[test]
fn request_with_invalid_method() {
    let method = "Invalid,";
    let req_str = format!("{} /index.html HTTP/1.1\n", method);
    let req = request::Request::try_from(req_str.as_str());

    match req.unwrap_err() {
        Error::RequestError(request::RequestError::InvalidRequestMethod(mtd)) => {
            assert_eq!(mtd, method)
        }
        _ => unreachable!(),
    }
}

#[test]
fn weird_request_method() {
    let method_str = "ECHO";
    let method = Method::from(method_str);
    assert_eq!(method, Method::Other(method_str.to_string()));
}

#[test]
fn request_with_query() {
    let req_str = "GET /index.html?query=1&query2=2 HTTP/1.1\n";
    let req = request::Request::try_from(req_str).unwrap();

    assert_eq!(
        req.query
            .as_ref()
            .expect("No query found")
            .get("query")
            .expect("no query key found"),
        "1"
    );
    assert_eq!(
        req.query
            .as_ref()
            .expect("No query found")
            .get("query")
            .expect("no query key found"),
        "1"
    );
}

#[test]
fn request_with_cookies() {
    let req_str = "GET /index.html HTTP/1.1\r\nCookie: cookie1=value1; cookie2=value2;\r\n";

    let req = request::Request::try_from(req_str).unwrap();

    assert!(req.cookies.contains("cookie1") && req.cookies.contains("cookie2"));

    assert_eq!(req.cookies.get("cookie1").unwrap(), "value1");
    assert_eq!(req.cookies.get("cookie2").unwrap(), "value2");
}

#[test]
fn unknown_but_well_formed_method_parses() {
    let req = request::Request::try_from("PATCH /x HTTP/1.1\n").unwrap();
    assert_eq!(req.path.method, Method::Other(String::from("PATCH")));
    assert_eq!(req.path.path, "/x");
}

#[test]
fn header_value_is_trimmed() {
    let req = request::Request::try_from("GET / HTTP/1.1\nKey:   Value  \n").unwrap();
    assert_eq!(req.get_header_list().get("Key").unwrap(), "Value");
}

#[test]
fn missing_url_is_reported() {
    match request::Request::try_from("GET\n").unwrap_err() {
        Error::RequestError(request::RequestError::NoUrlFound) => (),
        _ => unreachable!(),
    }
}

#[test]
fn missing_version_is_reported() {
    match request::Request::try_from("GET /x\n").unwrap_err() {
        Error::RequestError(request::RequestError::InvalidRequest(_)) => (),
        _ => unreachable!(),
    }
}

#[test]
fn unsupported_version_is_reported() {
    match request::Request::try_from("GET / FTP/1.1\n").unwrap_err() {
        Error::RequestError(request::RequestError::HttpVersionNotSupported(v)) => {
            assert_eq!(v, "FTP/1.1")
        }
        _ => unreachable!(),
    }
}

#[test]
fn header_without_colon_is_reported() {
    match request::Request::try_from("GET / HTTP/1.1\nBadHeader\n").unwrap_err() {
        Error::RequestError(request::RequestError::InvalidHeader(h)) => {
            assert_eq!(h, "BadHeader")
        }
        _ => unreachable!(),
    }
}

#[test]
fn empty_query_is_reported() {
    match request::Request::try_from("GET /x? HTTP/1.1\n").unwrap_err() {
        Error::RequestError(request::RequestError::QueryError(_)) => (),
        _ => unreachable!(),
    }
}

#[test]
fn bad_cookie_pair_is_reported() {
    match request::Request::try_from("GET / HTTP/1.1\nCookie: bad\n").unwrap_err() {
        Error::RequestError(request::RequestError::CookieError(_)) => (),
        _ => unreachable!(),
    }
}

#[test]
fn remove_header_leaves_the_request_unchanged() {
    let mut req = request::Request::new(Method::GET, "/", None);
    req.add_header("Key", "Value");
    req.remove_header("Key");
    assert!(req.has_header("Key"));
}

#[test]
fn last_duplicate_header_wins() {
    let req = request::Request::try_from("GET / HTTP/1.1\nKey: one\nKey: two\n").unwrap();
    assert_eq!(req.get_header_list().get("Key").unwrap(), "two");
}
