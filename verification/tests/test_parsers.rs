use servidor_http::request::{CookieList, Method, Query};
use servidor_http::response::{extension_to_mime, mime_to_extension};
use servidor_http::Error;

#[test]
fn query_parses_pairs() {
    let query = Query::try_from("a=1&b=2").unwrap();
    assert_eq!(query.get("a").unwrap(), "1");
    assert_eq!(query.get("b").unwrap(), "2");
    assert!(query.contains("a"));
    assert!(!query.contains("c"));
}

#[test]
fn query_pair_without_equals_fails() {
    match Query::try_from("a=1&b").unwrap_err() {
        Error::RequestError(servidor_http::request::RequestError::QueryError(q)) => {
            assert_eq!(q, "a=1&b")
        }
        _ => unreachable!(),
    }
}

#[test]
fn query_applies_the_substitution_table() {
    let query = Query::try_from("a=hello%20world&b=1%2B1&c=x+y").unwrap();
    assert_eq!(query.get("a").unwrap(), "hello world");
    // %2B becomes a plus sign, which the later plus rule turns into a space
    assert_eq!(query.get("b").unwrap(), "1 1");
    assert_eq!(query.get("c").unwrap(), "x y");
}

#[test]
fn query_unknown_escape_passes_through() {
    let query = Query::try_from("a=%7Bx%7D").unwrap();
    assert_eq!(query.get("a").unwrap(), "%7Bx%7D");
}

#[test]
fn query_value_keeps_everything_after_first_equals() {
    let query = Query::try_from("a=b=c").unwrap();
    assert_eq!(query.get("a").unwrap(), "b=c");
}

#[test]
fn query_last_duplicate_key_wins() {
    let query = Query::try_from("a=1&a=2").unwrap();
    assert_eq!(query.get("a").unwrap(), "2");
}

#[test]
fn query_set_get_remove() {
    let mut query = Query::try_from("a=1").unwrap();
    assert_eq!(query.set("a", "9").unwrap(), "1");
    assert_eq!(query.get("a").unwrap(), "9");
    assert_eq!(query.remove("a").unwrap(), "9");
    assert!(query.get("a").is_none());
    assert!(query.remove("a").is_none());
}

#[test]
fn cookie_header_parses_pairs() {
    let cookies = CookieList::try_from("cookie1=value1; cookie2=value2;").unwrap();
    assert_eq!(cookies.get("cookie1").unwrap(), "value1");
    assert_eq!(cookies.get("cookie2").unwrap(), "value2");
}

#[test]
fn cookie_prefix_is_stripped() {
    let cookies = CookieList::try_from("Cookie: name=value").unwrap();
    assert_eq!(cookies.get("name").unwrap(), "value");
}

#[test]
fn cookie_pair_without_value_fails() {
    match CookieList::try_from("name").unwrap_err() {
        Error::RequestError(servidor_http::request::RequestError::CookieError(c)) => {
            assert_eq!(c, "name")
        }
        _ => unreachable!(),
    }
}

#[test]
fn cookie_set_get_remove_contains() {
    let mut cookies = CookieList::new();
    cookies.set("a", "1");
    assert!(cookies.contains("a"));
    assert_eq!(cookies.get("a").unwrap(), "1");
    cookies.set("a", "2");
    assert_eq!(cookies.get("a").unwrap(), "2");
    cookies.remove("a");
    assert!(!cookies.contains("a"));
}

#[test]
fn empty_cookie_header_yields_no_cookies() {
    let cookies = CookieList::try_from("Cookie: ").unwrap();
    assert!(!cookies.contains("anything"));
}

#[test]
fn known_extensions_map_to_mime_types() {
    assert_eq!(extension_to_mime("txt").unwrap(), "text/plain");
    assert_eq!(extension_to_mime("html").unwrap(), "text/html");
    assert_eq!(extension_to_mime("json").unwrap(), "application/json");
    assert!(extension_to_mime("nope").is_none());
    assert!(extension_to_mime("").is_none());
}

#[test]
fn ambiguous_table_entries_resolve_to_the_first_match() {
    // two rows bind "3gp"; the first one wins
    assert_eq!(extension_to_mime("3gp").unwrap(), "video/3pgp");
    // several extensions map to application/octet-stream; the first wins
    assert_eq!(mime_to_extension("application/octet-stream").unwrap(), "arc");
    assert_eq!(mime_to_extension("image/jpeg").unwrap(), "jpg");
    assert!(mime_to_extension("made/up").is_none());
}

#[test]
fn method_try_from_accepts_only_the_closed_set() {
    assert_eq!(Method::try_from("GET").unwrap(), Method::GET);
    assert_eq!(Method::try_from("HEAD").unwrap(), Method::HEAD);
    assert!(Method::try_from("PATCH").is_err());
    assert_eq!(Method::from("DELETE"), Method::DELETE);
}
