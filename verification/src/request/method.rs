//! The request method: a closed set of known verbs plus an open
//! variant for any other well-formed token.
use vstd::prelude::*;

use crate::strutil::str_eq;

verus! {

/// The request methods the library knows by name; any other token
/// parses into `Other`.
#[derive(Debug, PartialEq, Eq, Hash)]
#[allow(missing_docs)]
pub enum Method {
    GET,
    POST,
    PUT,
    DELETE,
    HEAD,
    Other(String),
}

/// The abstract value of a `Method`.
#[allow(missing_docs)]
pub enum MethodV {
    GET,
    POST,
    PUT,
    DELETE,
    HEAD,
    Other(Seq<char>),
}

impl View for Method {
    type V = MethodV;

    open spec fn view(&self) -> MethodV {
        match self {
            Method::GET => MethodV::GET,
            Method::POST => MethodV::POST,
            Method::PUT => MethodV::PUT,
            Method::DELETE => MethodV::DELETE,
            Method::HEAD => MethodV::HEAD,
            Method::Other(name) => MethodV::Other(name@),
        }
    }
}

/// The method a token of the closed set denotes.
pub open spec fn closed_method_of(s: Seq<char>) -> Option<MethodV> {
    if s == "GET"@ {
        Some(MethodV::GET)
    } else if s == "POST"@ {
        Some(MethodV::POST)
    } else if s == "PUT"@ {
        Some(MethodV::PUT)
    } else if s == "DELETE"@ {
        Some(MethodV::DELETE)
    } else if s == "HEAD"@ {
        Some(MethodV::HEAD)
    } else {
        None
    }
}

/// The method any token denotes: one of the closed set, or `Other`
/// with the token inside.
pub open spec fn method_of(s: Seq<char>) -> MethodV {
    match closed_method_of(s) {
        Some(m) => m,
        None => MethodV::Other(s),
    }
}

impl Method {
    /// The method of a token of the closed set; any other token is
    /// refused.
    pub fn try_from(method_str: &str) -> (r: Result<Method, &'static str>)
        ensures
            match closed_method_of(method_str@) {
                Some(mv) => r matches Ok(m) && m@ == mv,
                None => r is Err,
            },
    {
        if str_eq(method_str, "GET") {
            Ok(Method::GET)
        } else if str_eq(method_str, "POST") {
            Ok(Method::POST)
        } else if str_eq(method_str, "PUT") {
            Ok(Method::PUT)
        } else if str_eq(method_str, "DELETE") {
            Ok(Method::DELETE)
        } else if str_eq(method_str, "HEAD") {
            Ok(Method::HEAD)
        } else {
            Err("Request met")
        }
    }

    /// The method of any token; an unknown token lands in `Other`.
    pub fn from(method_str: &str) -> (r: Method)
        ensures
            r@ == method_of(method_str@),
    {
        match Method::try_from(method_str) {
            Ok(m) => m,
            Err(_) => Method::Other(method_str.to_owned()),
        }
    }

    /// True when the two methods are the same verb, `Other` tokens
    /// matching by exact characters.
    pub fn same_as(&self, other: &Method) -> (r: bool)
        ensures
            r == (self@ == other@),
    {
        match (self, other) {
            (Method::GET, Method::GET) => true,
            (Method::POST, Method::POST) => true,
            (Method::PUT, Method::PUT) => true,
            (Method::DELETE, Method::DELETE) => true,
            (Method::HEAD, Method::HEAD) => true,
            (Method::Other(a), Method::Other(b)) => str_eq(a.as_str(), b.as_str()),
            _ => false,
        }
    }
}

impl Clone for Method {
    fn clone(&self) -> (r: Self)
        ensures
            r@ == self@,
    {
        match self {
            Method::GET => Method::GET,
            Method::POST => Method::POST,
            Method::PUT => Method::PUT,
            Method::DELETE => Method::DELETE,
            Method::HEAD => Method::HEAD,
            Method::Other(name) => Method::Other(name.clone()),
        }
    }
}

/// True for the characters RFC 9110 allows in a token, the shape a
/// method must have to parse at all.
pub open spec fn is_tchar(c: char) -> bool {
    ('a' <= c && c <= 'z') || ('A' <= c && c <= 'Z') || ('0' <= c && c <= '9') || c == '!' || c
        == '#' || c == '$' || c == '%' || c == '&' || c == '\'' || c == '*' || c == '+' || c == '-'
        || c == '.' || c == '^' || c == '_' || c == '`' || c == '|' || c == '~'
}

/// True when `s` is a non-empty run of token characters.
pub open spec fn is_token(s: Seq<char>) -> bool {
    s.len() > 0 && forall|i: int| 0 <= i < s.len() ==> is_tchar(s[i])
}

/// True when `s` is a non-empty run of token characters.
pub fn str_is_token(s: &str) -> (r: bool)
    ensures
        r == is_token(s@),
{
    let n = s.unicode_len();
    if n == 0 {
        return false;
    }
    let mut i: usize = 0;
    while i < n
        invariant
            0 <= i <= n,
            n == s@.len(),
            forall|j: int| 0 <= j < i ==> is_tchar(s@[j]),
        decreases n - i,
    {
        let c = s.get_char(i);
        let ok = ('a' <= c && c <= 'z') || ('A' <= c && c <= 'Z') || ('0' <= c && c <= '9') || c
            == '!' || c == '#' || c == '$' || c == '%' || c == '&' || c == '\'' || c == '*' || c
            == '+' || c == '-' || c == '.' || c == '^' || c == '_' || c == '`' || c == '|' || c
            == '~';
        if !ok {
            return false;
        }
        i += 1;
    }
    true
}

} // verus!
