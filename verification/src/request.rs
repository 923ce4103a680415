//! The structured request and its parser.
use vstd::prelude::*;

mod cookie_list;
mod method;
mod query;

pub use cookie_list::spec_parse_cookies;
pub use cookie_list::CookieList;
pub use method::closed_method_of;
pub use method::is_tchar;
pub use method::is_token;
pub use method::method_of;
pub use method::Method;
pub use method::MethodV;
pub use query::query_decode;
pub use query::spec_parse_query;
pub use query::Query;

pub use crate::package::Package;

use crate::request::method::str_is_token;
use crate::router::Route;
use crate::strmap::StringMap;
use crate::strutil::after_first_token;
use crate::strutil::contains_seq;
use crate::strutil::find_char;
use crate::strutil::first_index_of;
use crate::strutil::first_token;
use crate::strutil::join_nl;
use crate::strutil::join_nl_from;
use crate::strutil::spec_lines;
use crate::strutil::spec_trim;
use crate::strutil::split_lines;
use crate::strutil::split_token;
use crate::strutil::str_contains;
use crate::strutil::views_of;
use crate::Error;

verus! {

/// Everything that can go wrong while parsing a request, each variant
/// carrying the offending fragment.
#[derive(Debug)]
pub enum RequestError {
    /// The request is empty, or its request line is short a token.
    InvalidRequest(String),
    /// The method token is not a well-formed token.
    InvalidRequestMethod(String),
    /// No URL token was found in the request line.
    NoUrlFound,
    /// The version token does not name HTTP.
    HttpVersionNotSupported(String),
    /// A header line has no colon.
    InvalidHeader(String),
    /// A query pair has no equals sign.
    QueryError(String),
    /// A cookie pair has no value.
    CookieError(String),
}

/// The abstract value of a `RequestError`.
#[allow(missing_docs)]
pub enum RequestErrorV {
    InvalidRequest(Seq<char>),
    InvalidRequestMethod(Seq<char>),
    NoUrlFound,
    HttpVersionNotSupported(Seq<char>),
    InvalidHeader(Seq<char>),
    QueryError(Seq<char>),
    CookieError(Seq<char>),
}

impl View for RequestError {
    type V = RequestErrorV;

    open spec fn view(&self) -> RequestErrorV {
        match self {
            RequestError::InvalidRequest(s) => RequestErrorV::InvalidRequest(s@),
            RequestError::InvalidRequestMethod(s) => RequestErrorV::InvalidRequestMethod(s@),
            RequestError::NoUrlFound => RequestErrorV::NoUrlFound,
            RequestError::HttpVersionNotSupported(s) => RequestErrorV::HttpVersionNotSupported(s@),
            RequestError::InvalidHeader(s) => RequestErrorV::InvalidHeader(s@),
            RequestError::QueryError(s) => RequestErrorV::QueryError(s@),
            RequestError::CookieError(s) => RequestErrorV::CookieError(s@),
        }
    }
}

/// A request made by a client.
#[derive(Debug, PartialEq, Eq)]
pub struct Request {
    /// The route (method and path) of the request.
    pub path: Route,
    /// The query of the request, if the path carried one.
    pub query: Option<Query>,
    /// The cookies of the request, empty when no `Cookie` header came.
    pub cookies: CookieList,
    pub(crate) headers: StringMap,
    pub(crate) body: Option<String>,
}

/// The abstract value of a `Request`.
pub struct RequestV {
    /// The abstract method.
    pub method: MethodV,
    /// The characters of the path, query excluded.
    pub path: Seq<char>,
    /// The decoded query mapping, if the path carried one.
    pub query: Option<Map<Seq<char>, Seq<char>>>,
    /// The cookie mapping.
    pub cookies: Map<Seq<char>, Seq<char>>,
    /// The header mapping, keys as received, last write winning.
    pub headers: Map<Seq<char>, Seq<char>>,
    /// The body, absent when the request had none.
    pub body: Option<Seq<char>>,
}

impl View for Request {
    type V = RequestV;

    closed spec fn view(&self) -> RequestV {
        RequestV {
            method: self.path.method@,
            path: self.path.path@,
            query: match self.query {
                Some(q) => Some(q@),
                None => None,
            },
            cookies: self.cookies@,
            headers: self.headers@,
            body: match self.body {
                Some(b) => Some(b@),
                None => None,
            },
        }
    }
}

/// How the view of a request reads off its public fields.
pub(crate) proof fn lemma_request_view(r: &Request)
    ensures
        r@.method == r.path.method@,
        r@.path == r.path.path@,
        r@.cookies == r.cookies@,
        r@.query == (match r.query {
            Some(q) => Some(q@),
            None => None,
        }),
{
}

/// The method a request-line token parses to: one of the closed set,
/// any other well-formed token as `Other`, and no method at all for a
/// token with a character no token may hold.
pub open spec fn spec_parse_method(tok: Seq<char>) -> Option<MethodV> {
    match closed_method_of(tok) {
        Some(m) => Some(m),
        None => if is_token(tok) {
            Some(MethodV::Other(tok))
        } else {
            None
        },
    }
}

/// What the request line parses to: its first three
/// whitespace-separated tokens read as method, path with optional
/// query, and version.  `raw` is the whole request, carried into the
/// errors that quote it.
pub open spec fn spec_parse_request_line(line: Seq<char>, raw: Seq<char>) -> Result<
    (MethodV, Seq<char>, Option<Map<Seq<char>, Seq<char>>>),
    RequestErrorV,
> {
    let mtok = first_token(line);
    if mtok.len() == 0 {
        Err(RequestErrorV::InvalidRequest(raw))
    } else {
        match spec_parse_method(mtok) {
            None => Err(RequestErrorV::InvalidRequestMethod(mtok)),
            Some(mv) => {
                let rest = after_first_token(line);
                let ptok = first_token(rest);
                if ptok.len() == 0 {
                    Err(RequestErrorV::NoUrlFound)
                } else {
                    let vtok = first_token(after_first_token(rest));
                    if vtok.len() == 0 {
                        Err(RequestErrorV::InvalidRequest(raw))
                    } else if !contains_seq(vtok, "HTTP/"@) {
                        Err(RequestErrorV::HttpVersionNotSupported(vtok))
                    } else {
                        match first_index_of(ptok, '?') {
                            Some(i) => match spec_parse_query(ptok.skip(i + 1)) {
                                Ok(q) => Ok((mv, ptok.take(i), Some(q))),
                                Err(e) => Err(e),
                            },
                            None => Ok((mv, ptok, None)),
                        }
                    }
                }
            },
        }
    }
}

/// The header mapping the lines from position `k` on denote, folded
/// onto `acc`, together with the position of the first body line:
/// header lines run to the first empty line or the end, each one split
/// at its first colon, the value trimmed.
pub open spec fn spec_parse_headers(
    ls: Seq<Seq<char>>,
    k: int,
    acc: Map<Seq<char>, Seq<char>>,
) -> Result<(Map<Seq<char>, Seq<char>>, int), RequestErrorV>
    decreases ls.len() - k,
{
    if k < 0 || k >= ls.len() {
        Ok((acc, k))
    } else if ls[k].len() == 0 {
        Ok((acc, k + 1))
    } else {
        match first_index_of(ls[k], ':') {
            None => Err(RequestErrorV::InvalidHeader(ls[k])),
            Some(i) => spec_parse_headers(
                ls,
                k + 1,
                acc.insert(ls[k].take(i), spec_trim(ls[k].skip(i + 1))),
            ),
        }
    }
}

/// What a whole request parses to: the request line, then the headers
/// up to the first empty line, the cookies of a `Cookie` header if one
/// came, and the remaining lines joined back with newlines as the
/// body.
pub open spec fn spec_parse_request(s: Seq<char>) -> Result<RequestV, RequestErrorV> {
    let lines = spec_lines(s);
    if lines.len() == 0 {
        Err(RequestErrorV::InvalidRequest(s))
    } else {
        match spec_parse_request_line(lines[0], s) {
            Err(e) => Err(e),
            Ok((mv, path, qopt)) => match spec_parse_headers(lines, 1, Map::empty()) {
                Err(e) => Err(e),
                Ok((hmap, bstart)) => {
                    let cres = if hmap.contains_key("Cookie"@) {
                        spec_parse_cookies(hmap["Cookie"@])
                    } else {
                        Ok(Map::empty())
                    };
                    match cres {
                        Err(e) => Err(e),
                        Ok(cmap) => {
                            let body_lines = lines.skip(bstart);
                            let body = if body_lines.len() == 0 {
                                None
                            } else {
                                Some(join_nl(body_lines))
                            };
                            Ok(
                                RequestV {
                                    method: mv,
                                    path: path,
                                    query: qopt,
                                    cookies: cmap,
                                    headers: hmap,
                                    body: body,
                                },
                            )
                        },
                    }
                },
            },
        }
    }
}

impl Request {
    /// A fresh request with the given method, path and query, no
    /// headers, no cookies and no body.
    pub fn new(method: Method, path: &str, query: Option<Query>) -> (r: Request)
        ensures
            r@ == (RequestV {
                method: method@,
                path: path@,
                query: match query {
                    Some(q) => Some(q@),
                    None => None,
                },
                cookies: Map::<Seq<char>, Seq<char>>::empty(),
                headers: Map::<Seq<char>, Seq<char>>::empty(),
                body: None,
            }),
    {
        let route = Route::new(method, path);
        Request {
            path: route,
            query,
            cookies: CookieList::new(),
            headers: StringMap::new(),
            body: None,
        }
    }

    /// Parses one whole request: the request line, the headers up to
    /// the first empty line, the cookies of a `Cookie` header if one
    /// came, and the remaining lines as the body.
    #[verifier::loop_isolation(false)]
    pub fn try_from(req: &str) -> (r: Result<Request, Error>)
        ensures
            match spec_parse_request(req@) {
                Ok(rv) => r matches Ok(request) && request@ == rv,
                Err(e) => r matches Err(Error::RequestError(re)) && re@ == e,
            },
    {
        let lines = split_lines(req);
        let ghost lv = views_of(lines@);
        if lines.len() == 0 {
            return Err(Error::RequestError(RequestError::InvalidRequest(req.to_owned())));
        }
        let line0: &str = lines[0].as_str();
        proof {
            assert(line0@ == lv[0]);
        }
        let (mtok, rest1) = split_token(line0);
        if mtok.unicode_len() == 0 {
            return Err(Error::RequestError(RequestError::InvalidRequest(req.to_owned())));
        }
        let method = match Method::try_from(mtok) {
            Ok(m) => m,
            Err(_) => {
                if str_is_token(mtok) {
                    Method::Other(mtok.to_owned())
                } else {
                    return Err(
                        Error::RequestError(RequestError::InvalidRequestMethod(mtok.to_owned())),
                    );
                }
            },
        };
        proof {
            assert(spec_parse_method(mtok@) == Some(method@));
        }
        let (ptok, rest2) = split_token(rest1);
        if ptok.unicode_len() == 0 {
            return Err(Error::RequestError(RequestError::NoUrlFound));
        }
        let (vtok, _) = split_token(rest2);
        if vtok.unicode_len() == 0 {
            return Err(Error::RequestError(RequestError::InvalidRequest(req.to_owned())));
        }
        proof {
            reveal_strlit("HTTP/");
        }
        if !str_contains(vtok, "HTTP/") {
            return Err(
                Error::RequestError(RequestError::HttpVersionNotSupported(vtok.to_owned())),
            );
        }
        let pn = ptok.unicode_len();
        let (path_str, query): (&str, Option<Query>) = match find_char(ptok, '?') {
            Some(i) => {
                proof {
                    crate::strutil::lemma_first_index_of(ptok@, '?');
                }
                let qs = ptok.substring_char(i + 1, pn);
                proof {
                    assert(qs@ =~= ptok@.skip(i as int + 1));
                }
                match Query::try_from(qs) {
                    Ok(q) => {
                        let p = ptok.substring_char(0, i);
                        proof {
                            assert(p@ =~= ptok@.take(i as int));
                        }
                        (p, Some(q))
                    },
                    Err(e) => {
                        return Err(e);
                    },
                }
            },
            None => (ptok, None),
        };
        let ghost parsed_line = spec_parse_request_line(lv[0], req@);
        proof {
            assert(parsed_line matches Ok(t) && t.0 == method@ && t.1 == path_str@ && t.2 == (
            match query {
                Some(q) => Some(q@),
                None => None,
            }));
        }
        // headers, up to the first empty line or the end of input
        let mut headers = StringMap::new();
        let mut k: usize = 1;
        let mut bstart: usize = lines.len();
        let mut stopped = false;
        while k < lines.len() && !stopped
            invariant
                1 <= k <= lines@.len(),
                !stopped ==> bstart == lines@.len() && spec_parse_headers(lv, 1, Map::empty())
                    == spec_parse_headers(lv, k as int, headers@),
                stopped ==> bstart <= lines@.len() && spec_parse_headers(lv, 1, Map::empty())
                    == Ok::<(Map<Seq<char>, Seq<char>>, int), RequestErrorV>((
                    headers@,
                    bstart as int,
                )),
            decreases lines@.len() - k,
        {
            let line: &str = lines[k].as_str();
            proof {
                assert(line@ == lv[k as int]);
            }
            let n = line.unicode_len();
            if n == 0 {
                bstart = k + 1;
                stopped = true;
            } else {
                match find_char(line, ':') {
                    None => {
                        return Err(
                            Error::RequestError(RequestError::InvalidHeader(line.to_owned())),
                        );
                    },
                    Some(i) => {
                        proof {
                            crate::strutil::lemma_first_index_of(line@, ':');
                        }
                        let key = line.substring_char(0, i);
                        let raw_value = line.substring_char(i + 1, n);
                        proof {
                            assert(key@ =~= lv[k as int].take(i as int));
                            assert(raw_value@ =~= lv[k as int].skip(i as int + 1));
                        }
                        let value = crate::strutil::str_trim(raw_value);
                        headers.insert(key, value);
                    },
                }
            }
            k += 1;
        }
        proof {
            assert(spec_parse_headers(lv, 1, Map::empty()) == Ok::<
                (Map<Seq<char>, Seq<char>>, int),
                RequestErrorV,
            >((headers@, bstart as int)));
        }
        // cookies, from a `Cookie` header if one came
        let cookies = match headers.get("Cookie") {
            Some(cookie_value) => match CookieList::try_from(cookie_value.as_str()) {
                Ok(list) => list,
                Err(e) => {
                    return Err(e);
                },
            },
            None => CookieList::new(),
        };
        // the remaining lines are the body
        let body = if bstart < lines.len() {
            Some(join_nl_from(&lines, bstart))
        } else {
            proof {
                assert(lv.skip(bstart as int).len() == 0);
            }
            None
        };
        let request = Request {
            path: Route::new(method, path_str),
            query,
            cookies,
            headers,
            body,
        };
        proof {
            assert(spec_parse_request(req@) matches Ok(rv) && request@ == rv);
        }
        Ok(request)
    }
}

/// Parsing a request whose request line was built from any
/// well-formed method token and any whitespace-free, query-free path
/// yields back exactly that method and that path.
pub proof fn lemma_request_line_roundtrip(m: Seq<char>, p: Seq<char>)
    requires
        is_token(m),
        p.len() > 0,
        forall|i: int| 0 <= i < p.len() ==> !crate::strutil::is_ws(#[trigger] p[i]),
        forall|i: int| 0 <= i < p.len() ==> #[trigger] p[i] != '?',
    ensures
        spec_parse_request(m + seq![' '] + p + " HTTP/1.1"@) matches Ok(rv) && rv.method
            == method_of(m) && rv.path == p,
{
    reveal_strlit(" HTTP/1.1");
    reveal_strlit("HTTP/1.1");
    reveal_strlit("HTTP/");
    let ver = " HTTP/1.1"@;
    let vtok = "HTTP/1.1"@;
    let line = m + seq![' '] + p + ver;
    assert(forall|i: int| 0 <= i < m.len() ==> crate::request::is_tchar(#[trigger] m[i]));
    assert forall|i: int| 0 <= i < m.len() implies !crate::strutil::is_ws(#[trigger] m[i]) by {
        assert(crate::request::is_tchar(m[i]));
    }
    // the whole text is one line
    assert forall|i: int| 0 <= i < line.len() implies #[trigger] line[i] != '\n' by {
        if i < m.len() {
            assert(line[i] == m[i]);
        } else if i == m.len() {
            assert(line[i] == ' ');
        } else if i < m.len() + 1 + p.len() {
            assert(line[i] == p[i - m.len() - 1]);
        } else {
            assert(line[i] == ver[i - m.len() - 1 - p.len()]);
        }
    }
    crate::strutil::lemma_spec_lines_single(line);
    assert(spec_lines(line)[0] == line);
    // the three tokens of the request line
    let after_m = seq![' '] + p + ver;
    assert(line =~= m + after_m);
    assert(line[0] == m[0]);
    assert(crate::strutil::drop_ws_front(line) == line);
    crate::strutil::lemma_token_split(m, after_m);
    assert(first_token(line) == m);
    assert(after_first_token(line) == after_m);
    let p_ver = p + ver;
    assert(after_m.drop_first() =~= p_ver);
    assert(crate::strutil::drop_ws_front(after_m) == crate::strutil::drop_ws_front(p_ver));
    assert(p_ver[0] == p[0]);
    assert(crate::strutil::drop_ws_front(p_ver) == p_ver);
    crate::strutil::lemma_token_split(p, ver);
    assert(first_token(after_m) == p);
    assert(after_first_token(after_m) == ver);
    assert(ver.drop_first() =~= vtok);
    assert(crate::strutil::drop_ws_front(ver) == crate::strutil::drop_ws_front(vtok));
    assert(vtok[0] == 'H');
    assert(crate::strutil::drop_ws_front(vtok) == vtok);
    crate::strutil::lemma_token_split(vtok, Seq::<char>::empty());
    assert(vtok + Seq::<char>::empty() =~= vtok);
    assert(first_token(ver) == vtok);
    // the version token names HTTP
    assert(crate::strutil::starts_with(vtok, "HTTP/"@)) by {
        assert(vtok.subrange(0, 5) =~= "HTTP/"@);
    }
    assert(contains_seq(vtok, "HTTP/"@));
    // the path has no query
    crate::strutil::lemma_first_index_of_is(p, '?', p.len() as int);
    // the method token parses to itself
    assert(spec_parse_method(m) == Some(method_of(m)));
    assert(spec_parse_request_line(line, line) matches Ok(t) && t.0 == method_of(m) && t.1 == p
        && t.2 is None);
    // no headers, no cookies, no body
    assert(spec_parse_headers(spec_lines(line), 1, Map::empty()) == Ok::<
        (Map<Seq<char>, Seq<char>>, int),
        RequestErrorV,
    >((Map::empty(), 1)));
    assert(!Map::<Seq<char>, Seq<char>>::empty().contains_key("Cookie"@));
    assert(spec_lines(line).skip(1) =~= Seq::<Seq<char>>::empty());
}

/// Parsing a request with a header line built from any colon-free key
/// and any value yields a header mapping that binds exactly that key
/// to the trimmed value.
pub proof fn lemma_request_with_header(k: Seq<char>, v: Seq<char>)
    requires
        forall|i: int| 0 <= i < k.len() ==> #[trigger] k[i] != ':',
        forall|i: int| 0 <= i < k.len() ==> #[trigger] k[i] != '\n',
        forall|i: int| 0 <= i < v.len() ==> #[trigger] v[i] != '\n',
        v.len() > 0 ==> v.last() != '\r',
        k != "Cookie"@,
    ensures
        spec_parse_request(
            "GET / HTTP/1.1"@ + seq!['\n'] + k + seq![':'] + v + seq!['\n'],
        ) matches Ok(rv) && rv.headers == Map::<Seq<char>, Seq<char>>::empty().insert(
            k,
            spec_trim(v),
        ) && rv.headers.contains_key(k) && rv.headers[k] == spec_trim(v),
{
    reveal_strlit("GET / HTTP/1.1");
    reveal_strlit("GET");
    reveal_strlit("/");
    reveal_strlit("HTTP/1.1");
    reveal_strlit("HTTP/");
    reveal_strlit("Cookie");
    let l0 = "GET / HTTP/1.1"@;
    let hl = k + seq![':'] + v;
    let s = l0 + seq!['\n'] + k + seq![':'] + v + seq!['\n'];
    // the text splits into the request line and the header line
    assert(s =~= l0 + seq!['\n'] + (hl + seq!['\n'] + Seq::<char>::empty()));
    assert forall|i: int| 0 <= i < hl.len() implies #[trigger] hl[i] != '\n' by {
        if i < k.len() {
            assert(hl[i] == k[i]);
        } else if i == k.len() {
            assert(hl[i] == ':');
        } else {
            assert(hl[i] == v[i - k.len() - 1]);
        }
    }
    crate::strutil::lemma_spec_lines_split(hl, Seq::<char>::empty());
    crate::strutil::lemma_spec_lines_split(l0, hl + seq!['\n'] + Seq::<char>::empty());
    assert(crate::strutil::strip_cr(hl) == hl) by {
        if v.len() > 0 {
            assert(hl.last() == v.last());
        } else {
            assert(hl.last() == ':');
        }
    }
    assert(crate::strutil::strip_cr(l0) == l0);
    let lines = spec_lines(s);
    assert(lines =~= seq![l0, hl]);
    // the request line parses to GET /
    let r1 = l0.skip(3);
    assert(l0[0] == 'G');
    assert(crate::strutil::drop_ws_front(l0) == l0);
    crate::strutil::lemma_split_non_ws_at(l0, 3);
    assert(l0.take(3) =~= "GET"@);
    assert(l0.skip(3) =~= r1);
    assert(first_token(l0) == "GET"@);
    assert(after_first_token(l0) == r1);
    crate::strutil::lemma_drop_ws_front_at(r1, 1);
    let r2 = r1.skip(1);
    crate::strutil::lemma_split_non_ws_at(r2, 1);
    assert(r2.take(1) =~= "/"@);
    assert(first_token(r1) == "/"@);
    let r3 = r2.skip(1);
    assert(after_first_token(r1) == r3);
    crate::strutil::lemma_drop_ws_front_at(r3, 1);
    let vt = r3.skip(1);
    assert(vt =~= "HTTP/1.1"@);
    crate::strutil::lemma_split_non_ws_at(vt, vt.len() as int);
    assert(vt.take(vt.len() as int) =~= vt);
    assert(first_token(r3) == "HTTP/1.1"@);
    assert(crate::strutil::starts_with("HTTP/1.1"@, "HTTP/"@)) by {
        assert("HTTP/1.1"@.subrange(0, 5) =~= "HTTP/"@);
    }
    assert(contains_seq("HTTP/1.1"@, "HTTP/"@));
    crate::strutil::lemma_first_index_of_is("/"@, '?', 1);
    assert(spec_parse_method("GET"@) == Some(MethodV::GET));
    assert(spec_parse_request_line(lines[0], s) matches Ok(t) && t.0 == MethodV::GET && t.1
        == "/"@ && t.2 is None);
    // the header line contributes k bound to the trimmed value
    lemma_header_line(lines, 1, Map::empty(), k, v);
    assert(spec_parse_headers(lines, 1, Map::empty()) == Ok::<
        (Map<Seq<char>, Seq<char>>, int),
        RequestErrorV,
    >((Map::empty().insert(k, spec_trim(v)), 2)));
    // no cookies and no body follow
    let hmap = Map::<Seq<char>, Seq<char>>::empty().insert(k, spec_trim(v));
    assert(!hmap.contains_key("Cookie"@));
    assert(lines.skip(2) =~= Seq::<Seq<char>>::empty());
}

/// A header line built from any colon-free key and any value
/// contributes exactly that key, bound to the trimmed value, to the
/// header mapping; the lines after it parse on from there.
pub proof fn lemma_header_line(
    ls: Seq<Seq<char>>,
    j: int,
    acc: Map<Seq<char>, Seq<char>>,
    k: Seq<char>,
    v: Seq<char>,
)
    requires
        0 <= j < ls.len(),
        ls[j] == k + seq![':'] + v,
        forall|i: int| 0 <= i < k.len() ==> #[trigger] k[i] != ':',
    ensures
        spec_parse_headers(ls, j, acc) == spec_parse_headers(
            ls,
            j + 1,
            acc.insert(k, spec_trim(v)),
        ),
{
    let line = k + seq![':'] + v;
    assert(line[k.len() as int] == ':');
    assert(forall|i: int| 0 <= i < k.len() ==> #[trigger] line[i] == k[i]);
    crate::strutil::lemma_first_index_of_is(line, ':', k.len() as int);
    assert(line.take(k.len() as int) =~= k);
    assert(line.skip(k.len() as int + 1) =~= v);
}

impl Package<String> for Request {
    fn get_header_list(&self) -> (r: StringMap)
        ensures
            r@ == self@.headers,
    {
        self.headers.clone()
    }

    fn set_header_list(&mut self, headers: StringMap)
        ensures
            final(self)@ == (RequestV { headers: headers@, ..old(self)@ }),
    {
        self.headers = headers;
    }

    fn set_body(&mut self, body: String)
        ensures
            final(self)@ == (RequestV { body: Some(body@), ..old(self)@ }),
    {
        self.body = Some(body);
    }

    fn get_body(&self) -> (r: Option<String>)
        ensures
            match self@.body {
                Some(b) => r matches Some(rb) && rb@ == b,
                None => r is None,
            },
    {
        match &self.body {
            Some(b) => Some(b.clone()),
            None => None,
        }
    }

    fn add_header(&mut self, key: &str, value: &str)
        ensures
            final(self)@ == (RequestV {
                headers: old(self)@.headers.insert(key@, value@),
                ..old(self)@
            }),
    {
        self.headers.insert(key, value);
    }

    fn has_header(&self, key: &str) -> (r: bool)
        ensures
            r == self@.headers.contains_key(key@),
    {
        self.headers.contains_key(key)
    }

    fn remove_header(&mut self, key: &str)
        ensures
            final(self)@ == old(self)@,
    {
        let mut copy = self.get_header_list();
        copy.remove(key);
    }
}

impl Clone for Request {
    fn clone(&self) -> (r: Self)
        ensures
            r@ == self@,
    {
        Request {
            path: self.path.clone(),
            query: match &self.query {
                Some(q) => Some(q.clone()),
                None => None,
            },
            cookies: self.cookies.clone(),
            headers: self.headers.clone(),
            body: match &self.body {
                Some(b) => Some(b.clone()),
                None => None,
            },
        }
    }
}

} // verus!
