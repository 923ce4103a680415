//! The structured response and its wire serialization.
use vstd::prelude::*;

pub(crate) mod file_mime;
mod status;

pub use file_mime::extension_to_mime;
pub use file_mime::mime_to_extension;
pub use file_mime::spec_extension_to_mime;
pub use file_mime::spec_mime_to_extension;
pub use status::spec_status_of;
pub use status::spec_status_text;
pub use status::Status;
pub use status::StatusV;

pub use crate::package::Package;

use crate::strmap::insert_pairs;
use crate::strmap::pairs_to_map;
use crate::strmap::StringMap;
use crate::strutil::spec_dec_digits;
use crate::strutil::usize_to_string;
use crate::BinaryRepresentation;
use vstd::utf8::encode_utf8;

verus! {

/// A response on its way to a client.
#[derive(Debug, PartialEq, Eq)]
pub struct Response {
    /// Status of the response.
    pub status: Status,
    headers: StringMap,
    body: Option<Vec<u8>>,
}

/// The abstract value of a `Response`: its status, its header pairs in
/// insertion order, and its body bytes.
pub struct ResponseV {
    /// The abstract status.
    pub status: StatusV,
    /// The header pairs, in the order serialization writes them.
    pub headers: Seq<(Seq<char>, Seq<char>)>,
    /// The body bytes, absent when no body was set.
    pub body: Option<Seq<u8>>,
}

impl ResponseV {
    /// The header mapping the pairs denote.
    pub open spec fn headers_map(&self) -> Map<Seq<char>, Seq<char>> {
        pairs_to_map(self.headers)
    }

    /// The length serialization reports for the body.
    pub open spec fn body_len(&self) -> int {
        match self.body {
            Some(b) => b.len() as int,
            None => 0,
        }
    }
}

impl View for Response {
    type V = ResponseV;

    closed spec fn view(&self) -> ResponseV {
        ResponseV {
            status: self.status@,
            headers: self.headers.spec_pairs(),
            body: match self.body {
                Some(b) => Some(b@),
                None => None,
            },
        }
    }
}

/// One serialized header line for each pair, in order.
pub open spec fn headers_text(ps: Seq<(Seq<char>, Seq<char>)>) -> Seq<char>
    decreases ps.len(),
{
    if ps.len() == 0 {
        Seq::empty()
    } else {
        ps.first().0 + ": "@ + ps.first().1 + "\r\n"@ + headers_text(ps.drop_first())
    }
}

pub proof fn lemma_headers_text_push(ps: Seq<(Seq<char>, Seq<char>)>, x: (Seq<char>, Seq<char>))
    ensures
        headers_text(ps.push(x)) == headers_text(ps) + (x.0 + ": "@ + x.1 + "\r\n"@),
    decreases ps.len(),
{
    let u = ps.push(x);
    if ps.len() == 0 {
        assert(u.drop_first() =~= Seq::<(Seq<char>, Seq<char>)>::empty());
        assert(u.first() == x);
        assert(headers_text(u.drop_first()) =~= Seq::<char>::empty());
        assert(headers_text(u) =~= headers_text(ps) + (x.0 + ": "@ + x.1 + "\r\n"@));
    } else {
        lemma_headers_text_push(ps.drop_first(), x);
        assert(u.drop_first() =~= ps.drop_first().push(x));
        assert(u.first() == ps.first());
        let line = x.0 + ": "@ + x.1 + "\r\n"@;
        assert(headers_text(u) == ps.first().0 + ": "@ + ps.first().1 + "\r\n"@ + (headers_text(
            ps.drop_first(),
        ) + line));
        assert(headers_text(u) =~= (ps.first().0 + ": "@ + ps.first().1 + "\r\n"@ + headers_text(
            ps.drop_first(),
        )) + line);
    }
}

/// The text before the body: the status line, one line for each
/// header in order, and an empty line.
pub open spec fn spec_head_text(r: ResponseV) -> Seq<char> {
    "HTTP/1.1 "@ + spec_status_text(r.status) + "\r\n"@ + headers_text(r.headers) + "\r\n"@
}

/// The wire bytes of a response: the head text in UTF-8, then the body
/// bytes verbatim.
pub open spec fn spec_to_binary(r: ResponseV) -> Seq<u8> {
    encode_utf8(spec_head_text(r)) + (match r.body {
        Some(b) => b,
        None => Seq::<u8>::empty(),
    })
}

/// The characters of ASCII bytes, one character per byte.
pub open spec fn ascii_chars_of(b: Seq<u8>) -> Seq<char> {
    b.map_values(|x: u8| x as char)
}

/// True when every byte is ASCII.
pub open spec fn is_ascii_bytes(b: Seq<u8>) -> bool {
    forall|i: int| 0 <= i < b.len() ==> b[i] < 128
}

/// Packing a response: `Content-Length` is set from the body length,
/// and `Content-Type` defaults to `text/plain` if none was set.
pub open spec fn spec_pack(r: ResponseV) -> ResponseV {
    let with_len = ResponseV {
        headers: insert_pairs(r.headers, "Content-Length"@, spec_dec_digits(r.body_len())),
        ..r
    };
    if with_len.headers_map().contains_key("Content-Type"@) {
        with_len
    } else {
        ResponseV {
            headers: insert_pairs(with_len.headers, "Content-Type"@, "text/plain"@),
            ..with_len
        }
    }
}

/// Packing a packed response recomputes the same values from the same
/// body: packing is idempotent.
pub proof fn lemma_pack_idempotent(r: ResponseV)
    ensures
        spec_pack(spec_pack(r)) == spec_pack(r),
{
    reveal_strlit("Content-Length");
    reveal_strlit("Content-Type");
    let cl = "Content-Length"@;
    let ct = "Content-Type"@;
    let tp = "text/plain"@;
    assert(cl != ct) by {
        assert(cl.len() == 14);
        assert(ct.len() == 12);
    }
    let digits = spec_dec_digits(r.body_len());
    let x = crate::strmap::insert_pairs(r.headers, cl, digits);
    crate::strmap::lemma_insert_pairs_first_binding(r.headers, cl, digits);
    let r1 = spec_pack(r);
    assert(r1.body == r.body);
    if pairs_to_map(x).contains_key(ct) {
        assert(r1.headers == x);
        crate::strmap::lemma_insert_pairs_absorb(x, cl, digits);
        assert(spec_pack(r1) == r1);
    } else {
        let y = crate::strmap::insert_pairs(x, ct, tp);
        assert(r1.headers == y);
        crate::strmap::lemma_insert_pairs_keeps_binding(x, cl, digits, ct, tp);
        crate::strmap::lemma_insert_pairs_absorb(y, cl, digits);
        crate::strmap::lemma_insert_pairs_first_binding(x, ct, tp);
        let j = choose|j: int|
            0 <= j < y.len() && #[trigger] y[j] == (ct, tp) && forall|l: int|
                0 <= l < j ==> (#[trigger] y[l]).0 != ct;
        crate::strmap::lemma_pairs_to_map_haskey(y, j);
        assert(pairs_to_map(y).contains_key(ct));
        assert(spec_pack(r1) == r1);
    }
}

/// A fresh copy of a byte vector.
fn clone_bytes(v: &Vec<u8>) -> (r: Vec<u8>)
    ensures
        r@ == v@,
{
    let mut out: Vec<u8> = Vec::new();
    let mut i: usize = 0;
    while i < v.len()
        invariant
            0 <= i <= v@.len(),
            out@ == v@.take(i as int),
        decreases v@.len() - i,
    {
        out.push(v[i]);
        proof {
            assert(out@ =~= v@.take(i as int + 1));
        }
        i += 1;
    }
    proof {
        assert(out@ =~= v@);
    }
    out
}

impl Response {
    /// A fresh response with the given status, no headers and no body.
    pub fn new(status: Status) -> (r: Response)
        ensures
            r@ == (ResponseV {
                status: status@,
                headers: Seq::<(Seq<char>, Seq<char>)>::empty(),
                body: None,
            }),
    {
        let r = Response { status, headers: StringMap::new(), body: None };
        r
    }

    /// Turns the response into a redirect to `location`: sets the
    /// `Location` header and the status `MovedPermanently`.
    pub fn redirect(&mut self, location: &str)
        ensures
            final(self)@ == (ResponseV {
                status: StatusV::MovedPermanently,
                headers: insert_pairs(old(self)@.headers, "Location"@, location@),
                body: old(self)@.body,
            }),
    {
        self.add_header("Location", location);
        self.status = Status::MovedPermanently;
    }

    /// Sets the body to the UTF-8 bytes of a string.
    pub fn set_body_string(&mut self, body: String)
        ensures
            final(self)@ == (ResponseV { body: Some(encode_utf8(body@)), ..old(self)@ }),
    {
        let bytes = body.as_str().as_bytes_vec();
        self.set_body(bytes);
    }

    /// Sets a session cookie (with the `HttpOnly` flag).
    pub fn set_session_cookie(&mut self, name: &str, value: &str)
        ensures
            final(self)@ == (ResponseV {
                headers: insert_pairs(
                    old(self)@.headers,
                    "Set-Cookie"@,
                    name@ + "="@ + value@ + "; HttpOnly"@,
                ),
                ..old(self)@
            }),
    {
        let mut cookie = String::from_str(name);
        cookie.append("=");
        cookie.append(value);
        cookie.append("; HttpOnly");
        self.add_header("Set-Cookie", cookie.as_str());
    }

    /// Sets the body to the contents of a file and the `Content-Type`
    /// to the MIME type of the file's extension.  The caller reads the
    /// file and names its extension (without the period); the extension
    /// must be one the MIME table knows.
    pub fn set_file_body(&mut self, content: Vec<u8>, extension: &str)
        requires
            spec_extension_to_mime(extension@) is Some,
        ensures
            final(self)@ == (ResponseV {
                headers: insert_pairs(
                    old(self)@.headers,
                    "Content-Type"@,
                    spec_extension_to_mime(extension@).unwrap(),
                ),
                body: Some(content@),
                ..old(self)@
            }),
    {
        let content_type = match extension_to_mime(extension) {
            Some(m) => m,
            None => {
                proof {
                    assert(false);
                }
                ""
            },
        };
        self.add_header("Content-Type", content_type);
        self.set_body(content);
    }

    /// Finalizes the response for transmission: sets `Content-Length`
    /// from the body length and a default `Content-Type: text/plain`
    /// if none was set.  Calling it again recomputes the same values.
    pub fn pack(&mut self)
        ensures
            final(self)@ == spec_pack(old(self)@),
    {
        let len: usize = match &self.body {
            Some(b) => b.len(),
            None => 0,
        };
        let content_length = usize_to_string(len);
        self.headers.insert("Content-Length", content_length.as_str());
        proof {
            crate::strmap::lemma_stringmap_view(self.headers);
        }
        if !self.headers.contains_key("Content-Type") {
            self.headers.insert("Content-Type", "text/plain");
        }
    }

    /// The text before the body: status line, header lines in
    /// insertion order, and an empty line.
    fn head_string(&self) -> (r: String)
        ensures
            r@ == spec_head_text(self@),
    {
        let mut s = String::from_str("HTTP/1.1 ");
        let status_line = self.status.status_text();
        s.append(status_line.as_str());
        s.append("\r\n");
        let ghost ps = self@.headers;
        let n = self.headers.len();
        let mut i: usize = 0;
        while i < n
            invariant
                0 <= i <= n,
                n == ps.len(),
                ps == self@.headers,
                s@ == "HTTP/1.1 "@ + spec_status_text(self@.status) + "\r\n"@ + headers_text(
                    ps.take(i as int),
                ),
            decreases n - i,
        {
            let (key, value) = self.headers.pair_at(i);
            s.append(key.as_str());
            s.append(": ");
            s.append(value.as_str());
            s.append("\r\n");
            proof {
                lemma_headers_text_push(ps.take(i as int), ps[i as int]);
                assert(ps.take(i as int).push(ps[i as int]) =~= ps.take(i as int + 1));
                assert(s@ =~= "HTTP/1.1 "@ + spec_status_text(self@.status) + "\r\n"@
                    + (headers_text(ps.take(i as int)) + (ps[i as int].0 + ": "@ + ps[i as int].1
                    + "\r\n"@)));
            }
            i += 1;
        }
        proof {
            assert(ps.take(n as int) =~= ps);
        }
        s.append("\r\n");
        s
    }

    /// The whole response as text, usable when the body is ASCII: the
    /// head text followed by the body bytes read as characters.
    pub fn to_http_string(&self) -> (r: String)
        requires
            match self@.body {
                Some(b) => is_ascii_bytes(b),
                None => true,
            },
        ensures
            r@ == spec_head_text(self@) + (match self@.body {
                Some(b) => ascii_chars_of(b),
                None => Seq::<char>::empty(),
            }),
    {
        let mut s = self.head_string();
        match &self.body {
            Some(b) => {
                let ghost bv = b@;
                let ghost head = s@;
                proof {
                    assert(self@.body == Some(bv));
                    assert(is_ascii_bytes(bv));
                }
                let mut i: usize = 0;
                while i < b.len()
                    invariant
                        0 <= i <= bv.len(),
                        bv == b@,
                        is_ascii_bytes(bv),
                        s@ == head + ascii_chars_of(bv.take(i as int)),
                    decreases bv.len() - i,
                {
                    s.push(b[i] as char);
                    proof {
                        assert(ascii_chars_of(bv.take(i as int + 1)) =~= ascii_chars_of(
                            bv.take(i as int),
                        ).push(bv[i as int] as char));
                        assert(s@ =~= head + ascii_chars_of(bv.take(i as int + 1)));
                    }
                    i += 1;
                }
                proof {
                    assert(bv.take(bv.len() as int) =~= bv);
                }
            },
            None => {
                proof {
                    assert(s@ =~= spec_head_text(self@) + Seq::<char>::empty());
                }
            },
        }
        s
    }
}

impl BinaryRepresentation for Response {
    fn to_binary(&self) -> (r: Vec<u8>)
        ensures
            r@ == spec_to_binary(self@),
    {
        let head = self.head_string();
        let mut bytes = head.as_str().as_bytes_vec();
        match &self.body {
            Some(b) => {
                let mut tail = clone_bytes(b);
                bytes.append(&mut tail);
            },
            None => {
                proof {
                    assert(bytes@ =~= spec_to_binary(self@));
                }
            },
        }
        bytes
    }
}

impl Package<Vec<u8>> for Response {
    fn get_header_list(&self) -> (r: StringMap)
        ensures
            r.spec_pairs() == self@.headers,
    {
        self.headers.clone()
    }

    fn set_header_list(&mut self, headers: StringMap)
        ensures
            final(self)@ == (ResponseV { headers: headers.spec_pairs(), ..old(self)@ }),
    {
        self.headers = headers;
    }

    fn set_body(&mut self, body: Vec<u8>)
        ensures
            final(self)@ == (ResponseV { body: Some(body@), ..old(self)@ }),
    {
        self.body = Some(body);
    }

    fn get_body(&self) -> (r: Option<Vec<u8>>)
        ensures
            match self@.body {
                Some(b) => r matches Some(rb) && rb@ == b,
                None => r is None,
            },
    {
        match &self.body {
            Some(b) => Some(clone_bytes(b)),
            None => None,
        }
    }

    fn add_header(&mut self, key: &str, value: &str)
        ensures
            final(self)@ == (ResponseV {
                headers: insert_pairs(old(self)@.headers, key@, value@),
                ..old(self)@
            }),
    {
        self.headers.insert(key, value);
    }

    fn has_header(&self, key: &str) -> (r: bool)
        ensures
            r == self@.headers_map().contains_key(key@),
    {
        proof {
            crate::strmap::lemma_stringmap_view(self.headers);
        }
        self.headers.contains_key(key)
    }

    fn remove_header(&mut self, key: &str)
        ensures
            final(self)@ == old(self)@,
    {
        let mut copy = self.get_header_list();
        copy.remove(key);
    }
}

impl Clone for Response {
    fn clone(&self) -> (r: Self)
        ensures
            r@ == self@,
    {
        Response {
            status: self.status.clone(),
            headers: self.headers.clone(),
            body: match &self.body {
                Some(b) => Some(clone_bytes(b)),
                None => None,
            },
        }
    }
}

} // verus!
