//! The cookies of a request, read from a `Cookie` header value.
use vstd::prelude::*;

use crate::request::RequestError;
use crate::request::RequestErrorV;
use crate::strmap::StringMap;
use crate::strutil::first_index_of;
use crate::strutil::spec_split_seq;
use crate::strutil::spec_trim;
use crate::strutil::split_str;
use crate::strutil::str_strip_prefix_rep;
use crate::strutil::str_trim;
use crate::strutil::strip_prefix_rep;
use crate::strutil::trim_end_char;
use crate::strutil::views_of;
use crate::Error;

verus! {

/// A list of cookies, a mapping from cookie names to values.
#[derive(Debug, PartialEq, Eq)]
pub struct CookieList {
    cookies: StringMap,
}

impl View for CookieList {
    type V = Map<Seq<char>, Seq<char>>;

    closed spec fn view(&self) -> Map<Seq<char>, Seq<char>> {
        self.cookies@
    }
}

/// The mapping the cookie pairs from position `k` on denote, folded
/// onto `acc`: a pair that is all whitespace is passed over, a pair
/// with no equals sign fails with a `CookieError` carrying the whole
/// header value, and a value keeps everything after the first equals
/// sign less any trailing semicolons.
pub open spec fn spec_parse_cookie_pairs(
    ps: Seq<Seq<char>>,
    k: int,
    acc: Map<Seq<char>, Seq<char>>,
    orig: Seq<char>,
) -> Result<Map<Seq<char>, Seq<char>>, RequestErrorV>
    decreases ps.len() - k,
{
    if k < 0 || k >= ps.len() {
        Ok(acc)
    } else if spec_trim(ps[k]).len() == 0 {
        spec_parse_cookie_pairs(ps, k + 1, acc, orig)
    } else {
        match first_index_of(ps[k], '=') {
            None => Err(RequestErrorV::CookieError(orig)),
            Some(i) => spec_parse_cookie_pairs(
                ps,
                k + 1,
                acc.insert(ps[k].take(i), trim_end_char(ps[k].skip(i + 1), ';')),
                orig,
            ),
        }
    }
}

/// What a `Cookie` header value parses to: an optional leading
/// `"Cookie: "` prefix dropped, the rest split on `"; "`, and each
/// non-empty pair split on its first equals sign.
pub open spec fn spec_parse_cookies(cs: Seq<char>) -> Result<
    Map<Seq<char>, Seq<char>>,
    RequestErrorV,
> {
    let stripped = strip_prefix_rep(cs, "Cookie: "@);
    spec_parse_cookie_pairs(spec_split_seq(stripped, "; "@), 0, Map::empty(), cs)
}

impl CookieList {
    /// An empty cookie list.
    pub fn new() -> (r: CookieList)
        ensures
            r@ == Map::<Seq<char>, Seq<char>>::empty(),
    {
        CookieList { cookies: StringMap::new() }
    }

    /// Binds a cookie to a value, overwriting any previous value.
    pub fn set(&mut self, name: &str, value: &str)
        ensures
            final(self)@ == old(self)@.insert(name@, value@),
    {
        self.cookies.insert(name, value);
    }

    /// Drops a cookie.
    pub fn remove(&mut self, name: &str)
        ensures
            final(self)@ == old(self)@.remove(name@),
    {
        self.cookies.remove(name);
    }

    /// The value of a cookie, if it is bound.
    pub fn get(&self, name: &str) -> (r: Option<&String>)
        ensures
            match r {
                Some(v) => self@.contains_key(name@) && v@ == self@[name@],
                None => !self@.contains_key(name@),
            },
    {
        self.cookies.get(name)
    }

    /// True when the list binds the cookie.
    pub fn contains(&self, name: &str) -> (r: bool)
        ensures
            r == self@.contains_key(name@),
    {
        self.cookies.contains_key(name)
    }

    /// Parses a `Cookie` header value into a name-value mapping, or
    /// fails with a `CookieError` carrying the whole value.
    pub fn try_from(cookie_list_str: &str) -> (r: Result<CookieList, Error>)
        ensures
            match spec_parse_cookies(cookie_list_str@) {
                Ok(m) => r matches Ok(c) && c@ == m,
                Err(e) => r matches Err(Error::RequestError(re)) && re@ == e,
            },
    {
        proof {
            reveal_strlit("Cookie: ");
            reveal_strlit("; ");
        }
        let stripped = str_strip_prefix_rep(cookie_list_str, "Cookie: ");
        let pieces = split_str(stripped, "; ");
        let ghost ps = views_of(pieces@);
        let mut map = StringMap::new();
        let mut k: usize = 0;
        while k < pieces.len()
            invariant
                0 <= k <= pieces.len(),
                ps == views_of(pieces@),
                ps.len() == pieces@.len(),
                spec_parse_cookies(cookie_list_str@) == spec_parse_cookie_pairs(
                    ps,
                    k as int,
                    map@,
                    cookie_list_str@,
                ),
            decreases pieces.len() - k,
        {
            let piece: &str = pieces[k].as_str();
            proof {
                assert(piece@ == ps[k as int]);
            }
            let n = piece.unicode_len();
            if str_trim(piece).unicode_len() == 0 {
                k += 1;
                continue ;
            }
            match crate::strutil::find_char(piece, '=') {
                None => {
                    proof {
                        assert(spec_parse_cookie_pairs(ps, k as int, map@, cookie_list_str@)
                            == Err::<Map<Seq<char>, Seq<char>>, RequestErrorV>(
                            RequestErrorV::CookieError(cookie_list_str@),
                        ));
                    }
                    return Err(
                        Error::RequestError(
                            RequestError::CookieError(cookie_list_str.to_owned()),
                        ),
                    );
                },
                Some(i) => {
                    proof {
                        crate::strutil::lemma_first_index_of(ps[k as int], '=');
                    }
                    let name = piece.substring_char(0, i);
                    let raw_value = piece.substring_char(i + 1, n);
                    proof {
                        assert(name@ =~= ps[k as int].take(i as int));
                        assert(raw_value@ =~= ps[k as int].skip(i as int + 1));
                    }
                    let value = crate::strutil::str_trim_end_char(raw_value, ';');
                    map.insert(name, value);
                },
            }
            k += 1;
        }
        Ok(CookieList { cookies: map })
    }
}

impl Default for CookieList {
    /// An empty cookie list.
    fn default() -> (r: Self)
        ensures
            r@ == Map::<Seq<char>, Seq<char>>::empty(),
    {
        Self::new()
    }
}

impl Clone for CookieList {
    fn clone(&self) -> (r: Self)
        ensures
            r@ == self@,
    {
        CookieList { cookies: self.cookies.clone() }
    }
}

} // verus!
