//! The decoded query parameters of a request.
use vstd::prelude::*;

use crate::request::RequestError;
use crate::request::RequestErrorV;
use crate::strmap::StringMap;
use crate::strutil::first_index_of;
use crate::strutil::spec_replace;
use crate::strutil::spec_split;
use crate::strutil::split_char;
use crate::strutil::str_replace;
use crate::strutil::str_trim_start_char;
use crate::strutil::trim_start_char;
use crate::strutil::views_of;
use crate::Error;

verus! {

/// Query parameters of a request, a mapping from decoded keys to
/// decoded values.
#[derive(Debug, PartialEq, Eq)]
pub struct Query {
    query: StringMap,
}

impl View for Query {
    type V = Map<Seq<char>, Seq<char>>;

    closed spec fn view(&self) -> Map<Seq<char>, Seq<char>> {
        self.query@
    }
}

/// The fixed substitution table applied to a query string before it is
/// split: a chosen set of percent escapes and the plus sign become
/// their literal characters; any other escape passes through
/// unchanged.
pub open spec fn query_decode(s: Seq<char>) -> Seq<char> {
    let s = spec_replace(s, "%20"@, " "@);
    let s = spec_replace(s, "%21"@, "!"@);
    let s = spec_replace(s, "%23"@, "#"@);
    let s = spec_replace(s, "%24"@, "$"@);
    let s = spec_replace(s, "%26"@, "&"@);
    let s = spec_replace(s, "%27"@, "'"@);
    let s = spec_replace(s, "%28"@, "("@);
    let s = spec_replace(s, "%29"@, ")"@);
    let s = spec_replace(s, "%2A"@, "*"@);
    let s = spec_replace(s, "%2B"@, "+"@);
    let s = spec_replace(s, "%2C"@, ","@);
    let s = spec_replace(s, "%2F"@, "/"@);
    let s = spec_replace(s, "%3A"@, ":"@);
    let s = spec_replace(s, "%3B"@, ";"@);
    let s = spec_replace(s, "%3D"@, "="@);
    let s = spec_replace(s, "%3F"@, "?"@);
    let s = spec_replace(s, "%40"@, "@"@);
    let s = spec_replace(s, "%5B"@, "["@);
    let s = spec_replace(s, "%5D"@, "]"@);
    let s = spec_replace(s, "+"@, " "@);
    s
}

/// The mapping the decoded pairs from position `k` on denote, folded
/// onto `acc`; a pair with no equals sign fails with a `QueryError`
/// carrying the original query string.
pub open spec fn spec_parse_query_pairs(
    ps: Seq<Seq<char>>,
    k: int,
    acc: Map<Seq<char>, Seq<char>>,
    orig: Seq<char>,
) -> Result<Map<Seq<char>, Seq<char>>, RequestErrorV>
    decreases ps.len() - k,
{
    if k < 0 || k >= ps.len() {
        Ok(acc)
    } else {
        match first_index_of(ps[k], '=') {
            None => Err(RequestErrorV::QueryError(orig)),
            Some(i) => spec_parse_query_pairs(
                ps,
                k + 1,
                acc.insert(ps[k].take(i), ps[k].skip(i + 1)),
                orig,
            ),
        }
    }
}

/// What a query string parses to: leading question marks dropped, the
/// substitution table applied, the result split on ampersands, and
/// each pair split on its first equals sign, the last value of a
/// repeated key winning.
pub open spec fn spec_parse_query(qs: Seq<char>) -> Result<
    Map<Seq<char>, Seq<char>>,
    RequestErrorV,
> {
    let decoded = query_decode(trim_start_char(qs, '?'));
    spec_parse_query_pairs(spec_split(decoded, '&'), 0, Map::empty(), qs)
}

impl Query {
    /// The value of the parameter, if the key is present.
    pub fn get(&self, key: &str) -> (r: Option<&String>)
        ensures
            match r {
                Some(v) => self@.contains_key(key@) && v@ == self@[key@],
                None => !self@.contains_key(key@),
            },
    {
        self.query.get(key)
    }

    /// Binds a parameter, handing back the value it replaces, if any.
    pub fn set(&mut self, key: &str, value: &str) -> (r: Option<String>)
        ensures
            final(self)@ == old(self)@.insert(key@, value@),
            match r {
                Some(prev) => old(self)@.contains_key(key@) && prev@ == old(self)@[key@],
                None => !old(self)@.contains_key(key@),
            },
    {
        self.query.insert(key, value)
    }

    /// Drops a parameter, handing back its value, if any.
    pub fn remove(&mut self, key: &str) -> (r: Option<String>)
        ensures
            final(self)@ == old(self)@.remove(key@),
            match r {
                Some(prev) => old(self)@.contains_key(key@) && prev@ == old(self)@[key@],
                None => !old(self)@.contains_key(key@),
            },
    {
        self.query.remove(key)
    }

    /// True when the query binds the key.
    pub fn contains(&self, key: &str) -> (r: bool)
        ensures
            r == self@.contains_key(key@),
    {
        self.query.contains_key(key)
    }

    /// Parses a query string (leading question marks dropped) into a
    /// key-value mapping, or fails with a `QueryError` carrying the
    /// whole string.
    pub fn try_from(query_string: &str) -> (r: Result<Query, Error>)
        ensures
            match spec_parse_query(query_string@) {
                Ok(m) => r matches Ok(q) && q@ == m,
                Err(e) => r matches Err(Error::RequestError(re)) && re@ == e,
            },
    {
        proof {
            reveal_strlit("%20");
            reveal_strlit("%21");
            reveal_strlit("%23");
            reveal_strlit("%24");
            reveal_strlit("%26");
            reveal_strlit("%27");
            reveal_strlit("%28");
            reveal_strlit("%29");
            reveal_strlit("%2A");
            reveal_strlit("%2B");
            reveal_strlit("%2C");
            reveal_strlit("%2F");
            reveal_strlit("%3A");
            reveal_strlit("%3B");
            reveal_strlit("%3D");
            reveal_strlit("%3F");
            reveal_strlit("%40");
            reveal_strlit("%5B");
            reveal_strlit("%5D");
            reveal_strlit("+");
        }
        let trimmed = str_trim_start_char(query_string, '?');
        let s = str_replace(trimmed, "%20", " ");
        let s = str_replace(s.as_str(), "%21", "!");
        let s = str_replace(s.as_str(), "%23", "#");
        let s = str_replace(s.as_str(), "%24", "$");
        let s = str_replace(s.as_str(), "%26", "&");
        let s = str_replace(s.as_str(), "%27", "'");
        let s = str_replace(s.as_str(), "%28", "(");
        let s = str_replace(s.as_str(), "%29", ")");
        let s = str_replace(s.as_str(), "%2A", "*");
        let s = str_replace(s.as_str(), "%2B", "+");
        let s = str_replace(s.as_str(), "%2C", ",");
        let s = str_replace(s.as_str(), "%2F", "/");
        let s = str_replace(s.as_str(), "%3A", ":");
        let s = str_replace(s.as_str(), "%3B", ";");
        let s = str_replace(s.as_str(), "%3D", "=");
        let s = str_replace(s.as_str(), "%3F", "?");
        let s = str_replace(s.as_str(), "%40", "@");
        let s = str_replace(s.as_str(), "%5B", "[");
        let s = str_replace(s.as_str(), "%5D", "]");
        let s = str_replace(s.as_str(), "+", " ");
        proof {
            assert(s@ == query_decode(trim_start_char(query_string@, '?')));
        }
        let pieces = split_char(s.as_str(), '&');
        let ghost ps = views_of(pieces@);
        let mut map = StringMap::new();
        let mut k: usize = 0;
        while k < pieces.len()
            invariant
                0 <= k <= pieces.len(),
                ps == views_of(pieces@),
                ps.len() == pieces@.len(),
                spec_parse_query(query_string@) == spec_parse_query_pairs(
                    ps,
                    k as int,
                    map@,
                    query_string@,
                ),
            decreases pieces.len() - k,
        {
            let piece: &str = pieces[k].as_str();
            proof {
                assert(piece@ == ps[k as int]);
            }
            let n = piece.unicode_len();
            match crate::strutil::find_char(piece, '=') {
                None => {
                    proof {
                        assert(spec_parse_query_pairs(ps, k as int, map@, query_string@) == Err::<
                            Map<Seq<char>, Seq<char>>,
                            RequestErrorV,
                        >(RequestErrorV::QueryError(query_string@)));
                    }
                    return Err(
                        Error::RequestError(RequestError::QueryError(query_string.to_owned())),
                    );
                },
                Some(i) => {
                    proof {
                        crate::strutil::lemma_first_index_of(ps[k as int], '=');
                    }
                    let key = piece.substring_char(0, i);
                    let value = piece.substring_char(i + 1, n);
                    proof {
                        assert(key@ =~= ps[k as int].take(i as int));
                        assert(value@ =~= ps[k as int].skip(i as int + 1));
                    }
                    map.insert(key, value);
                },
            }
            k += 1;
        }
        Ok(Query { query: map })
    }
}

impl Clone for Query {
    fn clone(&self) -> (r: Self)
        ensures
            r@ == self@,
    {
        Query { query: self.query.clone() }
    }
}

} // verus!
