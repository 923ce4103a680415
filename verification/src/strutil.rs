//! Verified helpers over `&str` and `Seq<char>`: the character-level
//! splitting, searching, trimming and replacing that the HTTP parsers
//! and serializers are specified and proved against.
use vstd::prelude::*;

verus! {

/// Relies on std's String::push: appends the given character to the end
/// of the string.
pub assume_specification[ String::push ](s: &mut String, ch: char)
    ensures
        final(s)@ == old(s)@.push(ch),
;

/// The characters with the Unicode `White_Space` property, exactly the
/// set that `char::is_whitespace` accepts.
pub open spec fn is_ws(c: char) -> bool {
    c == ' ' || c == '\t' || c == '\n' || c == '\u{0B}' || c == '\u{0C}' || c == '\r'
        || c == '\u{85}' || c == '\u{A0}' || c == '\u{1680}' || ('\u{2000}' <= c && c
        <= '\u{200A}') || c == '\u{2028}' || c == '\u{2029}' || c == '\u{202F}' || c == '\u{205F}'
        || c == '\u{3000}'
}

pub fn char_is_ws(c: char) -> (r: bool)
    ensures
        r == is_ws(c),
{
    c == ' ' || c == '\t' || c == '\n' || c == '\u{0B}' || c == '\u{0C}' || c == '\r'
        || c == '\u{85}' || c == '\u{A0}' || c == '\u{1680}' || ('\u{2000}' <= c && c
        <= '\u{200A}') || c == '\u{2028}' || c == '\u{2029}' || c == '\u{202F}' || c == '\u{205F}'
        || c == '\u{3000}'
}

pub open spec fn starts_with(s: Seq<char>, p: Seq<char>) -> bool {
    p.len() <= s.len() && s.subrange(0, p.len() as int) == p
}

/// Index of the first occurrence of the character `c` in `s`.
pub open spec fn first_index_of(s: Seq<char>, c: char) -> Option<int>
    decreases s.len(),
{
    if s.len() == 0 {
        None
    } else if s[0] == c {
        Some(0int)
    } else {
        match first_index_of(s.drop_first(), c) {
            Some(i) => Some(i + 1),
            None => None,
        }
    }
}

pub proof fn lemma_first_index_of(s: Seq<char>, c: char)
    ensures
        match first_index_of(s, c) {
            Some(i) => 0 <= i < s.len() && s[i] == c && forall|j: int| 0 <= j < i ==> s[j] != c,
            None => forall|j: int| 0 <= j < s.len() ==> s[j] != c,
        },
    decreases s.len(),
{
    if s.len() > 0 && s[0] != c {
        let t = s.drop_first();
        lemma_first_index_of(t, c);
        assert forall|j: int| 0 <= j < t.len() implies #[trigger] t[j] == s[j + 1] by {}
        match first_index_of(t, c) {
            Some(i) => {
                assert(t[i] == s[i + 1]);
                assert forall|j: int| 0 <= j < i + 1 implies s[j] != c by {
                    if j >= 1 {
                        assert(t[j - 1] != c);
                    }
                }
            },
            None => {
                assert forall|j: int| 0 <= j < s.len() implies s[j] != c by {
                    if j >= 1 {
                        assert(t[j - 1] != c);
                    }
                }
            },
        }
    }
}

/// The first index is determined by its characterization.
pub proof fn lemma_first_index_of_is(s: Seq<char>, c: char, i: int)
    requires
        0 <= i <= s.len(),
        forall|j: int| 0 <= j < i ==> s[j] != c,
        i < s.len() ==> s[i] == c,
    ensures
        i < s.len() ==> first_index_of(s, c) == Some(i),
        i == s.len() ==> first_index_of(s, c) is None,
    decreases s.len(),
{
    if s.len() > 0 && s[0] != c {
        assert(forall|j: int| 0 <= j < i - 1 ==> s.drop_first()[j] != c);
        lemma_first_index_of_is(s.drop_first(), c, i - 1);
    }
}

pub fn find_char(s: &str, c: char) -> (r: Option<usize>)
    ensures
        match r {
            Some(i) => first_index_of(s@, c) == Some(i as int),
            None => first_index_of(s@, c) is None,
        },
{
    let n = s.unicode_len();
    let mut i: usize = 0;
    while i < n
        invariant
            0 <= i <= n,
            n == s@.len(),
            forall|j: int| 0 <= j < i ==> s@[j] != c,
        decreases n - i,
    {
        if s.get_char(i) == c {
            proof {
                lemma_first_index_of_is(s@, c, i as int);
            }
            return Some(i);
        }
        i += 1;
    }
    proof {
        lemma_first_index_of_is(s@, c, n as int);
    }
    None
}

/// Index of the first occurrence of the substring `p` in `s`; `p` is
/// assumed non-empty by the callers' specifications.
pub open spec fn first_index_of_seq(s: Seq<char>, p: Seq<char>) -> Option<int>
    decreases s.len(),
{
    if p.len() == 0 {
        Some(0int)
    } else if s.len() < p.len() {
        None
    } else if starts_with(s, p) {
        Some(0int)
    } else {
        match first_index_of_seq(s.drop_first(), p) {
            Some(i) => Some(i + 1),
            None => None,
        }
    }
}

pub open spec fn contains_seq(s: Seq<char>, p: Seq<char>) -> bool {
    first_index_of_seq(s, p) is Some
}

pub open spec fn starts_with_at(s: Seq<char>, p: Seq<char>, i: int) -> bool {
    0 <= i && i + p.len() <= s.len() && s.subrange(i, i + p.len() as int) == p
}

/// Looking for `p` one position later in `s` is looking for it in the
/// tail of `s`.
pub proof fn lemma_window_shift(s: Seq<char>, p: Seq<char>, j: int)
    requires
        s.len() > 0,
        0 <= j,
        j + p.len() <= s.len() - 1,
    ensures
        starts_with_at(s.drop_first(), p, j) == starts_with_at(s, p, j + 1),
{
    let t = s.drop_first();
    assert forall|k: int| 0 <= k < p.len() implies #[trigger] t.subrange(j, j + p.len() as int)[k]
        == s.subrange(j + 1, j + 1 + p.len() as int)[k] by {
        assert(t[j + k] == s[j + 1 + k]);
    }
    assert(t.subrange(j, j + p.len() as int) =~= s.subrange(j + 1, j + 1 + p.len() as int));
}

pub proof fn lemma_first_index_of_seq(s: Seq<char>, p: Seq<char>)
    ensures
        match first_index_of_seq(s, p) {
            Some(i) => 0 <= i && i + p.len() <= s.len() && starts_with_at(s, p, i) && forall|j: int|
                0 <= j < i ==> !starts_with_at(s, p, j),
            None => forall|j: int| 0 <= j <= s.len() - p.len() ==> !starts_with_at(s, p, j),
        },
    decreases s.len(),
{
    if p.len() == 0 {
        assert(s.subrange(0, 0) =~= p);
        assert(starts_with_at(s, p, 0));
    } else if s.len() < p.len() {
        assert(forall|j: int| 0 <= j <= s.len() - p.len() ==> !starts_with_at(s, p, j));
    } else if starts_with(s, p) {
        assert(s.subrange(0, 0 + p.len() as int) =~= s.subrange(0, p.len() as int));
        assert(starts_with_at(s, p, 0));
    } else {
        let t = s.drop_first();
        lemma_first_index_of_seq(t, p);
        assert(s.subrange(0, 0 + p.len() as int) =~= s.subrange(0, p.len() as int));
        assert(!starts_with_at(s, p, 0));
        match first_index_of_seq(t, p) {
            Some(i) => {
                lemma_window_shift(s, p, i);
                assert(starts_with_at(s, p, i + 1));
                assert forall|j: int| 0 <= j < i + 1 implies !starts_with_at(s, p, j) by {
                    if j >= 1 {
                        lemma_window_shift(s, p, j - 1);
                        assert(!starts_with_at(t, p, j - 1));
                    }
                }
            },
            None => {
                assert forall|j: int| 0 <= j <= s.len() - p.len() implies !starts_with_at(
                    s,
                    p,
                    j,
                ) by {
                    if j >= 1 {
                        lemma_window_shift(s, p, j - 1);
                        assert(!starts_with_at(t, p, j - 1));
                    }
                }
            },
        }
    }
}

pub proof fn lemma_first_index_of_seq_is(s: Seq<char>, p: Seq<char>, i: int)
    requires
        0 <= i <= s.len(),
        forall|j: int| 0 <= j < i ==> !starts_with_at(s, p, j),
        i + p.len() <= s.len() ==> starts_with_at(s, p, i),
    ensures
        i + p.len() <= s.len() ==> first_index_of_seq(s, p) == Some(i),
        i + p.len() > s.len() ==> first_index_of_seq(s, p) is None,
    decreases s.len(),
{
    if p.len() == 0 {
        assert(s.subrange(0, 0) =~= p);
        assert(starts_with_at(s, p, 0));
        assert(i == 0) by {
            if i > 0 {
                assert(!starts_with_at(s, p, 0));
            }
        }
    } else if s.len() < p.len() {
    } else if starts_with(s, p) {
        assert(s.subrange(0, 0 + p.len() as int) =~= s.subrange(0, p.len() as int));
        assert(starts_with_at(s, p, 0));
        assert(i == 0) by {
            if i > 0 {
                assert(!starts_with_at(s, p, 0));
            }
        }
    } else {
        let t = s.drop_first();
        assert(s.subrange(0, 0 + p.len() as int) =~= s.subrange(0, p.len() as int));
        assert(!starts_with_at(s, p, 0));
        assert(i >= 1) by {
            if i == 0 {
                assert(starts_with_at(s, p, 0));
            }
        }
        assert forall|j: int| 0 <= j < i - 1 implies !starts_with_at(t, p, j) by {
            if j + p.len() <= t.len() {
                lemma_window_shift(s, p, j);
                assert(!starts_with_at(s, p, j + 1));
            }
        }
        if i - 1 + p.len() <= t.len() {
            lemma_window_shift(s, p, i - 1);
        }
        lemma_first_index_of_seq_is(t, p, i - 1);
    }
}

/// True when `s` begins with `p`.
pub fn str_starts_with(s: &str, p: &str) -> (r: bool)
    ensures
        r == starts_with(s@, p@),
{
    let n = s.unicode_len();
    let m = p.unicode_len();
    if m > n {
        assert(!starts_with(s@, p@));
        return false;
    }
    let mut i: usize = 0;
    while i < m
        invariant
            0 <= i <= m,
            m <= n,
            n == s@.len(),
            m == p@.len(),
            forall|j: int| 0 <= j < i ==> s@[j] == p@[j],
        decreases m - i,
    {
        if s.get_char(i) != p.get_char(i) {
            assert(s@.subrange(0, p@.len() as int)[i as int] != p@[i as int]);
            return false;
        }
        i += 1;
    }
    assert(s@.subrange(0, p@.len() as int) =~= p@);
    true
}

/// True when the substring `p` occurs anywhere in `s`; `p` must not be
/// empty.
pub fn str_contains(s: &str, p: &str) -> (r: bool)
    requires
        p@.len() > 0,
    ensures
        r == contains_seq(s@, p@),
{
    find_str(s, p).is_some()
}

pub fn find_str(s: &str, p: &str) -> (r: Option<usize>)
    requires
        p@.len() > 0,
    ensures
        match r {
            Some(i) => first_index_of_seq(s@, p@) == Some(i as int),
            None => first_index_of_seq(s@, p@) is None,
        },
{
    let n = s.unicode_len();
    let m = p.unicode_len();
    if m > n {
        proof {
            lemma_first_index_of_seq_is(s@, p@, 0);
        }
        return None;
    }
    let mut i: usize = 0;
    while i <= n - m
        invariant
            0 <= i,
            i <= n - m + 1,
            1 <= m <= n,
            n == s@.len(),
            m == p@.len(),
            forall|j: int| 0 <= j < i ==> !starts_with_at(s@, p@, j),
        decreases n - i,
    {
        let tail = s.substring_char(i, n);
        if str_starts_with(tail, p) {
            proof {
                assert(tail@.subrange(0, p@.len() as int) =~= s@.subrange(
                    i as int,
                    i + p@.len() as int,
                ));
                assert(starts_with_at(s@, p@, i as int));
                lemma_first_index_of_seq_is(s@, p@, i as int);
            }
            return Some(i);
        }
        proof {
            assert(tail@.subrange(0, p@.len() as int) =~= s@.subrange(
                i as int,
                i + p@.len() as int,
            ));
            assert(!starts_with_at(s@, p@, i as int));
        }
        i += 1;
    }
    proof {
        assert(forall|j: int| 0 <= j <= s@.len() - p@.len() ==> !starts_with_at(s@, p@, j));
        lemma_first_index_of_seq_is(s@, p@, i as int);
    }
    None
}

/// Index of the last occurrence of the character `c` in `s`.
pub open spec fn last_index_of(s: Seq<char>, c: char) -> Option<int>
    decreases s.len(),
{
    if s.len() == 0 {
        None
    } else if s.last() == c {
        Some(s.len() - 1)
    } else {
        last_index_of(s.drop_last(), c)
    }
}

pub proof fn lemma_last_index_of(s: Seq<char>, c: char)
    ensures
        match last_index_of(s, c) {
            Some(i) => 0 <= i < s.len() && s[i] == c && forall|j: int| i < j < s.len() ==> s[j]
                != c,
            None => forall|j: int| 0 <= j < s.len() ==> s[j] != c,
        },
    decreases s.len(),
{
    if s.len() > 0 && s.last() != c {
        let t = s.drop_last();
        lemma_last_index_of(t, c);
        assert forall|j: int| 0 <= j < t.len() implies #[trigger] t[j] == s[j] by {}
        match last_index_of(t, c) {
            Some(i) => {
                assert(s[i] == t[i]);
                assert forall|j: int| i < j < s.len() implies s[j] != c by {
                    if j < s.len() - 1 {
                        assert(t[j] != c);
                    }
                }
            },
            None => {
                assert forall|j: int| 0 <= j < s.len() implies s[j] != c by {
                    if j < s.len() - 1 {
                        assert(t[j] != c);
                    }
                }
            },
        }
    }
}

pub proof fn lemma_last_index_of_is(s: Seq<char>, c: char, i: int)
    requires
        0 <= i + 1 <= s.len(),
        forall|j: int| i < j < s.len() ==> s[j] != c,
        i >= 0 ==> s[i] == c,
    ensures
        i >= 0 ==> last_index_of(s, c) == Some(i),
        i < 0 ==> last_index_of(s, c) is None,
    decreases s.len(),
{
    if s.len() > 0 && s.last() != c {
        lemma_last_index_of_is(s.drop_last(), c, i);
    }
}

/// The position of the last occurrence of `c` in `s`, if any.
pub fn find_last_char(s: &str, c: char) -> (r: Option<usize>)
    ensures
        match r {
            Some(i) => last_index_of(s@, c) == Some(i as int),
            None => last_index_of(s@, c) is None,
        },
{
    let n = s.unicode_len();
    let mut e: usize = n;
    while e > 0
        invariant
            0 <= e <= n,
            n == s@.len(),
            forall|j: int| e <= j < n ==> s@[j] != c,
        decreases e,
    {
        if s.get_char(e - 1) == c {
            proof {
                lemma_last_index_of_is(s@, c, e - 1);
            }
            return Some(e - 1);
        }
        e -= 1;
    }
    proof {
        lemma_last_index_of_is(s@, c, -1);
    }
    None
}

/// What is left of `s` once its leading whitespace is dropped.
pub open spec fn drop_ws_front(s: Seq<char>) -> Seq<char>
    decreases s.len(),
{
    if s.len() > 0 && is_ws(s[0]) {
        drop_ws_front(s.drop_first())
    } else {
        s
    }
}

/// The longest whitespace-free prefix of `s`.
pub open spec fn take_non_ws(s: Seq<char>) -> Seq<char>
    decreases s.len(),
{
    if s.len() > 0 && !is_ws(s[0]) {
        seq![s[0]] + take_non_ws(s.drop_first())
    } else {
        Seq::empty()
    }
}

pub open spec fn drop_non_ws(s: Seq<char>) -> Seq<char>
    decreases s.len(),
{
    if s.len() > 0 && !is_ws(s[0]) {
        drop_non_ws(s.drop_first())
    } else {
        s
    }
}

/// The first whitespace-separated token of `s`, as `split_whitespace`
/// would hand it out.
pub open spec fn first_token(s: Seq<char>) -> Seq<char> {
    take_non_ws(drop_ws_front(s))
}

/// What is left of `s` after its first whitespace-separated token.
pub open spec fn after_first_token(s: Seq<char>) -> Seq<char> {
    drop_non_ws(drop_ws_front(s))
}

pub proof fn lemma_drop_ws_front_at(s: Seq<char>, a: int)
    requires
        0 <= a <= s.len(),
        forall|j: int| 0 <= j < a ==> is_ws(s[j]),
        a < s.len() ==> !is_ws(s[a]),
    ensures
        drop_ws_front(s) =~= s.skip(a),
    decreases a,
{
    if a == 0 {
        assert(drop_ws_front(s) =~= s.skip(0));
    } else {
        let t = s.drop_first();
        assert(forall|j: int| 0 <= j < a - 1 ==> is_ws(#[trigger] t[j]));
        lemma_drop_ws_front_at(t, a - 1);
        assert(t.skip(a - 1) =~= s.skip(a));
    }
}

pub proof fn lemma_split_non_ws_at(s: Seq<char>, b: int)
    requires
        0 <= b <= s.len(),
        forall|j: int| 0 <= j < b ==> !is_ws(s[j]),
        b < s.len() ==> is_ws(s[b]),
    ensures
        take_non_ws(s) =~= s.take(b),
        drop_non_ws(s) =~= s.skip(b),
    decreases b,
{
    if b == 0 {
        assert(take_non_ws(s) =~= s.take(0));
        assert(drop_non_ws(s) =~= s.skip(0));
    } else {
        let t = s.drop_first();
        assert(forall|j: int| 0 <= j < b - 1 ==> !is_ws(#[trigger] t[j]));
        lemma_split_non_ws_at(t, b - 1);
        assert(seq![s[0]] + t.take(b - 1) =~= s.take(b));
        assert(t.skip(b - 1) =~= s.skip(b));
    }
}

/// The first whitespace-separated token of `s` and what follows it.
pub fn split_token<'a>(s: &'a str) -> (r: (&'a str, &'a str))
    ensures
        r.0@ == first_token(s@),
        r.1@ == after_first_token(s@),
{
    let n = s.unicode_len();
    let mut a: usize = 0;
    while a < n && char_is_ws(s.get_char(a))
        invariant
            0 <= a <= n,
            n == s@.len(),
            forall|j: int| 0 <= j < a ==> is_ws(s@[j]),
        decreases n - a,
    {
        a += 1;
    }
    proof {
        lemma_drop_ws_front_at(s@, a as int);
    }
    let mut b: usize = a;
    while b < n && !char_is_ws(s.get_char(b))
        invariant
            a <= b <= n,
            n == s@.len(),
            forall|j: int| a <= j < b ==> !is_ws(s@[j]),
        decreases n - b,
    {
        b += 1;
    }
    proof {
        let rest = s@.skip(a as int);
        assert(forall|j: int| 0 <= j < b - a ==> !is_ws(#[trigger] rest[j]));
        lemma_split_non_ws_at(rest, b - a);
        assert(rest.take(b - a) =~= s@.subrange(a as int, b as int));
        assert(rest.skip(b - a) =~= s@.subrange(b as int, n as int));
    }
    (s.substring_char(a, b), s.substring_char(b, n))
}

/// A run of non-whitespace followed by whitespace (or the end) splits
/// as one token.
pub proof fn lemma_token_split(a: Seq<char>, b: Seq<char>)
    requires
        forall|i: int| 0 <= i < a.len() ==> !is_ws(#[trigger] a[i]),
        b.len() > 0 ==> is_ws(b[0]),
    ensures
        take_non_ws(a + b) == a,
        drop_non_ws(a + b) == b,
    decreases a.len(),
{
    if a.len() == 0 {
        assert(a + b =~= b);
        assert(take_non_ws(b) =~= a);
    } else {
        let u = a + b;
        assert(u[0] == a[0]);
        assert(u.drop_first() =~= a.drop_first() + b);
        assert(forall|i: int|
            0 <= i < a.drop_first().len() ==> !is_ws(#[trigger] a.drop_first()[i]));
        lemma_token_split(a.drop_first(), b);
        assert(seq![a[0]] + a.drop_first() =~= a);
    }
}

/// What is left of `s` once its trailing whitespace is dropped.
pub open spec fn drop_ws_back(s: Seq<char>) -> Seq<char>
    decreases s.len(),
{
    if s.len() > 0 && is_ws(s.last()) {
        drop_ws_back(s.drop_last())
    } else {
        s
    }
}

/// `s` without leading and trailing whitespace, as `str::trim` leaves
/// it.
pub open spec fn spec_trim(s: Seq<char>) -> Seq<char> {
    drop_ws_back(drop_ws_front(s))
}

pub proof fn lemma_drop_ws_back_at(s: Seq<char>, e: int)
    requires
        0 <= e <= s.len(),
        forall|j: int| e <= j < s.len() ==> is_ws(s[j]),
        e > 0 ==> !is_ws(s[e - 1]),
    ensures
        drop_ws_back(s) =~= s.take(e),
    decreases s.len(),
{
    if e < s.len() {
        let t = s.drop_last();
        assert(is_ws(s.last()));
        assert(forall|j: int| e <= j < t.len() ==> is_ws(#[trigger] t[j]));
        lemma_drop_ws_back_at(t, e);
        assert(t.take(e) =~= s.take(e));
    } else {
        if s.len() > 0 {
            assert(!is_ws(s.last()));
        }
        assert(drop_ws_back(s) =~= s.take(e));
    }
}

/// `s` without leading and trailing whitespace.
pub fn str_trim<'a>(s: &'a str) -> (r: &'a str)
    ensures
        r@ == spec_trim(s@),
{
    let n = s.unicode_len();
    let mut a: usize = 0;
    while a < n && char_is_ws(s.get_char(a))
        invariant
            0 <= a <= n,
            n == s@.len(),
            forall|j: int| 0 <= j < a ==> is_ws(s@[j]),
        decreases n - a,
    {
        a += 1;
    }
    proof {
        lemma_drop_ws_front_at(s@, a as int);
    }
    if a == n {
        proof {
            assert(s@.skip(a as int) =~= s@.subrange(a as int, n as int));
            assert(drop_ws_back(s@.skip(a as int)) =~= s@.subrange(n as int, n as int));
        }
        return s.substring_char(n, n);
    }
    let mut e: usize = n;
    while e > a && char_is_ws(s.get_char(e - 1))
        invariant
            a <= e <= n,
            n == s@.len(),
            forall|j: int| e <= j < n ==> is_ws(s@[j]),
        decreases e,
    {
        e -= 1;
    }
    proof {
        let rest = s@.skip(a as int);
        assert(!is_ws(rest[(e - a - 1) as int]));
        assert(forall|j: int| e - a <= j < rest.len() ==> is_ws(#[trigger] rest[j]));
        lemma_drop_ws_back_at(rest, e - a);
        assert(rest.take(e - a) =~= s@.subrange(a as int, e as int));
    }
    s.substring_char(a, e)
}

/// `s` with every leading copy of `p` removed, as
/// `str::trim_start_matches` leaves it.
pub open spec fn strip_prefix_rep(s: Seq<char>, p: Seq<char>) -> Seq<char>
    decreases s.len(),
{
    if p.len() > 0 && starts_with(s, p) {
        strip_prefix_rep(s.skip(p.len() as int), p)
    } else {
        s
    }
}

pub fn str_strip_prefix_rep<'a>(s: &'a str, p: &str) -> (r: &'a str)
    ensures
        r@ == strip_prefix_rep(s@, p@),
    decreases s@.len(),
{
    let m = p.unicode_len();
    let n = s.unicode_len();
    if m > 0 && str_starts_with(s, p) {
        str_strip_prefix_rep(s.substring_char(m, n), p)
    } else {
        s
    }
}

/// `s` with every leading copy of the character `c` removed.
pub open spec fn trim_start_char(s: Seq<char>, c: char) -> Seq<char>
    decreases s.len(),
{
    if s.len() > 0 && s[0] == c {
        trim_start_char(s.drop_first(), c)
    } else {
        s
    }
}

/// `s` with every trailing copy of the character `c` removed.
pub open spec fn trim_end_char(s: Seq<char>, c: char) -> Seq<char>
    decreases s.len(),
{
    if s.len() > 0 && s.last() == c {
        trim_end_char(s.drop_last(), c)
    } else {
        s
    }
}

pub fn str_trim_start_char<'a>(s: &'a str, c: char) -> (r: &'a str)
    ensures
        r@ == trim_start_char(s@, c),
    decreases s@.len(),
{
    let n = s.unicode_len();
    if n > 0 && s.get_char(0) == c {
        let t = s.substring_char(1, n);
        proof {
            assert(t@ =~= s@.drop_first());
        }
        str_trim_start_char(t, c)
    } else {
        s
    }
}

pub fn str_trim_end_char<'a>(s: &'a str, c: char) -> (r: &'a str)
    ensures
        r@ == trim_end_char(s@, c),
    decreases s@.len(),
{
    let n = s.unicode_len();
    if n > 0 && s.get_char(n - 1) == c {
        let t = s.substring_char(0, n - 1);
        proof {
            assert(t@ =~= s@.drop_last());
        }
        str_trim_end_char(t, c)
    } else {
        s
    }
}

/// A line piece with a trailing carriage return removed.
pub open spec fn strip_cr(l: Seq<char>) -> Seq<char> {
    if l.len() > 0 && l.last() == '\r' {
        l.drop_last()
    } else {
        l
    }
}

/// The lines of `s`, exactly as `str::lines` yields them: pieces are
/// cut at every newline, a carriage return before the newline is
/// dropped, and a final empty piece after a trailing newline does not
/// count.
pub open spec fn spec_lines(s: Seq<char>) -> Seq<Seq<char>>
    decreases s.len(),
    via spec_lines_dec
{
    if s.len() == 0 {
        Seq::empty()
    } else {
        match first_index_of(s, '\n') {
            Some(i) => seq![strip_cr(s.take(i))] + spec_lines(s.skip(i + 1)),
            None => seq![s],
        }
    }
}

#[via_fn]
proof fn spec_lines_dec(s: Seq<char>) {
    if s.len() > 0 {
        lemma_first_index_of(s, '\n');
    }
}

/// A non-empty text without newlines is a single line.
pub proof fn lemma_spec_lines_single(s: Seq<char>)
    requires
        s.len() > 0,
        forall|i: int| 0 <= i < s.len() ==> #[trigger] s[i] != '\n',
    ensures
        spec_lines(s) == seq![s],
{
    lemma_first_index_of_is(s, '\n', s.len() as int);
}

/// A newline-free piece followed by a newline starts the line list.
pub proof fn lemma_spec_lines_split(a: Seq<char>, b: Seq<char>)
    requires
        forall|i: int| 0 <= i < a.len() ==> #[trigger] a[i] != '\n',
    ensures
        spec_lines(a + seq!['\n'] + b) == seq![strip_cr(a)] + spec_lines(b),
{
    let s = a + seq!['\n'] + b;
    assert(s[a.len() as int] == '\n');
    assert(forall|j: int| 0 <= j < a.len() ==> #[trigger] s[j] == a[j]);
    lemma_first_index_of_is(s, '\n', a.len() as int);
    assert(s.take(a.len() as int) =~= a);
    assert(s.skip(a.len() as int + 1) =~= b);
}

/// The views of a sequence of owned strings.
pub open spec fn views_of(v: Seq<String>) -> Seq<Seq<char>> {
    v.map_values(|x: String| x@)
}

/// The lines of `s`, as `str::lines` yields them.
pub fn split_lines(s: &str) -> (r: Vec<String>)
    ensures
        views_of(r@) == spec_lines(s@),
{
    let mut out: Vec<String> = Vec::new();
    let mut rest: &str = s;
    proof {
        assert(views_of(out@) + spec_lines(rest@) =~= spec_lines(s@));
    }
    loop
        invariant
            views_of(out@) + spec_lines(rest@) =~= spec_lines(s@),
        ensures
            rest@.len() == 0,
        decreases rest@.len(),
    {
        let n = rest.unicode_len();
        if n == 0 {
            proof {
                assert(views_of(out@) + spec_lines(rest@) =~= views_of(out@));
            }
            break ;
        }
        match find_char(rest, '\n') {
            Some(i) => {
                proof {
                    lemma_first_index_of(rest@, '\n');
                }
                let piece = rest.substring_char(0, i);
                proof {
                    assert(piece@ =~= rest@.take(i as int));
                }
                let m = piece.unicode_len();
                let line = if m > 0 && piece.get_char(m - 1) == '\r' {
                    let l = piece.substring_char(0, m - 1);
                    proof {
                        assert(l@ =~= piece@.drop_last());
                    }
                    l
                } else {
                    piece
                };
                let ghost old_out = out@;
                let ghost old_rest = rest@;
                out.push(line.to_owned());
                rest = rest.substring_char(i + 1, n);
                proof {
                    assert(rest@ =~= old_rest.skip(i + 1));
                    assert(views_of(out@) =~= views_of(old_out).push(line@));
                    assert(views_of(old_out).push(line@) + spec_lines(rest@) =~= views_of(old_out)
                        + (seq![strip_cr(old_rest.take(i as int))] + spec_lines(
                        old_rest.skip(i + 1),
                    )));
                }
            },
            None => {
                proof {
                    lemma_first_index_of(rest@, '\n');
                }
                let ghost old_out = out@;
                out.push(rest.to_owned());
                proof {
                    assert(views_of(out@) =~= views_of(old_out).push(rest@));
                    assert(views_of(old_out).push(rest@) =~= views_of(old_out) + seq![rest@]);
                    assert(views_of(out@) + spec_lines(Seq::<char>::empty()) =~= views_of(out@));
                }
                rest = "";
                proof {
                    reveal_strlit("");
                    assert(rest@ =~= Seq::<char>::empty());
                }
                break ;
            },
        }
    }
    proof {
        assert(views_of(out@) =~= spec_lines(s@));
    }
    out
}

/// The pieces of `s` cut at every occurrence of `c`, as `str::split`
/// yields them: `n` separators give `n + 1` pieces, empty pieces
/// included.
pub open spec fn spec_split(s: Seq<char>, c: char) -> Seq<Seq<char>>
    decreases s.len(),
    via spec_split_dec
{
    match first_index_of(s, c) {
        Some(i) => seq![s.take(i)] + spec_split(s.skip(i + 1), c),
        None => seq![s],
    }
}

#[via_fn]
proof fn spec_split_dec(s: Seq<char>, c: char) {
    lemma_first_index_of(s, c);
}

/// The pieces of `s` cut at every occurrence of `c`.
pub fn split_char(s: &str, c: char) -> (r: Vec<String>)
    ensures
        views_of(r@) == spec_split(s@, c),
{
    let mut out: Vec<String> = Vec::new();
    let mut rest: &str = s;
    proof {
        assert(views_of(out@) + spec_split(rest@, c) =~= spec_split(s@, c));
    }
    loop
        invariant_except_break
            views_of(out@) + spec_split(rest@, c) =~= spec_split(s@, c),
        ensures
            views_of(out@) =~= spec_split(s@, c),
        decreases rest@.len(),
    {
        let n = rest.unicode_len();
        match find_char(rest, c) {
            Some(i) => {
                proof {
                    lemma_first_index_of(rest@, c);
                }
                let piece = rest.substring_char(0, i);
                let ghost old_out = out@;
                let ghost old_rest = rest@;
                out.push(piece.to_owned());
                rest = rest.substring_char(i + 1, n);
                proof {
                    assert(piece@ =~= old_rest.take(i as int));
                    assert(rest@ =~= old_rest.skip(i + 1));
                    assert(views_of(out@) =~= views_of(old_out).push(piece@));
                    assert(views_of(old_out).push(piece@) + spec_split(rest@, c) =~= views_of(
                        old_out,
                    ) + (seq![old_rest.take(i as int)] + spec_split(old_rest.skip(i + 1), c)));
                }
            },
            None => {
                proof {
                    lemma_first_index_of(rest@, c);
                }
                let ghost old_out = out@;
                out.push(rest.to_owned());
                proof {
                    assert(views_of(out@) =~= views_of(old_out).push(rest@));
                    assert(views_of(old_out).push(rest@) =~= views_of(old_out) + seq![rest@]);
                }
                break ;
            },
        }
    }
    out
}

/// The pieces of `s` cut at every occurrence of the substring `sep`,
/// as `str::split` with a string pattern yields them.
pub open spec fn spec_split_seq(s: Seq<char>, sep: Seq<char>) -> Seq<Seq<char>>
    decreases s.len(),
    via spec_split_seq_dec
{
    if sep.len() == 0 {
        seq![s]
    } else {
        match first_index_of_seq(s, sep) {
            Some(i) => seq![s.take(i)] + spec_split_seq(s.skip(i + sep.len()), sep),
            None => seq![s],
        }
    }
}

#[via_fn]
proof fn spec_split_seq_dec(s: Seq<char>, sep: Seq<char>) {
    if sep.len() > 0 {
        lemma_first_index_of_seq(s, sep);
    }
}

/// The pieces of `s` cut at every occurrence of `sep`.
pub fn split_str(s: &str, sep: &str) -> (r: Vec<String>)
    requires
        sep@.len() > 0,
    ensures
        views_of(r@) == spec_split_seq(s@, sep@),
{
    let m = sep.unicode_len();
    let mut out: Vec<String> = Vec::new();
    let mut rest: &str = s;
    proof {
        assert(views_of(out@) + spec_split_seq(rest@, sep@) =~= spec_split_seq(s@, sep@));
    }
    loop
        invariant_except_break
            views_of(out@) + spec_split_seq(rest@, sep@) =~= spec_split_seq(s@, sep@),
        invariant
            m == sep@.len(),
            m > 0,
        ensures
            views_of(out@) =~= spec_split_seq(s@, sep@),
        decreases rest@.len(),
    {
        let n = rest.unicode_len();
        match find_str(rest, sep) {
            Some(i) => {
                proof {
                    lemma_first_index_of_seq(rest@, sep@);
                }
                let piece = rest.substring_char(0, i);
                let ghost old_out = out@;
                let ghost old_rest = rest@;
                out.push(piece.to_owned());
                rest = rest.substring_char(i + m, n);
                proof {
                    assert(piece@ =~= old_rest.take(i as int));
                    assert(rest@ =~= old_rest.skip(i + sep@.len()));
                    assert(views_of(out@) =~= views_of(old_out).push(piece@));
                    assert(views_of(old_out).push(piece@) + spec_split_seq(rest@, sep@)
                        =~= views_of(old_out) + (seq![old_rest.take(i as int)] + spec_split_seq(
                        old_rest.skip(i + sep@.len()),
                        sep@,
                    )));
                }
            },
            None => {
                let ghost old_out = out@;
                out.push(rest.to_owned());
                proof {
                    assert(views_of(out@) =~= views_of(old_out).push(rest@));
                    assert(views_of(old_out).push(rest@) =~= views_of(old_out) + seq![rest@]);
                }
                break ;
            },
        }
    }
    out
}

/// The pieces joined back with a newline between each two, as
/// `[&str]::join("\n")` produces it.
pub open spec fn join_nl(ps: Seq<Seq<char>>) -> Seq<char>
    decreases ps.len(),
{
    if ps.len() == 0 {
        Seq::empty()
    } else if ps.len() == 1 {
        ps[0]
    } else {
        ps[0] + seq!['\n'] + join_nl(ps.drop_first())
    }
}

pub proof fn lemma_join_nl_push(ps: Seq<Seq<char>>, x: Seq<char>)
    requires
        ps.len() > 0,
    ensures
        join_nl(ps.push(x)) == join_nl(ps) + seq!['\n'] + x,
    decreases ps.len(),
{
    let u = ps.push(x);
    if ps.len() == 1 {
        assert(u.drop_first() =~= seq![x]);
        assert(u[0] == ps[0]);
        assert(join_nl(u.drop_first()) == x);
        assert(join_nl(u) == ps[0] + seq!['\n'] + x);
        assert(join_nl(ps) + seq!['\n'] + x =~= ps[0] + seq!['\n'] + x);
    } else {
        lemma_join_nl_push(ps.drop_first(), x);
        assert(u.drop_first() =~= ps.drop_first().push(x));
        assert(join_nl(u) == u[0] + seq!['\n'] + join_nl(ps.drop_first().push(x)));
        assert(u[0] + seq!['\n'] + (join_nl(ps.drop_first()) + seq!['\n'] + x) =~= (ps[0]
            + seq!['\n'] + join_nl(ps.drop_first())) + seq!['\n'] + x);
    }
}

/// The lines from position `from` on, joined back with newlines.
pub fn join_nl_from(lines: &Vec<String>, from: usize) -> (r: String)
    requires
        from <= lines@.len(),
    ensures
        r@ == join_nl(views_of(lines@).skip(from as int)),
{
    let n = lines.len();
    if from == n {
        let r = String::new();
        proof {
            assert(views_of(lines@).skip(from as int) =~= Seq::<Seq<char>>::empty());
        }
        return r;
    }
    let mut r = lines[from].clone();
    let mut k: usize = from + 1;
    proof {
        assert(views_of(lines@).subrange(from as int, k as int) =~= seq![lines@[from as int]@]);
    }
    while k < n
        invariant
            from < k <= n,
            n == lines@.len(),
            r@ == join_nl(views_of(lines@).subrange(from as int, k as int)),
        decreases n - k,
    {
        r.push('\n');
        r.append(lines[k].as_str());
        proof {
            let vs = views_of(lines@);
            let pre = vs.subrange(from as int, k as int);
            lemma_join_nl_push(pre, vs[k as int]);
            assert(vs.subrange(from as int, k as int + 1) =~= pre.push(vs[k as int]));
            assert(r@ =~= join_nl(pre) + seq!['\n'] + vs[k as int]);
        }
        k += 1;
    }
    proof {
        assert(views_of(lines@).subrange(from as int, n as int) =~= views_of(lines@).skip(
            from as int,
        ));
    }
    r
}

/// `s` with every occurrence of `from` replaced by `to`, scanning from
/// the left, as `str::replace` produces it.
pub open spec fn spec_replace(s: Seq<char>, from: Seq<char>, to: Seq<char>) -> Seq<char>
    decreases s.len(),
{
    if s.len() == 0 {
        s
    } else if from.len() > 0 && starts_with(s, from) {
        to + spec_replace(s.skip(from.len() as int), from, to)
    } else {
        seq![s[0]] + spec_replace(s.drop_first(), from, to)
    }
}

pub fn str_replace(s: &str, from: &str, to: &str) -> (r: String)
    requires
        from@.len() > 0,
    ensures
        r@ == spec_replace(s@, from@, to@),
    decreases s@.len(),
{
    let n = s.unicode_len();
    if n == 0 {
        let r = String::new();
        proof {
            assert(r@ =~= spec_replace(s@, from@, to@));
        }
        r
    } else if str_starts_with(s, from) {
        let m = from.unicode_len();
        let tail = str_replace(s.substring_char(m, n), from, to);
        let r = String::from_str(to).concat(tail.as_str());
        proof {
            assert(r@ =~= spec_replace(s@, from@, to@));
        }
        r
    } else {
        let c = s.get_char(0);
        let tail = str_replace(s.substring_char(1, n), from, to);
        let mut r = String::new();
        r.push(c);
        r.append(tail.as_str());
        proof {
            assert(s@.subrange(1, n as int) =~= s@.drop_first());
            assert(r@ =~= seq![s@[0]] + spec_replace(s@.drop_first(), from@, to@));
        }
        r
    }
}

/// The decimal digits of `n`, most significant first.
pub open spec fn spec_dec_digits(n: int) -> Seq<char>
    decreases n,
{
    if n < 10 {
        seq![spec_digit(n)]
    } else {
        spec_dec_digits(n / 10).push(spec_digit(n % 10))
    }
}

pub open spec fn spec_digit(d: int) -> char {
    ((48 + d) as u8) as char
}

fn digit_char(d: usize) -> (c: char)
    requires
        d < 10,
    ensures
        c == spec_digit(d as int),
{
    (48 + d as u8) as char
}

/// The decimal representation of `n`, as `usize::to_string` writes it.
pub fn usize_to_string(n: usize) -> (s: String)
    ensures
        s@ == spec_dec_digits(n as int),
    decreases n,
{
    if n < 10 {
        let mut s = String::new();
        s.push(digit_char(n));
        proof {
            assert(s@ =~= seq![spec_digit(n as int)]);
        }
        s
    } else {
        let mut s = usize_to_string(n / 10);
        s.push(digit_char(n % 10));
        s
    }
}

/// True when the two strings hold the same characters.
pub fn str_eq(a: &str, b: &str) -> (r: bool)
    ensures
        r == (a@ == b@),
{
    let n = a.unicode_len();
    if n != b.unicode_len() {
        return false;
    }
    let mut i: usize = 0;
    while i < n
        invariant
            0 <= i <= n,
            n == a@.len(),
            n == b@.len(),
            forall|j: int| 0 <= j < i ==> a@[j] == b@[j],
        decreases n - i,
    {
        if a.get_char(i) != b.get_char(i) {
            return false;
        }
        i += 1;
    }
    proof {
        assert(a@ =~= b@);
    }
    true
}

} // verus!
