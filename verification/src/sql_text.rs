//! Character-level helpers for reading SQL schema dumps: tokens, parentheses, keywords.
use vstd::prelude::*;

use crate::text::{
    is_whitespace, is_ws, lemma_lead_ws_bound, lemma_trail_ws_bound, occurs_at, matches_at,
    starts_with, ends_with, trim, trim_bounds,
};

verus! {

/// `v[lo..hi]` as a vector of its own.
pub fn slice_chars(v: &Vec<char>, lo: usize, hi: usize) -> (r: Vec<char>)
    requires
        lo <= hi <= v.len(),
    ensures
        r@ == v@.subrange(lo as int, hi as int),
{
    let mut r: Vec<char> = Vec::new();
    let mut i = lo;
    while i < hi
        invariant
            lo <= i <= hi <= v.len(),
            r@ == v@.subrange(lo as int, i as int),
        decreases hi - i,
    {
        r.push(v[i]);
        assert(v@.subrange(lo as int, i + 1) == v@.subrange(lo as int, i as int).push(v@[i as int]));
        i += 1;
    }
    r
}

/// `v` with surrounding whitespace removed.
pub fn trim_chars(v: &Vec<char>) -> (r: Vec<char>)
    ensures
        r@ == trim(v@),
{
    let (lo, hi) = trim_bounds(v);
    slice_chars(v, lo, hi)
}

/// Index of the first whitespace character of `s`, or -1.
pub open spec fn first_ws(s: Seq<char>) -> int
    decreases s.len(),
{
    if s.len() == 0 {
        -1
    } else if is_ws(s[0]) {
        0
    } else if first_ws(s.drop_first()) < 0 {
        -1
    } else {
        first_ws(s.drop_first()) + 1
    }
}

pub proof fn lemma_first_ws(s: Seq<char>, i: int)
    requires
        0 <= i <= s.len(),
        forall|j: int| 0 <= j < i ==> !is_ws(#[trigger] s[j]),
        i == s.len() || is_ws(s[i]),
    ensures
        first_ws(s) == if i == s.len() {
            -1
        } else {
            i
        },
    decreases i,
{
    if i > 0 {
        assert forall|j: int| 0 <= j < i - 1 implies !is_ws(#[trigger] s.drop_first()[j]) by {
            assert(s.drop_first()[j] == s[j + 1]);
        }
        if i < s.len() {
            assert(s.drop_first()[i - 1] == s[i]);
        }
        lemma_first_ws(s.drop_first(), i - 1);
    }
}

/// The first whitespace-separated token of `s`, and the trimmed text after it.
pub open spec fn first_token(s: Seq<char>) -> (Seq<char>, Seq<char>) {
    let t = trim(s);
    let i = first_ws(t);
    if i < 0 {
        (t, seq![])
    } else {
        (t.take(i), trim(t.skip(i)))
    }
}

/// Splits off the first whitespace-separated token.
pub fn split_first_token(v: &Vec<char>) -> (r: (Vec<char>, Vec<char>))
    ensures
        (r.0@, r.1@) == first_token(v@),
{
    let t = trim_chars(v);
    let mut i: usize = 0;
    while i < t.len() && !is_whitespace(t[i])
        invariant
            i <= t.len(),
            forall|j: int| 0 <= j < i ==> !is_ws(#[trigger] t@[j]),
        decreases t.len() - i,
    {
        i += 1;
    }
    proof {
        lemma_first_ws(t@, i as int);
    }
    if i == t.len() {
        assert(t@.take(i as int) == t@);
        (t, Vec::new())
    } else {
        let head = slice_chars(&t, 0, i);
        let tail = slice_chars(&t, i, t.len());
        assert(t@.subrange(0, i as int) == t@.take(i as int));
        assert(t@.subrange(i as int, t.len() as int) == t@.skip(i as int));
        (head, trim_chars(&tail))
    }
}

/// `s` with every leading copy of `p` removed (`str::trim_start_matches`).
pub open spec fn strip_all_prefix(s: Seq<char>, p: Seq<char>) -> Seq<char>
    decreases s.len(),
{
    if p.len() > 0 && starts_with(s, p) {
        strip_all_prefix(s.skip(p.len() as int), p)
    } else {
        s
    }
}

/// `s` with every trailing copy of `p` removed (`str::trim_end_matches`).
pub open spec fn strip_all_suffix(s: Seq<char>, p: Seq<char>) -> Seq<char>
    decreases s.len(),
{
    if p.len() > 0 && ends_with(s, p) {
        strip_all_suffix(s.take(s.len() - p.len()), p)
    } else {
        s
    }
}

pub fn trim_start_matches(v: &Vec<char>, p: &Vec<char>) -> (r: Vec<char>)
    ensures
        r@ == strip_all_prefix(v@, p@),
{
    let mut i: usize = 0;
    assert(v@.skip(0) == v@);
    while p.len() > 0 && i <= v.len() && p.len() <= v.len() - i && matches_at(v, p, i)
        invariant
            i <= v.len(),
            strip_all_prefix(v@, p@) == strip_all_prefix(v@.skip(i as int), p@),
        decreases v.len() - i,
    {
        let ghost s = v@.skip(i as int);
        assert(s.take(p@.len() as int) == v@.subrange(i as int, i + p@.len()));
        assert(s.skip(p@.len() as int) == v@.skip(i + p@.len()));
        i += p.len();
    }
    proof {
        let s = v@.skip(i as int);
        if p@.len() > 0 && p@.len() <= s.len() {
            assert(s.take(p@.len() as int) == v@.subrange(i as int, i + p@.len()));
        }
    }
    slice_chars(v, i, v.len())
}

pub fn trim_end_matches(v: &Vec<char>, p: &Vec<char>) -> (r: Vec<char>)
    ensures
        r@ == strip_all_suffix(v@, p@),
{
    let mut j: usize = v.len();
    assert(v@.take(v.len() as int) == v@);
    while p.len() > 0 && p.len() <= j && matches_at(v, p, j - p.len())
        invariant
            j <= v.len(),
            strip_all_suffix(v@, p@) == strip_all_suffix(v@.take(j as int), p@),
        decreases j,
    {
        let ghost s = v@.take(j as int);
        assert(s.skip(s.len() - p@.len()) == v@.subrange(j - p@.len(), j as int));
        assert(s.take(s.len() - p@.len()) == v@.take(j - p@.len()));
        j -= p.len();
    }
    proof {
        let s = v@.take(j as int);
        if p@.len() > 0 && p@.len() <= s.len() {
            assert(s.skip(s.len() - p@.len()) == v@.subrange(j - p@.len(), j as int));
        }
    }
    slice_chars(v, 0, j)
}

/// `s` without `p` in front, if it starts with `p` (`str::strip_prefix`).
pub open spec fn strip_prefix(s: Seq<char>, p: Seq<char>) -> Option<Seq<char>> {
    if starts_with(s, p) {
        Some(s.skip(p.len() as int))
    } else {
        None
    }
}

pub fn strip_prefix_chars(v: &Vec<char>, p: &Vec<char>) -> (r: Option<Vec<char>>)
    ensures
        match r {
            Some(x) => strip_prefix(v@, p@) == Some(x@),
            None => strip_prefix(v@, p@) is None,
        },
{
    if p.len() <= v.len() && matches_at(v, p, 0) {
        assert(v@.take(p@.len() as int) == v@.subrange(0, p@.len() as int));
        let r = slice_chars(v, p.len(), v.len());
        assert(r@ == v@.skip(p@.len() as int));
        Some(r)
    } else {
        proof {
            if p@.len() <= v@.len() {
                assert(v@.take(p@.len() as int) == v@.subrange(0, p@.len() as int));
            }
        }
        None
    }
}

/// Whether `s` starts with `p` (executable).
pub fn starts_with_chars(v: &Vec<char>, p: &Vec<char>) -> (b: bool)
    ensures
        b == starts_with(v@, p@),
{
    if p.len() <= v.len() {
        assert(v@.take(p@.len() as int) == v@.subrange(0, p@.len() as int));
        matches_at(v, p, 0)
    } else {
        false
    }
}

/// First position at or after `i` at which `p` occurs in `s`, or -1.
pub open spec fn find_from(s: Seq<char>, p: Seq<char>, i: int) -> int
    decreases s.len() + 1 - i,
{
    if i < 0 || i + p.len() > s.len() {
        -1
    } else if occurs_at(s, p, i) {
        i
    } else {
        find_from(s, p, i + 1)
    }
}

/// First position at which `p` occurs in `s` (`str::find`, in characters), or -1.
pub open spec fn find(s: Seq<char>, p: Seq<char>) -> int {
    find_from(s, p, 0)
}

pub proof fn lemma_find_from(s: Seq<char>, p: Seq<char>, i: int, k: int)
    requires
        0 <= i <= k,
        forall|j: int| i <= j < k ==> !occurs_at(s, p, j),
        occurs_at(s, p, k) || k + p.len() > s.len(),
    ensures
        find_from(s, p, i) == if occurs_at(s, p, k) {
            k
        } else {
            -1
        },
    decreases k - i,
{
    if i < k {
        lemma_find_from(s, p, i + 1, k);
    }
}

/// Whether `p` occurs in `s` (`str::contains`).
pub open spec fn contains(s: Seq<char>, p: Seq<char>) -> bool {
    find(s, p) >= 0
}

/// First position of `p` in `s` (executable).
pub fn find_chars(v: &Vec<char>, p: &Vec<char>) -> (r: Option<usize>)
    ensures
        match r {
            Some(i) => find(v@, p@) == i && occurs_at(v@, p@, i as int),
            None => find(v@, p@) == -1,
        },
{
    if p.len() > v.len() {
        proof {
            lemma_find_from(v@, p@, 0, 0);
        }
        return None;
    }
    let last = v.len() - p.len();
    let mut i: usize = 0;
    loop
        invariant
            p.len() <= v.len(),
            last == v.len() - p.len(),
            i <= last,
            forall|j: int| 0 <= j < i ==> !occurs_at(v@, p@, j),
        ensures
            forall|j: int| 0 <= j <= last ==> !occurs_at(v@, p@, j),
        decreases last - i,
    {
        if matches_at(v, p, i) {
            proof {
                lemma_find_from(v@, p@, 0, i as int);
            }
            return Some(i);
        }
        if i == last {
            break;
        }
        i += 1;
    }
    proof {
        lemma_find_from(v@, p@, 0, last + 1);
    }
    None
}

/// Whether `p` occurs in `v` (executable).
pub fn contains_chars(v: &Vec<char>, p: &Vec<char>) -> (b: bool)
    ensures
        b == contains(v@, p@),
{
    find_chars(v, p).is_some()
}

/// Position of the first `c` in `s`, or -1.
pub open spec fn find_char(s: Seq<char>, c: char) -> int {
    find(s, seq![c])
}

pub fn find_char_exec(v: &Vec<char>, c: char) -> (r: Option<usize>)
    ensures
        match r {
            Some(i) => find_char(v@, c) == i && i < v@.len() && v@[i as int] == c,
            None => find_char(v@, c) == -1,
        },
{
    let mut p: Vec<char> = Vec::new();
    p.push(c);
    let r = find_chars(v, &p);
    proof {
        if let Some(i) = r {
            assert(v@.subrange(i as int, i + 1)[0] == v@[i as int]);
        }
    }
    r
}

/// ASCII upper case of one character.
pub open spec fn upper_char(c: char) -> char {
    if 'a' <= c && c <= 'z' {
        ((c as u32) - 32) as char
    } else {
        c
    }
}

/// ASCII lower case of one character.
pub open spec fn lower_char(c: char) -> char {
    if 'A' <= c && c <= 'Z' {
        ((c as u32) + 32) as char
    } else {
        c
    }
}

/// `str::to_ascii_uppercase`.
pub open spec fn ascii_upper(s: Seq<char>) -> Seq<char> {
    s.map_values(|c: char| upper_char(c))
}

/// `str::to_ascii_lowercase`.
pub open spec fn ascii_lower(s: Seq<char>) -> Seq<char> {
    s.map_values(|c: char| lower_char(c))
}

fn upper_char_exec(c: char) -> (r: char)
    ensures
        r == upper_char(c),
{
    if 'a' <= c && c <= 'z' {
        let b: u8 = (c as u8) - 32;
        b as char
    } else {
        c
    }
}

fn lower_char_exec(c: char) -> (r: char)
    ensures
        r == lower_char(c),
{
    if 'A' <= c && c <= 'Z' {
        let b: u8 = (c as u8) + 32;
        b as char
    } else {
        c
    }
}

pub fn to_upper(v: &Vec<char>) -> (r: Vec<char>)
    ensures
        r@ == ascii_upper(v@),
{
    let mut r: Vec<char> = Vec::new();
    let mut i: usize = 0;
    while i < v.len()
        invariant
            i <= v.len(),
            r@ == ascii_upper(v@.take(i as int)),
        decreases v.len() - i,
    {
        r.push(upper_char_exec(v[i]));
        assert(ascii_upper(v@.take(i + 1)) =~= ascii_upper(v@.take(i as int)).push(upper_char(v@[i as int])));
        i += 1;
    }
    assert(v@.take(v.len() as int) == v@);
    r
}

pub fn to_lower(v: &Vec<char>) -> (r: Vec<char>)
    ensures
        r@ == ascii_lower(v@),
{
    let mut r: Vec<char> = Vec::new();
    let mut i: usize = 0;
    while i < v.len()
        invariant
            i <= v.len(),
            r@ == ascii_lower(v@.take(i as int)),
        decreases v.len() - i,
    {
        r.push(lower_char_exec(v[i]));
        assert(ascii_lower(v@.take(i + 1)) =~= ascii_lower(v@.take(i as int)).push(lower_char(v@[i as int])));
        i += 1;
    }
    assert(v@.take(v.len() as int) == v@);
    r
}

/// +1 for `(`, -1 for `)`, 0 otherwise.
pub open spec fn paren_delta(c: char) -> int {
    if c == '(' {
        1
    } else if c == ')' {
        -1
    } else {
        0
    }
}

/// Parenthesis depth after reading `s`: opened minus closed.
pub open spec fn depth(s: Seq<char>) -> int
    decreases s.len(),
{
    if s.len() == 0 {
        0
    } else {
        depth(s.drop_last()) + paren_delta(s.last())
    }
}

pub open spec fn char_views(v: Seq<Vec<char>>) -> Seq<Seq<char>> {
    v.map_values(|x: Vec<char>| x@)
}

/// Pieces cut so far, and where the current one starts, after reading `s[..i]` while
/// splitting at commas outside parentheses.
pub open spec fn csv_state(s: Seq<char>, i: int) -> (Seq<Seq<char>>, int)
    decreases i,
{
    if i <= 0 {
        (seq![], 0)
    } else {
        let prev = csv_state(s, i - 1);
        if s[i - 1] == ',' && depth(s.take(i - 1)) == 0 {
            (prev.0.push(trim(s.subrange(prev.1, i - 1))), i)
        } else {
            prev
        }
    }
}

/// `s` split at the commas outside parentheses, each piece trimmed.
pub open spec fn split_csv(s: Seq<char>) -> Seq<Seq<char>> {
    let st = csv_state(s, s.len() as int);
    st.0.push(trim(s.skip(st.1)))
}

pub proof fn lemma_csv_state_bound(s: Seq<char>, i: int)
    requires
        0 <= i <= s.len(),
    ensures
        0 <= csv_state(s, i).1 <= i,
    decreases i,
{
    if i > 0 {
        lemma_csv_state_bound(s, i - 1);
    }
}

/// Splits at commas outside parentheses (a comma inside `(..)` stays in its piece).
pub fn split_top_level_csv(v: &Vec<char>) -> (r: Vec<Vec<char>>)
    ensures
        char_views(r@) == split_csv(v@),
{
    let mut parts: Vec<Vec<char>> = Vec::new();
    let mut start: usize = 0;
    let mut opens: usize = 0;
    let mut closes: usize = 0;
    let mut i: usize = 0;
    while i < v.len()
        invariant
            i <= v.len(),
            start <= i,
            opens <= i,
            closes <= i,
            opens - closes == depth(v@.take(i as int)),
            (char_views(parts@), start as int) == csv_state(v@, i as int),
        decreases v.len() - i,
    {
        let c = v[i];
        assert(v@.take(i + 1).drop_last() == v@.take(i as int));
        if c == '(' {
            opens += 1;
        } else if c == ')' {
            closes += 1;
        } else if c == ',' && opens == closes {
            let piece = slice_chars(v, start, i);
            let piece = trim_chars(&piece);
            parts.push(piece);
            assert(char_views(parts@) =~= csv_state(v@, i as int).0.push(piece@));
            start = i + 1;
        }
        i += 1;
    }
    let last = slice_chars(v, start, v.len());
    let last = trim_chars(&last);
    parts.push(last);
    assert(v@.take(v.len() as int) == v@);
    assert(v@.subrange(start as int, v.len() as int) == v@.skip(start as int));
    assert(char_views(parts@) =~= split_csv(v@));
    parts
}

/// Position of the `)` that closes the `(` at `open`, searching from `k`, or -1.
pub open spec fn close_from(s: Seq<char>, open: int, k: int) -> int
    decreases s.len() - k,
{
    if k < open || k >= s.len() {
        -1
    } else if s[k] == ')' && depth(s.subrange(open, k + 1)) == 0 {
        k
    } else {
        close_from(s, open, k + 1)
    }
}

/// Position of the `)` that closes the `(` at `open`, or -1.
pub open spec fn matching_paren(s: Seq<char>, open: int) -> int {
    close_from(s, open, open)
}

pub proof fn lemma_close_from(s: Seq<char>, open: int, i: int, k: int)
    requires
        0 <= open <= i <= k <= s.len(),
        forall|j: int|
            i <= j < k ==> !(s[j] == ')' && #[trigger] depth(s.subrange(open, j + 1)) == 0),
        k == s.len() || (s[k] == ')' && depth(s.subrange(open, k + 1)) == 0),
    ensures
        close_from(s, open, i) == if k == s.len() {
            -1
        } else {
            k
        },
    decreases k - i,
{
    if i < k {
        lemma_close_from(s, open, i + 1, k);
    }
}

/// The closing parenthesis for the one at `open` (executable).
pub fn find_matching_paren(v: &Vec<char>, open: usize) -> (r: Option<usize>)
    requires
        open <= v.len(),
    ensures
        match r {
            Some(k) => matching_paren(v@, open as int) == k && open <= k < v.len() && v@[k as int] == ')',
            None => matching_paren(v@, open as int) == -1,
        },
{
    let mut opens: usize = 0;
    let mut closes: usize = 0;
    let mut k: usize = open;
    assert(v@.subrange(open as int, open as int) =~= seq![]);
    while k < v.len()
        invariant
            open <= k <= v.len(),
            opens <= k - open,
            closes <= k - open,
            opens - closes == depth(v@.subrange(open as int, k as int)),
            forall|j: int|
                open <= j < k ==> !(v@[j] == ')' && #[trigger] depth(v@.subrange(open as int, j + 1)) == 0),
        decreases v.len() - k,
    {
        let c = v[k];
        assert(v@.subrange(open as int, k + 1).drop_last() == v@.subrange(open as int, k as int));
        if c == '(' {
            opens += 1;
        } else if c == ')' {
            closes += 1;
            if opens == closes {
                proof {
                    lemma_close_from(v@, open as int, open as int, k as int);
                }
                return Some(k);
            }
        }
        k += 1;
    }
    proof {
        lemma_close_from(v@, open as int, open as int, v.len() as int);
    }
    None
}

/// The text inside the first `(..)` group of `s` (`None` when there is no `(` or it is
/// never closed).
pub open spec fn parenthesized(s: Seq<char>) -> Option<Seq<char>> {
    let start = find_char(s, '(');
    if start < 0 {
        None
    } else {
        let end = matching_paren(s, start);
        if end < 0 {
            None
        } else {
            Some(s.subrange(start + 1, end))
        }
    }
}

pub fn extract_parenthesized(v: &Vec<char>) -> (r: Option<Vec<char>>)
    ensures
        match r {
            Some(x) => parenthesized(v@) == Some(x@) && x@.len() + 2 <= v@.len(),
            None => parenthesized(v@) is None,
        },
{
    let start = match find_char_exec(v, '(') {
        Some(i) => i,
        None => return None,
    };
    let end = match find_matching_paren(v, start) {
        Some(k) => k,
        None => return None,
    };
    Some(slice_chars(v, start + 1, end))
}

/// Whether one of `kws` occurs in `s` at `i`.
pub open spec fn keyword_at(s: Seq<char>, kws: Seq<Seq<char>>, i: int) -> bool {
    exists|j: int| 0 <= j < kws.len() && #[trigger] occurs_at(s, kws[j], i)
}

/// First position at or after `i`, outside parentheses, at which one of `kws` starts; or -1.
pub open spec fn top_keyword_from(s: Seq<char>, kws: Seq<Seq<char>>, i: int) -> int
    decreases s.len() - i,
{
    if i < 0 || i >= s.len() {
        -1
    } else if s[i] != '(' && s[i] != ')' && depth(s.take(i)) == 0 && keyword_at(s, kws, i) {
        i
    } else {
        top_keyword_from(s, kws, i + 1)
    }
}

pub proof fn lemma_top_keyword_from(s: Seq<char>, kws: Seq<Seq<char>>, i: int, k: int)
    requires
        0 <= i <= k <= s.len(),
        forall|j: int|
            i <= j < k ==> !(s[j] != '(' && s[j] != ')' && depth(s.take(j)) == 0
                && #[trigger] keyword_at(s, kws, j)),
        k == s.len() || (s[k] != '(' && s[k] != ')' && depth(s.take(k)) == 0 && keyword_at(
            s,
            kws,
            k,
        )),
    ensures
        top_keyword_from(s, kws, i) == if k == s.len() {
            -1
        } else {
            k
        },
    decreases k - i,
{
    if i < k {
        lemma_top_keyword_from(s, kws, i + 1, k);
    }
}

fn keyword_at_exec(v: &Vec<char>, kws: &Vec<Vec<char>>, i: usize) -> (b: bool)
    ensures
        b == keyword_at(v@, char_views(kws@), i as int),
{
    let mut j: usize = 0;
    while j < kws.len()
        invariant
            j <= kws.len(),
            forall|m: int| 0 <= m < j ==> !occurs_at(v@, #[trigger] char_views(kws@)[m], i as int),
        decreases kws.len() - j,
    {
        if matches_at(v, &kws[j], i) {
            assert(occurs_at(v@, char_views(kws@)[j as int], i as int));
            return true;
        }
        j += 1;
    }
    false
}

/// First position outside parentheses at which one of `kws` starts.
pub fn find_first_top_level_keyword(v: &Vec<char>, kws: &Vec<Vec<char>>) -> (r: Option<usize>)
    ensures
        match r {
            Some(k) => top_keyword_from(v@, char_views(kws@), 0) == k && k < v.len(),
            None => top_keyword_from(v@, char_views(kws@), 0) == -1,
        },
{
    let ghost ks = char_views(kws@);
    let mut opens: usize = 0;
    let mut closes: usize = 0;
    let mut i: usize = 0;
    while i < v.len()
        invariant
            i <= v.len(),
            opens <= i,
            closes <= i,
            ks == char_views(kws@),
            opens - closes == depth(v@.take(i as int)),
            forall|j: int|
                0 <= j < i ==> !(v@[j] != '(' && v@[j] != ')' && depth(v@.take(j)) == 0
                    && #[trigger] keyword_at(v@, ks, j)),
        decreases v.len() - i,
    {
        let c = v[i];
        assert(v@.take(i + 1).drop_last() == v@.take(i as int));
        if c == '(' {
            opens += 1;
        } else if c == ')' {
            closes += 1;
        } else if opens == closes {
            if keyword_at_exec(v, kws, i) {
                proof {
                    lemma_top_keyword_from(v@, ks, 0, i as int);
                }
                return Some(i);
            }
        }
        i += 1;
    }
    proof {
        lemma_top_keyword_from(v@, ks, 0, v.len() as int);
    }
    None
}

/// Lines cut so far, and where the current one starts, after reading `s[..i]`.
pub open spec fn lines_state(s: Seq<char>, i: int) -> (Seq<Seq<char>>, int)
    decreases i,
{
    if i <= 0 {
        (seq![], 0)
    } else {
        let prev = lines_state(s, i - 1);
        if s[i - 1] == '\n' {
            (prev.0.push(s.subrange(prev.1, i - 1)), i)
        } else {
            prev
        }
    }
}

/// The lines of `s` (`str::lines`, before each line is trimmed: a `\r` before the `\n` stays
/// on its line as trailing whitespace).
pub open spec fn lines(s: Seq<char>) -> Seq<Seq<char>> {
    let st = lines_state(s, s.len() as int);
    if st.1 < s.len() {
        st.0.push(s.skip(st.1))
    } else {
        st.0
    }
}

pub fn split_lines(v: &Vec<char>) -> (r: Vec<Vec<char>>)
    ensures
        char_views(r@) == lines(v@),
{
    let mut parts: Vec<Vec<char>> = Vec::new();
    let mut start: usize = 0;
    let mut i: usize = 0;
    while i < v.len()
        invariant
            i <= v.len(),
            start <= i,
            (char_views(parts@), start as int) == lines_state(v@, i as int),
        decreases v.len() - i,
    {
        if v[i] == '\n' {
            let piece = slice_chars(v, start, i);
            parts.push(piece);
            assert(char_views(parts@) =~= lines_state(v@, i as int).0.push(piece@));
            start = i + 1;
        }
        i += 1;
    }
    if start < v.len() {
        let last = slice_chars(v, start, v.len());
        parts.push(last);
        assert(v@.subrange(start as int, v.len() as int) == v@.skip(start as int));
        assert(char_views(parts@) =~= lines(v@));
    }
    parts
}

/// Whether two character vectors are equal.
pub fn same_chars(a: &Vec<char>, b: &Vec<char>) -> (r: bool)
    ensures
        r == (a@ == b@),
{
    if a.len() != b.len() {
        return false;
    }
    let mut i: usize = 0;
    while i < a.len()
        invariant
            a.len() == b.len(),
            i <= a.len(),
            forall|k: int| 0 <= k < i ==> a@[k] == b@[k],
        decreases a.len() - i,
    {
        if a[i] != b[i] {
            return false;
        }
        i += 1;
    }
    assert(a@ =~= b@);
    true
}

/// Whether `s` ends with `p` (executable).
pub fn ends_with_chars(v: &Vec<char>, p: &Vec<char>) -> (b: bool)
    ensures
        b == ends_with(v@, p@),
{
    if p.len() <= v.len() {
        assert(v@.skip(v@.len() - p@.len()) == v@.subrange(v@.len() - p@.len(), v@.len() as int));
        matches_at(v, p, v.len() - p.len())
    } else {
        false
    }
}

} // verus!
