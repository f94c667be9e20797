//! When `postgres://<user>@<host>:<port>` reads back as a URL with an authority whose host
//! can be parsed: the shape sqlx writes a destination's connection contract in.
use vstd::prelude::*;

use crate::text::chars_of;

verus! {

/// Tab and newlines, which URL parsing skips wherever they stand.
pub open spec fn url_ignored(c: char) -> bool {
    c == '\t' || c == '\n' || c == '\r'
}

/// `s` without the characters that URL parsing skips.
pub open spec fn strip_ignored(s: Seq<char>) -> Seq<char>
    decreases s.len(),
{
    if s.len() == 0 {
        s
    } else if url_ignored(s.last()) {
        strip_ignored(s.drop_last())
    } else {
        strip_ignored(s.drop_last()).push(s.last())
    }
}

/// The characters that end a URL's authority.
pub open spec fn url_delim(c: char) -> bool {
    c == '/' || c == '?' || c == '#'
}

pub open spec fn has_delim(s: Seq<char>) -> bool {
    exists|i: int| 0 <= i < s.len() && url_delim(#[trigger] s[i])
}

/// The text before the first delimiter.
pub open spec fn before_delim(s: Seq<char>) -> Seq<char>
    decreases s.len(),
{
    if s.len() == 0 {
        s
    } else if has_delim(s.drop_last()) {
        before_delim(s.drop_last())
    } else if url_delim(s.last()) {
        s.drop_last()
    } else {
        s
    }
}

/// The text after the last `@` (all of `s` when it holds none).
pub open spec fn after_last_at(s: Seq<char>) -> Seq<char>
    decreases s.len(),
{
    if s.len() == 0 {
        s
    } else if s.last() == '@' {
        seq![]
    } else {
        after_last_at(s.drop_last()).push(s.last())
    }
}

/// The characters that a host which is not an IPv6 literal cannot hold.
pub open spec fn host_forbidden(c: char) -> bool {
    c == '\0' || c == ' ' || c == '#' || c == '/' || c == ':' || c == '<' || c == '>' || c == '?'
        || c == '@' || c == '[' || c == '\\' || c == ']' || c == '^' || c == '|'
}

pub open spec fn plain_host(s: Seq<char>) -> bool {
    s.len() > 0 && forall|i: int| 0 <= i < s.len() ==> !host_forbidden(#[trigger] s[i])
}

pub open spec fn is_hex(c: char) -> bool {
    ('0' <= c && c <= '9') || ('a' <= c && c <= 'f') || ('A' <= c && c <= 'F')
}

/// What reading an IPv6 literal has seen: whether it still reads, how many groups of hex
/// digits, the length of the current group, how many `:` just before, and whether `::` came.
pub struct V6Scan {
    pub ok: bool,
    pub groups: nat,
    pub run: nat,
    pub colons: nat,
    pub compressed: bool,
}

pub open spec fn v6_step(st: V6Scan, c: char) -> V6Scan {
    if !st.ok {
        st
    } else if is_hex(c) {
        if st.run == 4 || (st.colons == 1 && st.groups == 0) {
            V6Scan { ok: false, ..st }
        } else {
            V6Scan {
                ok: true,
                groups: if st.run == 0 { st.groups + 1 } else { st.groups },
                run: st.run + 1,
                colons: 0,
                compressed: st.compressed,
            }
        }
    } else if c == ':' {
        if st.colons == 0 {
            V6Scan { run: 0, colons: 1, ..st }
        } else if st.colons == 1 && !st.compressed {
            V6Scan { run: 0, colons: 2, compressed: true, ..st }
        } else {
            V6Scan { ok: false, ..st }
        }
    } else {
        V6Scan { ok: false, ..st }
    }
}

pub open spec fn v6_scan(s: Seq<char>) -> V6Scan
    decreases s.len(),
{
    if s.len() == 0 {
        V6Scan { ok: true, groups: 0, run: 0, colons: 0, compressed: false }
    } else {
        v6_step(v6_scan(s.drop_last()), s.last())
    }
}

/// An IPv6 address in hex groups: eight groups of one to four hex digits split by `:`, or at
/// most seven with one `::` standing for the rest. (The forms that end in dotted IPv4 are
/// not counted here.)
pub open spec fn ipv6_text(s: Seq<char>) -> bool {
    let st = v6_scan(s);
    st.ok && st.colons != 1 && if st.compressed {
        st.groups <= 7
    } else {
        st.groups == 8
    }
}

/// `[` IPv6 `]`.
pub open spec fn bracket_host(s: Seq<char>) -> bool {
    s.len() >= 2 && s[0] == '[' && s[s.len() - 1] == ']' && ipv6_text(s.subrange(1, s.len() - 1))
}

pub open spec fn host_form(s: Seq<char>) -> bool {
    plain_host(s) || bracket_host(s)
}

/// `postgres://<user>@<host>:<port>` parses as a URL. The authority ends at the first `/`,
/// `?` or `#`; so when the user holds one, the host is read from the user's text before it,
/// else from the host's; either way the host is what follows the last `@`, and it must be
/// non-empty and well formed. (Port numbers always read.)
pub open spec fn url_target_ok(user: Seq<char>, host: Seq<char>) -> bool {
    let u = strip_ignored(user);
    if has_delim(u) {
        host_form(after_last_at(before_delim(u)))
    } else {
        host_form(after_last_at(before_delim(strip_ignored(host))))
    }
}

fn strip_ignored_exec(s: &Vec<char>) -> (r: Vec<char>)
    ensures
        r@ == strip_ignored(s@),
{
    let mut r: Vec<char> = Vec::new();
    let mut i: usize = 0;
    while i < s.len()
        invariant
            i <= s.len(),
            r@ == strip_ignored(s@.take(i as int)),
        decreases s.len() - i,
    {
        assert(s@.take(i + 1).drop_last() == s@.take(i as int));
        assert(s@.take(i + 1).last() == s@[i as int]);
        let c = s[i];
        if !(c == '\t' || c == '\n' || c == '\r') {
            r.push(c);
        }
        i += 1;
    }
    assert(s@.take(s.len() as int) == s@);
    r
}

/// The text before the first delimiter, and whether there was one.
fn before_delim_exec(s: &Vec<char>) -> (r: (Vec<char>, bool))
    ensures
        r.0@ == before_delim(s@),
        r.1 == has_delim(s@),
{
    let mut r: Vec<char> = Vec::new();
    let mut found = false;
    let mut i: usize = 0;
    while i < s.len()
        invariant
            i <= s.len(),
            r@ == before_delim(s@.take(i as int)),
            found == has_delim(s@.take(i as int)),
            !found ==> r@ == s@.take(i as int),
        decreases s.len() - i,
    {
        let ghost t = s@.take(i + 1);
        assert(t.drop_last() == s@.take(i as int));
        assert(t.last() == s@[i as int]);
        let c = s[i];
        proof {
            if has_delim(s@.take(i as int)) {
                let w = choose|w: int| 0 <= w < i && url_delim(#[trigger] s@.take(i as int)[w]);
                assert(t[w] == s@.take(i as int)[w]);
            }
            if url_delim(c) {
                assert(t[i as int] == c);
            }
            if has_delim(t) {
                let w = choose|w: int| 0 <= w < t.len() && url_delim(#[trigger] t[w]);
                if w < i {
                    assert(s@.take(i as int)[w] == t[w]);
                }
            }
        }
        if !found {
            if c == '/' || c == '?' || c == '#' {
                found = true;
            } else {
                r.push(c);
            }
        }
        i += 1;
    }
    assert(s@.take(s.len() as int) == s@);
    (r, found)
}

fn after_last_at_exec(s: &Vec<char>) -> (r: Vec<char>)
    ensures
        r@ == after_last_at(s@),
{
    let mut r: Vec<char> = Vec::new();
    let mut i: usize = 0;
    while i < s.len()
        invariant
            i <= s.len(),
            r@ == after_last_at(s@.take(i as int)),
        decreases s.len() - i,
    {
        assert(s@.take(i + 1).drop_last() == s@.take(i as int));
        assert(s@.take(i + 1).last() == s@[i as int]);
        if s[i] == '@' {
            r = Vec::new();
        } else {
            r.push(s[i]);
        }
        i += 1;
    }
    assert(s@.take(s.len() as int) == s@);
    r
}

fn plain_host_exec(s: &Vec<char>) -> (b: bool)
    ensures
        b == plain_host(s@),
{
    if s.len() == 0 {
        return false;
    }
    let mut i: usize = 0;
    while i < s.len()
        invariant
            i <= s.len(),
            s.len() > 0,
            forall|j: int| 0 <= j < i ==> !host_forbidden(#[trigger] s@[j]),
        decreases s.len() - i,
    {
        let c = s[i];
        if c == '\0' || c == ' ' || c == '#' || c == '/' || c == ':' || c == '<' || c == '>' || c == '?'
            || c == '@' || c == '[' || c == '\\' || c == ']' || c == '^' || c == '|' {
            assert(host_forbidden(s@[i as int]));
            return false;
        }
        i += 1;
    }
    true
}

fn ipv6_text_exec(s: &Vec<char>, start: usize, end: usize) -> (b: bool)
    requires
        start <= end <= s.len(),
    ensures
        b == ipv6_text(s@.subrange(start as int, end as int)),
{
    let ghost t = s@.subrange(start as int, end as int);
    let mut ok = true;
    let mut groups: usize = 0;
    let mut run: usize = 0;
    let mut colons: usize = 0;
    let mut compressed = false;
    let mut i: usize = start;
    while i < end
        invariant
            start <= i <= end <= s.len(),
            t == s@.subrange(start as int, end as int),
            groups <= i - start,
            run <= 4,
            colons <= 2,
            v6_scan(t.take(i - start)) == (V6Scan {
                ok,
                groups: groups as nat,
                run: run as nat,
                colons: colons as nat,
                compressed,
            }),
        decreases end - i,
    {
        assert(t.take(i + 1 - start).drop_last() == t.take(i - start));
        assert(t.take(i + 1 - start).last() == s@[i as int]);
        let c = s[i];
        if ok {
            if ('0' <= c && c <= '9') || ('a' <= c && c <= 'f') || ('A' <= c && c <= 'F') {
                if run == 4 || (colons == 1 && groups == 0) {
                    ok = false;
                } else {
                    if run == 0 {
                        groups = groups + 1;
                    }
                    run = run + 1;
                    colons = 0;
                }
            } else if c == ':' {
                if colons == 0 {
                    run = 0;
                    colons = 1;
                } else if colons == 1 && !compressed {
                    run = 0;
                    colons = 2;
                    compressed = true;
                } else {
                    ok = false;
                }
            } else {
                ok = false;
            }
        }
        i += 1;
    }
    assert(t.take(end - start) == t);
    ok && colons != 1 && if compressed {
        groups <= 7
    } else {
        groups == 8
    }
}

fn host_form_exec(s: &Vec<char>) -> (b: bool)
    ensures
        b == host_form(s@),
{
    if plain_host_exec(s) {
        return true;
    }
    let n = s.len();
    if n >= 2 && s[0] == '[' && s[n - 1] == ']' {
        ipv6_text_exec(s, 1, n - 1)
    } else {
        false
    }
}

/// Whether `postgres://<user>@<host>:<port>` parses as a URL with a host.
pub fn url_target_ok_exec(user: &str, host: &str) -> (b: bool)
    ensures
        b == url_target_ok(user@, host@),
{
    let u = strip_ignored_exec(&chars_of(user));
    let (u0, user_delim) = before_delim_exec(&u);
    if user_delim {
        host_form_exec(&after_last_at_exec(&u0))
    } else {
        let h = strip_ignored_exec(&chars_of(host));
        let (h0, _) = before_delim_exec(&h);
        host_form_exec(&after_last_at_exec(&h0))
    }
}

} // verus!
