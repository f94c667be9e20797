//! Sorted sequences: insertion into a sorted sequence, with and without repeats.
use vstd::prelude::*;

use crate::schema::QualifiedTableName;
use crate::sql_text::char_views;
use crate::text::{
    chars_of, lemma_seq_lt_irreflexive, lemma_seq_lt_total, lemma_seq_lt_transitive, seq_less, seq_lt,
};
use vstd::relations::{connected, irreflexive, transitive};
use vstd::seq_lib::group_to_multiset_ensures;

verus! {

/// `s` with `x` put before the first element that `x` sorts strictly before.
pub open spec fn insert_sorted<T>(s: Seq<T>, x: T, lt: spec_fn(T, T) -> bool) -> Seq<T>
    decreases s.len(),
{
    if s.len() == 0 {
        seq![x]
    } else if lt(x, s[0]) {
        seq![x] + s
    } else {
        seq![s[0]] + insert_sorted(s.drop_first(), x, lt)
    }
}

/// The elements of `s`, sorted by `lt`, repeats kept (`slice::sort`).
pub open spec fn sort_by<T>(s: Seq<T>, lt: spec_fn(T, T) -> bool) -> Seq<T>
    decreases s.len(),
{
    if s.len() == 0 {
        seq![]
    } else {
        insert_sorted(sort_by(s.drop_last(), lt), s.last(), lt)
    }
}

/// `s` with `x` put in its place, unless `x` is met first.
pub open spec fn insert_unique<T>(s: Seq<T>, x: T, lt: spec_fn(T, T) -> bool) -> Seq<T>
    decreases s.len(),
{
    if s.len() == 0 {
        seq![x]
    } else if x == s[0] {
        s
    } else if lt(x, s[0]) {
        seq![x] + s
    } else {
        seq![s[0]] + insert_unique(s.drop_first(), x, lt)
    }
}

/// The distinct elements of `s`, sorted by `lt` (a `BTreeSet` walked in order).
pub open spec fn sort_unique<T>(s: Seq<T>, lt: spec_fn(T, T) -> bool) -> Seq<T>
    decreases s.len(),
{
    if s.len() == 0 {
        seq![]
    } else {
        insert_unique(sort_unique(s.drop_last(), lt), s.last(), lt)
    }
}

pub proof fn lemma_insert_sorted_at<T>(s: Seq<T>, x: T, lt: spec_fn(T, T) -> bool, p: int)
    requires
        0 <= p <= s.len(),
        forall|j: int| 0 <= j < p ==> !lt(x, #[trigger] s[j]),
        p == s.len() || lt(x, s[p]),
    ensures
        insert_sorted(s, x, lt) == s.take(p).push(x) + s.skip(p),
    decreases p,
{
    if p == 0 {
        if s.len() == 0 {
            assert(s.take(0).push(x) + s.skip(0) =~= seq![x]);
        } else {
            assert(s.take(0).push(x) + s.skip(0) =~= seq![x] + s);
        }
    } else {
        let t = s.drop_first();
        assert forall|j: int| 0 <= j < p - 1 implies !lt(x, #[trigger] t[j]) by {
            assert(t[j] == s[j + 1]);
        }
        if p < s.len() {
            assert(t[p - 1] == s[p]);
        }
        lemma_insert_sorted_at(t, x, lt, p - 1);
        assert(!lt(x, s[0]));
        assert(seq![s[0]] + (t.take(p - 1).push(x) + t.skip(p - 1)) =~= s.take(p).push(x) + s.skip(p));
    }
}

pub proof fn lemma_insert_unique_at<T>(s: Seq<T>, x: T, lt: spec_fn(T, T) -> bool, p: int)
    requires
        0 <= p <= s.len(),
        forall|j: int| 0 <= j < p ==> #[trigger] s[j] != x && !lt(x, s[j]),
        p == s.len() || s[p] == x || lt(x, s[p]),
    ensures
        insert_unique(s, x, lt) == if p < s.len() && s[p] == x {
            s
        } else {
            s.take(p).push(x) + s.skip(p)
        },
    decreases p,
{
    if p == 0 {
        if s.len() == 0 {
            assert(s.take(0).push(x) + s.skip(0) =~= seq![x]);
        } else if s[0] != x {
            assert(s.take(0).push(x) + s.skip(0) =~= seq![x] + s);
        }
    } else {
        let t = s.drop_first();
        assert forall|j: int| 0 <= j < p - 1 implies #[trigger] t[j] != x && !lt(x, t[j]) by {
            assert(t[j] == s[j + 1]);
        }
        if p < s.len() {
            assert(t[p - 1] == s[p]);
        }
        lemma_insert_unique_at(t, x, lt, p - 1);
        assert(s[0] != x && !lt(x, s[0]));
        if p < s.len() && s[p] == x {
            assert(seq![s[0]] + t =~= s);
        } else {
            assert(seq![s[0]] + (t.take(p - 1).push(x) + t.skip(p - 1)) =~= s.take(p).push(x) + s.skip(p));
        }
    }
}

/// Lexicographic order on `(schema, table)` names.
pub open spec fn name_lt(a: (Seq<char>, Seq<char>), b: (Seq<char>, Seq<char>)) -> bool {
    seq_lt(a.0, b.0) || (a.0 == b.0 && seq_lt(a.1, b.1))
}

/// Lexicographic order on lists of strings (`Vec<String>`'s order).
pub open spec fn list_lt(a: Seq<Seq<char>>, b: Seq<Seq<char>>) -> bool
    decreases a.len(),
{
    if a.len() == 0 {
        b.len() > 0
    } else if b.len() == 0 {
        false
    } else if seq_lt(a[0], b[0]) {
        true
    } else if seq_lt(b[0], a[0]) {
        false
    } else {
        list_lt(a.drop_first(), b.drop_first())
    }
}

/// Character order on strings, as a value.
pub open spec fn str_order() -> spec_fn(Seq<char>, Seq<char>) -> bool {
    |a: Seq<char>, b: Seq<char>| seq_lt(a, b)
}

/// Name order, as a value.
pub open spec fn name_order() -> spec_fn((Seq<char>, Seq<char>), (Seq<char>, Seq<char>)) -> bool {
    |a: (Seq<char>, Seq<char>), b: (Seq<char>, Seq<char>)| name_lt(a, b)
}

/// List order, as a value.
pub open spec fn list_order() -> spec_fn(Seq<Seq<char>>, Seq<Seq<char>>) -> bool {
    |a: Seq<Seq<char>>, b: Seq<Seq<char>>| list_lt(a, b)
}

pub open spec fn list_views(v: Seq<Vec<Vec<char>>>) -> Seq<Seq<Seq<char>>> {
    v.map_values(|x: Vec<Vec<char>>| char_views(x@))
}

pub open spec fn name_views(v: Seq<QualifiedTableName>) -> Seq<(Seq<char>, Seq<char>)> {
    v.map_values(|x: QualifiedTableName| x@)
}

/// Strings sorted by character order, repeats kept.
pub fn sort_strings(v: Vec<Vec<char>>) -> (r: Vec<Vec<char>>)
    ensures
        char_views(r@) == sort_by(char_views(v@), str_order()),
{
    let ghost vv = char_views(v@);
    let mut sorted: Vec<Vec<char>> = Vec::new();
    let mut i: usize = 0;
    assert(vv.take(0) =~= seq![]);
    while i < v.len()
        invariant
            i <= v.len(),
            vv == char_views(v@),
            char_views(sorted@) == sort_by(vv.take(i as int), str_order()),
        decreases v.len() - i,
    {
        let x = v[i].clone();
        assert(vv[i as int] == x@);
        let ghost sv = char_views(sorted@);
        let mut p: usize = 0;
        while p < sorted.len() && !seq_less(&x, &sorted[p])
            invariant
                p <= sorted.len(),
                sv == char_views(sorted@),
                forall|j: int| 0 <= j < p ==> !seq_lt(x@, #[trigger] sv[j]),
            decreases sorted.len() - p,
        {
            p += 1;
        }
        proof {
            lemma_insert_sorted_at(sv, x@, str_order(), p as int);
            assert(vv.take(i + 1).drop_last() == vv.take(i as int));
        }
        sorted.insert(p, x);
        assert(char_views(sorted@) =~= sv.take(p as int).push(x@) + sv.skip(p as int));
        i += 1;
    }
    assert(vv.take(v.len() as int) == vv);
    sorted
}

/// Distinct strings sorted by character order.
pub fn sort_unique_strings(v: Vec<Vec<char>>) -> (r: Vec<Vec<char>>)
    ensures
        char_views(r@) == sort_unique(char_views(v@), str_order()),
{
    let ghost vv = char_views(v@);
    let mut sorted: Vec<Vec<char>> = Vec::new();
    let mut i: usize = 0;
    assert(vv.take(0) =~= seq![]);
    while i < v.len()
        invariant
            i <= v.len(),
            vv == char_views(v@),
            char_views(sorted@) == sort_unique(vv.take(i as int), str_order()),
        decreases v.len() - i,
    {
        let x = v[i].clone();
        assert(vv[i as int] == x@);
        let ghost sv = char_views(sorted@);
        let mut p: usize = 0;
        while p < sorted.len() && !crate::sql_text::same_chars(&x, &sorted[p]) && !seq_less(&x, &sorted[p])
            invariant
                p <= sorted.len(),
                sv == char_views(sorted@),
                forall|j: int| 0 <= j < p ==> #[trigger] sv[j] != x@ && !seq_lt(x@, sv[j]),
            decreases sorted.len() - p,
        {
            p += 1;
        }
        proof {
            lemma_insert_unique_at(sv, x@, str_order(), p as int);
            assert(vv.take(i + 1).drop_last() == vv.take(i as int));
        }
        if p < sorted.len() && crate::sql_text::same_chars(&x, &sorted[p]) {
        } else {
            sorted.insert(p, x);
            assert(char_views(sorted@) =~= sv.take(p as int).push(x@) + sv.skip(p as int));
        }
        i += 1;
    }
    assert(vv.take(v.len() as int) == vv);
    sorted
}

/// Whether list `a` sorts strictly before list `b`.
pub fn list_less(a: &Vec<Vec<char>>, b: &Vec<Vec<char>>) -> (r: bool)
    ensures
        r == list_lt(char_views(a@), char_views(b@)),
{
    let ghost av = char_views(a@);
    let ghost bv = char_views(b@);
    let mut i: usize = 0;
    assert(av.skip(0) == av);
    assert(bv.skip(0) == bv);
    while i < a.len() && i < b.len()
        invariant
            i <= a.len(),
            i <= b.len(),
            av == char_views(a@),
            bv == char_views(b@),
            list_lt(av, bv) == list_lt(av.skip(i as int), bv.skip(i as int)),
        decreases a.len() - i,
    {
        assert(av.skip(i as int)[0] == a@[i as int]@);
        assert(bv.skip(i as int)[0] == b@[i as int]@);
        if seq_less(&a[i], &b[i]) {
            return true;
        }
        if seq_less(&b[i], &a[i]) {
            return false;
        }
        assert(av.skip(i as int).drop_first() == av.skip(i + 1));
        assert(bv.skip(i as int).drop_first() == bv.skip(i + 1));
        i += 1;
    }
    i == a.len() && i < b.len()
}

/// Lists of strings sorted by list order, repeats kept.
pub fn sort_lists(v: Vec<Vec<Vec<char>>>) -> (r: Vec<Vec<Vec<char>>>)
    ensures
        list_views(r@) == sort_by(list_views(v@), list_order()),
{
    let ghost vv = list_views(v@);
    let mut sorted: Vec<Vec<Vec<char>>> = Vec::new();
    let mut i: usize = 0;
    assert(vv.take(0) =~= seq![]);
    while i < v.len()
        invariant
            i <= v.len(),
            vv == list_views(v@),
            list_views(sorted@) == sort_by(vv.take(i as int), list_order()),
        decreases v.len() - i,
    {
        let x = v[i].clone();
        assert(vv[i as int] == char_views(x@));
        let ghost sv = list_views(sorted@);
        let mut p: usize = 0;
        while p < sorted.len() && !list_less(&x, &sorted[p])
            invariant
                p <= sorted.len(),
                sv == list_views(sorted@),
                forall|j: int| 0 <= j < p ==> !list_lt(char_views(x@), #[trigger] sv[j]),
            decreases sorted.len() - p,
        {
            p += 1;
        }
        proof {
            lemma_insert_sorted_at(sv, char_views(x@), list_order(), p as int);
            assert(vv.take(i + 1).drop_last() == vv.take(i as int));
        }
        sorted.insert(p, x);
        assert(list_views(sorted@) =~= sv.take(p as int).push(char_views(x@)) + sv.skip(p as int));
        i += 1;
    }
    assert(vv.take(v.len() as int) == vv);
    sorted
}

/// Whether name `a` sorts strictly before name `b`.
pub fn name_less(a: &QualifiedTableName, b: &QualifiedTableName) -> (r: bool)
    ensures
        r == name_lt(a@, b@),
{
    let a0 = chars_of(a.schema().raw());
    let b0 = chars_of(b.schema().raw());
    if seq_less(&a0, &b0) {
        return true;
    }
    if !crate::sql_text::same_chars(&a0, &b0) {
        return false;
    }
    let a1 = chars_of(a.table().raw());
    let b1 = chars_of(b.table().raw());
    seq_less(&a1, &b1)
}

/// Distinct names sorted by name order (a `BTreeSet` of names, walked in order).
pub fn sort_unique_names(v: &Vec<QualifiedTableName>) -> (r: Vec<QualifiedTableName>)
    ensures
        name_views(r@) == sort_unique(name_views(v@), name_order()),
{
    let ghost vv = name_views(v@);
    let mut sorted: Vec<QualifiedTableName> = Vec::new();
    let mut i: usize = 0;
    assert(vv.take(0) =~= seq![]);
    while i < v.len()
        invariant
            i <= v.len(),
            vv == name_views(v@),
            name_views(sorted@) == sort_unique(vv.take(i as int), name_order()),
        decreases v.len() - i,
    {
        let x = v[i].clone();
        assert(vv[i as int] == x@);
        let ghost sv = name_views(sorted@);
        let mut p: usize = 0;
        while p < sorted.len() && !x.same(&sorted[p]) && !name_less(&x, &sorted[p])
            invariant
                p <= sorted.len(),
                sv == name_views(sorted@),
                forall|j: int| 0 <= j < p ==> #[trigger] sv[j] != x@ && !name_lt(x@, sv[j]),
            decreases sorted.len() - p,
        {
            p += 1;
        }
        proof {
            lemma_insert_unique_at(sv, x@, name_order(), p as int);
            assert(vv.take(i + 1).drop_last() == vv.take(i as int));
        }
        if p < sorted.len() && x.same(&sorted[p]) {
        } else {
            sorted.insert(p, x);
            assert(name_views(sorted@) =~= sv.take(p as int).push(x@) + sv.skip(p as int));
        }
        i += 1;
    }
    assert(vv.take(v.len() as int) == vv);
    sorted
}

pub proof fn lemma_insert_unique_contains<T>(s: Seq<T>, x: T, lt: spec_fn(T, T) -> bool, y: T)
    ensures
        insert_unique(s, x, lt).contains(y) == (s.contains(y) || y == x),
    decreases s.len(),
{
    if s.len() > 0 && x != s[0] && !lt(x, s[0]) {
        let t = s.drop_first();
        lemma_insert_unique_contains(t, x, lt, y);
        let r = insert_unique(t, x, lt);
        let whole = seq![s[0]] + r;
        assert(whole.contains(y) == (y == s[0] || r.contains(y))) by {
            if whole.contains(y) {
                let w = choose|w: int| 0 <= w < whole.len() && whole[w] == y;
                if w > 0 {
                    assert(r[w - 1] == y);
                }
            }
            if r.contains(y) {
                let w = choose|w: int| 0 <= w < r.len() && r[w] == y;
                assert(whole[w + 1] == y);
            }
            if y == s[0] {
                assert(whole[0] == y);
            }
        }
        assert(s.contains(y) == (y == s[0] || t.contains(y))) by {
            if s.contains(y) {
                let w = choose|w: int| 0 <= w < s.len() && s[w] == y;
                if w > 0 {
                    assert(t[w - 1] == y);
                }
            }
            if t.contains(y) {
                let w = choose|w: int| 0 <= w < t.len() && t[w] == y;
                assert(s[w + 1] == y);
            }
            if y == s[0] {
                assert(s[0] == y);
            }
        }
    } else if s.len() > 0 && x != s[0] {
        let whole = seq![x] + s;
        if whole.contains(y) {
            let w = choose|w: int| 0 <= w < whole.len() && whole[w] == y;
            if w > 0 {
                assert(s[w - 1] == y);
            }
        }
        if s.contains(y) {
            let w = choose|w: int| 0 <= w < s.len() && s[w] == y;
            assert(whole[w + 1] == y);
        }
        if y == x {
            assert(whole[0] == y);
        }
    } else if s.len() > 0 {
        if y == x {
            assert(s[0] == y);
        }
    } else {
        if y == x {
            assert(seq![x][0] == y);
        }
    }
}

/// The distinct sorted elements are exactly the elements.
pub proof fn lemma_sort_unique_contains<T>(s: Seq<T>, lt: spec_fn(T, T) -> bool, y: T)
    ensures
        sort_unique(s, lt).contains(y) == s.contains(y),
    decreases s.len(),
{
    if s.len() > 0 {
        let d = s.drop_last();
        lemma_sort_unique_contains(d, lt, y);
        lemma_insert_unique_contains(sort_unique(d, lt), s.last(), lt, y);
        assert(s.contains(y) == (d.contains(y) || y == s.last())) by {
            if s.contains(y) {
                let w = choose|w: int| 0 <= w < s.len() && s[w] == y;
                if w < d.len() {
                    assert(d[w] == y);
                }
            }
            if d.contains(y) {
                let w = choose|w: int| 0 <= w < d.len() && d[w] == y;
                assert(s[w] == y);
            }
            if y == s.last() {
                assert(s[s.len() - 1] == y);
            }
        }
    }
}


/// Inserting `x` in order adds `x` and keeps every other element.
pub proof fn lemma_insert_sorted_contains<T>(s: Seq<T>, x: T, lt: spec_fn(T, T) -> bool, y: T)
    ensures
        insert_sorted(s, x, lt).contains(y) == (s.contains(y) || y == x),
    decreases s.len(),
{
    let r = insert_sorted(s, x, lt);
    if s.len() == 0 {
        assert(r =~= seq![x]);
        if r.contains(y) {
            let w = choose|w: int| 0 <= w < r.len() && r[w] == y;
        }
        if y == x {
            assert(r[0] == y);
        }
    } else if lt(x, s[0]) {
        assert(r == seq![x] + s);
        if r.contains(y) {
            let w = choose|w: int| 0 <= w < r.len() && r[w] == y;
            if w > 0 {
                assert(s[w - 1] == y);
            }
        }
        if s.contains(y) {
            let w = choose|w: int| 0 <= w < s.len() && s[w] == y;
            assert(r[w + 1] == y);
        }
        if y == x {
            assert(r[0] == y);
        }
    } else {
        let t = s.drop_first();
        let rt = insert_sorted(t, x, lt);
        lemma_insert_sorted_contains(t, x, lt, y);
        assert(r == seq![s[0]] + rt);
        if r.contains(y) {
            let w = choose|w: int| 0 <= w < r.len() && r[w] == y;
            if w == 0 {
                assert(s[0] == y);
            } else {
                assert(rt[w - 1] == y);
                if t.contains(y) {
                    let v = choose|v: int| 0 <= v < t.len() && t[v] == y;
                    assert(s[v + 1] == y);
                }
            }
        }
        if s.contains(y) {
            let w = choose|w: int| 0 <= w < s.len() && s[w] == y;
            if w == 0 {
                assert(r[0] == y);
            } else {
                assert(t[w - 1] == y);
                assert(rt.contains(y));
                let v = choose|v: int| 0 <= v < rt.len() && rt[v] == y;
                assert(r[v + 1] == y);
            }
        }
        if y == x {
            assert(rt.contains(y));
            let v = choose|v: int| 0 <= v < rt.len() && rt[v] == y;
            assert(r[v + 1] == y);
        }
    }
}

/// Sorting keeps exactly the elements.
pub proof fn lemma_sort_by_contains<T>(s: Seq<T>, lt: spec_fn(T, T) -> bool, y: T)
    ensures
        sort_by(s, lt).contains(y) == s.contains(y),
    decreases s.len(),
{
    if s.len() > 0 {
        let d = s.drop_last();
        lemma_sort_by_contains(d, lt, y);
        lemma_insert_sorted_contains(sort_by(d, lt), s.last(), lt, y);
        if s.contains(y) {
            let w = choose|w: int| 0 <= w < s.len() && s[w] == y;
            if w < d.len() {
                assert(d[w] == y);
            }
        }
        if d.contains(y) {
            let w = choose|w: int| 0 <= w < d.len() && d[w] == y;
            assert(s[w] == y);
        }
        if y == s.last() {
            assert(s[s.len() - 1] == y);
        }
    }
}

/// `lt` orders its type strictly and totally: nothing before itself, transitively, and
/// any two different values one way or the other.
pub open spec fn strict_order<T>(lt: spec_fn(T, T) -> bool) -> bool {
    irreflexive(lt) && transitive(lt) && connected(lt)
}

/// No element of `s` sorts strictly before one that comes earlier.
pub open spec fn nondecreasing<T>(s: Seq<T>, lt: spec_fn(T, T) -> bool) -> bool {
    forall|i: int, j: int| #![trigger s[i], s[j]] 0 <= i < j < s.len() ==> !lt(s[j], s[i])
}

/// Inserting in order puts `x` somewhere into `s`.
pub proof fn lemma_insert_sorted_is_insert<T>(s: Seq<T>, x: T, lt: spec_fn(T, T) -> bool) -> (p: int)
    ensures
        0 <= p <= s.len(),
        insert_sorted(s, x, lt) == s.insert(p, x),
    decreases s.len(),
{
    if s.len() == 0 {
        assert(seq![x] =~= s.insert(0, x));
        0
    } else if lt(x, s[0]) {
        assert(seq![x] + s =~= s.insert(0, x));
        0
    } else {
        let q = lemma_insert_sorted_is_insert(s.drop_first(), x, lt);
        assert(seq![s[0]] + s.drop_first().insert(q, x) =~= s.insert(q + 1, x));
        q + 1
    }
}

pub proof fn lemma_insert_sorted_nondecreasing<T>(s: Seq<T>, x: T, lt: spec_fn(T, T) -> bool)
    requires
        irreflexive(lt),
        transitive(lt),
        nondecreasing(s, lt),
    ensures
        nondecreasing(insert_sorted(s, x, lt), lt),
    decreases s.len(),
{
    let r = insert_sorted(s, x, lt);
    if s.len() == 0 {
        assert(r =~= seq![x]);
    } else if lt(x, s[0]) {
        assert(r == seq![x] + s);
        assert forall|i: int, j: int| 0 <= i < j < r.len() implies !lt(r[j], r[i]) by {
            assert(r[j] == s[j - 1]);
            if i == 0 {
                if j - 1 > 0 {
                    assert(!lt(s[j - 1], s[0]));
                }
                if lt(s[j - 1], x) {
                    assert(lt(s[j - 1], s[0]));
                    assert(lt(s[0], s[0]));
                }
            } else {
                assert(r[i] == s[i - 1]);
            }
        }
    } else {
        let t = s.drop_first();
        assert forall|i: int, j: int| 0 <= i < j < t.len() implies !lt(t[j], t[i]) by {
            assert(t[i] == s[i + 1] && t[j] == s[j + 1]);
        }
        lemma_insert_sorted_nondecreasing(t, x, lt);
        let rt = insert_sorted(t, x, lt);
        assert(r == seq![s[0]] + rt);
        assert forall|i: int, j: int| 0 <= i < j < r.len() implies !lt(r[j], r[i]) by {
            assert(r[j] == rt[j - 1]);
            if i == 0 {
                let y = rt[j - 1];
                assert(rt.contains(y));
                lemma_insert_sorted_contains(t, x, lt, y);
                if y != x {
                    let k = choose|k: int| 0 <= k < t.len() && t[k] == y;
                    assert(s[k + 1] == y);
                }
            } else {
                assert(r[i] == rt[i - 1]);
            }
        }
    }
}

/// Sorting keeps every element as often as it came, and leaves them in order.
pub proof fn lemma_sort_by_sorted<T>(s: Seq<T>, lt: spec_fn(T, T) -> bool)
    requires
        irreflexive(lt),
        transitive(lt),
    ensures
        sort_by(s, lt).to_multiset() == s.to_multiset(),
        nondecreasing(sort_by(s, lt), lt),
    decreases s.len(),
{
    broadcast use group_to_multiset_ensures;

    if s.len() > 0 {
        let d = s.drop_last();
        lemma_sort_by_sorted(d, lt);
        let p = lemma_insert_sorted_is_insert(sort_by(d, lt), s.last(), lt);
        lemma_insert_sorted_nondecreasing(sort_by(d, lt), s.last(), lt);
        assert(s == d.push(s.last()));
    }
}

/// Two ordered sequences with the same elements, as often each, are the same.
pub proof fn lemma_nondecreasing_unique<T>(a: Seq<T>, b: Seq<T>, lt: spec_fn(T, T) -> bool)
    requires
        strict_order(lt),
        nondecreasing(a, lt),
        nondecreasing(b, lt),
        a.to_multiset() == b.to_multiset(),
    ensures
        a == b,
    decreases a.len(),
{
    broadcast use group_to_multiset_ensures;
    broadcast use vstd::multiset::group_multiset_axioms;

    assert(a.to_multiset().len() == a.len() && b.to_multiset().len() == b.len());
    if a.len() == 0 {
        assert(a =~= b);
    } else {
        assert(a.contains(a[0]));
        assert(b.to_multiset().count(a[0]) > 0);
        let k = choose|k: int| 0 <= k < b.len() && b[k] == a[0];
        assert(b.contains(b[0]));
        assert(a.to_multiset().count(b[0]) > 0);
        let m = choose|m: int| 0 <= m < a.len() && a[m] == b[0];
        if k > 0 {
            assert(!lt(b[k], b[0]));
        }
        if m > 0 {
            assert(!lt(a[m], a[0]));
        }
        assert(a[0] == b[0]);
        let a1 = a.drop_first();
        let b1 = b.drop_first();
        assert(a1 == a.remove(0));
        assert(b1 == b.remove(0));
        assert forall|i: int, j: int| 0 <= i < j < a1.len() implies !lt(a1[j], a1[i]) by {
            assert(a1[i] == a[i + 1] && a1[j] == a[j + 1]);
        }
        assert forall|i: int, j: int| 0 <= i < j < b1.len() implies !lt(b1[j], b1[i]) by {
            assert(b1[i] == b[i + 1] && b1[j] == b[j + 1]);
        }
        lemma_nondecreasing_unique(a1, b1, lt);
        assert(a =~= seq![a[0]] + a1);
        assert(b =~= seq![b[0]] + b1);
    }
}

/// Sorting forgets the order it was given: the same elements, as often each, sort alike.
pub proof fn lemma_sort_by_permutation<T>(a: Seq<T>, b: Seq<T>, lt: spec_fn(T, T) -> bool)
    requires
        strict_order(lt),
        a.to_multiset() == b.to_multiset(),
    ensures
        sort_by(a, lt) == sort_by(b, lt),
{
    lemma_sort_by_sorted(a, lt);
    lemma_sort_by_sorted(b, lt);
    lemma_nondecreasing_unique(sort_by(a, lt), sort_by(b, lt), lt);
}

/// Mapping the elements of two sequences that hold the same elements gives sequences that
/// hold the same elements.
pub proof fn lemma_map_values_to_multiset<A, B>(a: Seq<A>, b: Seq<A>, f: spec_fn(A) -> B)
    requires
        a.to_multiset() == b.to_multiset(),
    ensures
        a.map_values(f).to_multiset() == b.map_values(f).to_multiset(),
    decreases a.len(),
{
    broadcast use group_to_multiset_ensures;
    broadcast use vstd::multiset::group_multiset_axioms;

    assert(a.to_multiset().len() == a.len() && b.to_multiset().len() == b.len());
    if a.len() == 0 {
        assert(a.map_values(f) =~= b.map_values(f));
    } else {
        let x = a.last();
        let d = a.drop_last();
        assert(a == d.push(x));
        assert(a.contains(x)) by {
            assert(a[a.len() - 1] == x);
        }
        assert(b.to_multiset().count(x) > 0);
        let i = choose|i: int| 0 <= i < b.len() && b[i] == x;
        let c = b.remove(i);
        assert(c.to_multiset() =~= d.to_multiset());
        lemma_map_values_to_multiset(d, c, f);
        assert(a.map_values(f) =~= d.map_values(f).push(f(x)));
        assert(b.map_values(f) =~= c.map_values(f).insert(i, f(x)));
    }
}

pub proof fn lemma_str_order_strict()
    ensures
        strict_order(str_order()),
{
    let lt = str_order();
    assert forall|a: Seq<char>| #[trigger] lt(a, a) == false by {
        lemma_seq_lt_irreflexive(a);
    }
    assert forall|a: Seq<char>, b: Seq<char>, c: Seq<char>| #[trigger] lt(a, b) && #[trigger] lt(b, c)
        implies lt(a, c) by {
        lemma_seq_lt_transitive(a, b, c);
    }
    assert forall|a: Seq<char>, b: Seq<char>| a != b implies #[trigger] lt(a, b) || #[trigger] lt(b, a) by {
        lemma_seq_lt_total(a, b);
    }
}

pub proof fn lemma_list_lt_irreflexive(a: Seq<Seq<char>>)
    ensures
        !list_lt(a, a),
    decreases a.len(),
{
    if a.len() > 0 {
        lemma_seq_lt_irreflexive(a[0]);
        lemma_list_lt_irreflexive(a.drop_first());
    }
}

pub proof fn lemma_list_lt_total(a: Seq<Seq<char>>, b: Seq<Seq<char>>)
    ensures
        a != b ==> (list_lt(a, b) || list_lt(b, a)),
    decreases a.len(),
{
    if a.len() > 0 && b.len() > 0 {
        lemma_seq_lt_total(a[0], b[0]);
        lemma_list_lt_total(a.drop_first(), b.drop_first());
        if a[0] == b[0] && a.drop_first() == b.drop_first() {
            assert(a =~= seq![a[0]] + a.drop_first());
            assert(b =~= seq![b[0]] + b.drop_first());
        }
    } else if a.len() == 0 && b.len() == 0 {
        assert(a =~= b);
    }
}

pub proof fn lemma_list_lt_transitive(a: Seq<Seq<char>>, b: Seq<Seq<char>>, c: Seq<Seq<char>>)
    requires
        list_lt(a, b),
        list_lt(b, c),
    ensures
        list_lt(a, c),
    decreases a.len(),
{
    if a.len() > 0 && b.len() > 0 && c.len() > 0 {
        lemma_seq_lt_total(a[0], b[0]);
        lemma_seq_lt_total(b[0], c[0]);
        lemma_seq_lt_total(a[0], c[0]);
        if seq_lt(a[0], b[0]) && seq_lt(b[0], c[0]) {
            lemma_seq_lt_transitive(a[0], b[0], c[0]);
        }
        if a[0] == b[0] && b[0] == c[0] {
            lemma_list_lt_transitive(a.drop_first(), b.drop_first(), c.drop_first());
        }
    }
}

pub proof fn lemma_list_order_strict()
    ensures
        strict_order(list_order()),
{
    let lt = list_order();
    assert forall|a: Seq<Seq<char>>| #[trigger] lt(a, a) == false by {
        lemma_list_lt_irreflexive(a);
    }
    assert forall|a: Seq<Seq<char>>, b: Seq<Seq<char>>, c: Seq<Seq<char>>|
        #[trigger] lt(a, b) && #[trigger] lt(b, c) implies lt(a, c) by {
        lemma_list_lt_transitive(a, b, c);
    }
    assert forall|a: Seq<Seq<char>>, b: Seq<Seq<char>>| a != b implies #[trigger] lt(a, b) || #[trigger] lt(
        b,
        a,
    ) by {
        lemma_list_lt_total(a, b);
    }
}

} // verus!
