//! Stable ordering of keyed items, highest key first.

use vstd::prelude::*;

verus! {

/// Where an item with key `k` goes in a list ordered highest key first:
/// after every item whose key is at least `k`.
pub open spec fn insert_pos<T>(sorted: Seq<(i32, T)>, k: i32) -> int
    decreases sorted.len(),
{
    if sorted.len() == 0 {
        0
    } else if sorted.last().0 >= k {
        sorted.len() as int
    } else {
        insert_pos(sorted.drop_last(), k)
    }
}

/// The items ordered highest key first; items with equal keys keep their
/// relative order.
pub open spec fn sorted_desc<T>(s: Seq<(i32, T)>) -> Seq<(i32, T)>
    decreases s.len(),
{
    if s.len() == 0 {
        Seq::empty()
    } else {
        let rest = sorted_desc(s.drop_last());
        rest.insert(insert_pos(rest, s.last().0), s.last())
    }
}

/// Keys never increase along the sequence.
pub open spec fn is_desc<T>(s: Seq<(i32, T)>) -> bool {
    forall|i: int, j: int| 0 <= i <= j < s.len() ==> #[trigger] s[i].0 >= #[trigger] s[j].0
}

proof fn lemma_insert_pos<T>(sorted: Seq<(i32, T)>, k: i32)
    requires
        is_desc(sorted),
    ensures
        0 <= insert_pos(sorted, k) <= sorted.len(),
        forall|i: int| 0 <= i < insert_pos(sorted, k) ==> #[trigger] sorted[i].0 >= k,
        forall|i: int| insert_pos(sorted, k) <= i < sorted.len() ==> #[trigger] sorted[i].0 < k,
    decreases sorted.len(),
{
    if sorted.len() > 0 {
        let d = sorted.drop_last();
        assert(is_desc(d)) by {
            assert forall|i: int, j: int| 0 <= i <= j < d.len() implies #[trigger] d[i].0 >= #[trigger] d[j].0 by {
                assert(d[i] == sorted[i]);
                assert(d[j] == sorted[j]);
            }
        }
        lemma_insert_pos(d, k);
        if sorted.last().0 < k {
            assert forall|i: int| insert_pos(sorted, k) <= i < sorted.len() implies #[trigger] sorted[i].0 < k by {
                if i < sorted.len() - 1 {
                    assert(sorted[i] == d[i]);
                }
            }
            assert forall|i: int| 0 <= i < insert_pos(sorted, k) implies #[trigger] sorted[i].0 >= k by {
                assert(sorted[i] == d[i]);
            }
        } else {
            assert forall|i: int| 0 <= i < insert_pos(sorted, k) implies #[trigger] sorted[i].0 >= k by {
                assert(sorted[i].0 >= sorted[sorted.len() - 1].0);
            }
        }
    }
}

/// The ordered sequence has keys that never increase and the same length.
pub proof fn lemma_sorted_desc<T>(s: Seq<(i32, T)>)
    ensures
        is_desc(sorted_desc(s)),
        sorted_desc(s).len() == s.len(),
    decreases s.len(),
{
    if s.len() > 0 {
        let rest = sorted_desc(s.drop_last());
        lemma_sorted_desc(s.drop_last());
        let k = s.last().0;
        lemma_insert_pos(rest, k);
        let p = insert_pos(rest, k);
        let r = rest.insert(p, s.last());
        assert forall|i: int, j: int| 0 <= i <= j < r.len() implies #[trigger] r[i].0 >= #[trigger] r[j].0 by {
            if i < p {
                assert(r[i] == rest[i]);
            } else if i == p {
                assert(r[i] == s.last());
            } else {
                assert(r[i] == rest[i - 1]);
            }
            if j < p {
                assert(r[j] == rest[j]);
            } else if j == p {
                assert(r[j] == s.last());
            } else {
                assert(r[j] == rest[j - 1]);
            }
        }
    }
}

/// Orders keyed items highest key first, keeping the order of equal keys.
pub fn sort_by_key_desc<T>(items: Vec<(i32, T)>) -> (r: Vec<(i32, T)>)
    ensures
        r@ == sorted_desc(items@),
        is_desc(r@),
{
    let ghost orig = items@;
    let mut input = items;
    let mut out: Vec<(i32, T)> = Vec::new();
    let mut i: usize = 0;
    let n = input.len();
    while input.len() > 0
        invariant
            n == orig.len(),
            i + input@.len() == n,
            input@ == orig.subrange(i as int, n as int),
            out@ == sorted_desc(orig.take(i as int)),
            is_desc(out@),
        decreases input@.len(),
    {
        let x = input.remove(0);
        let k = x.0;
        proof {
            lemma_insert_pos(out@, k);
        }
        let mut p: usize = 0;
        while p < out.len() && out[p].0 >= k
            invariant
                p <= out@.len(),
                forall|j: int| 0 <= j < p ==> #[trigger] out@[j].0 >= k,
                is_desc(out@),
            decreases out@.len() - p,
        {
            p = p + 1;
        }
        proof {
            lemma_insert_pos(out@, k);
            assert(p == insert_pos(out@, k)) by {
                if p < insert_pos(out@, k) {
                    assert(out@[p as int].0 >= k);
                }
                if p > insert_pos(out@, k) {
                    let q = insert_pos(out@, k);
                    assert(out@[q].0 >= k);
                }
            }
            let t = orig.take(i + 1);
            assert(t.drop_last() =~= orig.take(i as int));
            assert(t.last() == x);
        }
        out.insert(p, x);
        i = i + 1;
        proof {
            lemma_sorted_desc(orig.take(i as int));
            assert(input@ =~= orig.subrange(i as int, n as int));
        }
    }
    proof {
        assert(orig.take(n as int) =~= orig);
        lemma_sorted_desc(orig);
    }
    out
}


/// Lexicographic order of texts by code point (the order of their UTF-8
/// bytes).
pub open spec fn text_lt(a: Seq<char>, b: Seq<char>) -> bool
    decreases a.len(),
{
    if a.len() == 0 {
        b.len() > 0
    } else if b.len() == 0 {
        false
    } else if a[0] != b[0] {
        (a[0] as u32) < (b[0] as u32)
    } else {
        text_lt(a.drop_first(), b.drop_first())
    }
}

/// Compares two texts.
pub fn text_less(a: &[char], b: &[char]) -> (r: bool)
    ensures
        r == text_lt(a@, b@),
{
    let mut i: usize = 0;
    assert(a@.skip(0) =~= a@);
    assert(b@.skip(0) =~= b@);
    while i < a.len() && i < b.len() && a[i] == b[i]
        invariant
            i <= a@.len(),
            i <= b@.len(),
            text_lt(a@, b@) == text_lt(a@.skip(i as int), b@.skip(i as int)),
        decreases a@.len() - i,
    {
        assert(a@.skip(i as int).drop_first() =~= a@.skip(i + 1));
        assert(b@.skip(i as int).drop_first() =~= b@.skip(i + 1));
        i = i + 1;
    }
    if i == a.len() {
        i < b.len()
    } else if i == b.len() {
        false
    } else {
        assert(a@.skip(i as int)[0] == a@[i as int]);
        assert(b@.skip(i as int)[0] == b@[i as int]);
        (a[i] as u32) < (b[i] as u32)
    }
}

/// Where an item with text key `k` goes in a list ordered by key: after
/// every item whose key is not greater.
pub open spec fn text_insert_pos<T>(sorted: Seq<(Seq<char>, T)>, k: Seq<char>) -> int
    decreases sorted.len(),
{
    if sorted.len() == 0 {
        0
    } else if !text_lt(k, sorted.last().0) {
        sorted.len() as int
    } else {
        text_insert_pos(sorted.drop_last(), k)
    }
}

/// Items ordered by text key, equal keys keeping their relative order.
pub open spec fn sorted_by_text<T>(s: Seq<(Seq<char>, T)>) -> Seq<(Seq<char>, T)>
    decreases s.len(),
{
    if s.len() == 0 {
        Seq::empty()
    } else {
        let rest = sorted_by_text(s.drop_last());
        rest.insert(text_insert_pos(rest, s.last().0), s.last())
    }
}

/// The keyed view of text-keyed items.
pub open spec fn keyed_view<T>(s: Seq<(Vec<char>, T)>) -> Seq<(Seq<char>, T)> {
    s.map_values(|p: (Vec<char>, T)| (p.0@, p.1))
}

/// Orders items by text key, keeping the order of equal keys.
pub fn sort_by_text_key<T>(items: Vec<(Vec<char>, T)>) -> (r: Vec<(Vec<char>, T)>)
    ensures
        keyed_view(r@) == sorted_by_text(keyed_view(items@)),
{
    let ghost orig = keyed_view(items@);
    let mut input = items;
    let mut out: Vec<(Vec<char>, T)> = Vec::new();
    let mut i: usize = 0;
    let n = input.len();
    while input.len() > 0
        invariant
            n == orig.len(),
            i + input@.len() == n,
            keyed_view(input@) == orig.subrange(i as int, n as int),
            keyed_view(out@) == sorted_by_text(orig.take(i as int)),
        decreases input@.len(),
    {
        let ghost in_before = input@;
        let x = input.remove(0);
        proof {
            assert(keyed_view(in_before)[0] == (x.0@, x.1));
            assert(keyed_view(input@) =~= keyed_view(in_before).drop_first());
        }
        let mut p: usize = out.len();
        assert(keyed_view(out@).take(out@.len() as int) =~= keyed_view(out@));
        while p > 0 && text_less(x.0.as_slice(), out[p - 1].0.as_slice())
            invariant
                p <= out@.len(),
                text_insert_pos(keyed_view(out@), x.0@) == text_insert_pos(keyed_view(out@).take(p as int), x.0@),
            decreases p,
        {
            proof {
                let t = keyed_view(out@).take(p as int);
                assert(t.drop_last() =~= keyed_view(out@).take(p - 1));
                assert(t.last() == keyed_view(out@)[p - 1]);
            }
            p = p - 1;
        }
        proof {
            let t = keyed_view(out@).take(p as int);
            if p > 0 {
                assert(t.last() == keyed_view(out@)[p - 1]);
            }
            assert(text_insert_pos(t, x.0@) == p);
            assert(keyed_view(out@).take(out@.len() as int) =~= keyed_view(out@));
            let o = orig.take(i + 1);
            assert(o.drop_last() =~= orig.take(i as int));
            assert(o.last() == (x.0@, x.1));
        }
        let ghost out_before = out@;
        out.insert(p, x);
        proof {
            assert(keyed_view(out@) =~= keyed_view(out_before).insert(p as int, (x.0@, x.1)));
            assert(keyed_view(input@) =~= orig.subrange(i + 1, n as int));
        }
        i = i + 1;
    }
    proof {
        assert(orig.take(n as int) =~= orig);
    }
    out
}


/// `a` and `b` agree before position `p`, where `a` has the smaller code
/// point.
pub open spec fn first_difference_below(a: Seq<char>, b: Seq<char>, p: int) -> bool {
    &&& 0 <= p < a.len()
    &&& p < b.len()
    &&& forall|q: int| 0 <= q < p ==> a[q] == b[q]
    &&& (a[p] as u32) < (b[p] as u32)
}

/// `a` starts `b`.
pub open spec fn starts(a: Seq<char>, b: Seq<char>) -> bool {
    a.len() <= b.len() && forall|q: int| 0 <= q < a.len() ==> a[q] == b[q]
}

/// Code-point lexicographic order, at most: `a` starts `b`, or where they
/// first differ `a` has the smaller code point.
pub open spec fn code_point_le(a: Seq<char>, b: Seq<char>) -> bool {
    starts(a, b) || exists|p: int| #[trigger] first_difference_below(a, b, p)
}

/// A text that is not greater comes no later in code-point order.
pub proof fn lemma_not_lt_is_code_point_le(a: Seq<char>, b: Seq<char>)
    requires
        !text_lt(b, a),
    ensures
        code_point_le(a, b),
    decreases a.len(),
{
    if a.len() == 0 {
    } else if b.len() == 0 {
    } else if a[0] != b[0] {
        vstd::utf8::char_u32_cast(a[0], a[0] as u32);
        vstd::utf8::char_u32_cast(b[0], b[0] as u32);
        assert((a[0] as u32) != (b[0] as u32));
        assert(first_difference_below(a, b, 0));
    } else {
        let a2 = a.drop_first();
        let b2 = b.drop_first();
        lemma_not_lt_is_code_point_le(a2, b2);
        if starts(a2, b2) {
            assert forall|q: int| 0 <= q < a.len() implies a[q] == b[q] by {
                if q > 0 {
                    assert(a[q] == a2[q - 1]);
                    assert(b[q] == b2[q - 1]);
                }
            }
            assert(starts(a, b));
        } else {
            let p2 = choose|p: int| #[trigger] first_difference_below(a2, b2, p);
            assert forall|q: int| 0 <= q < p2 + 1 implies a[q] == b[q] by {
                if q > 0 {
                    assert(a[q] == a2[q - 1]);
                    assert(b[q] == b2[q - 1]);
                }
            }
            assert(a[p2 + 1] == a2[p2] && b[p2 + 1] == b2[p2]);
            assert(first_difference_below(a, b, p2 + 1));
        }
    }
}

proof fn lemma_lt_asym(a: Seq<char>, b: Seq<char>)
    ensures
        !(text_lt(a, b) && text_lt(b, a)),
    decreases a.len(),
{
    if a.len() > 0 && b.len() > 0 && a[0] == b[0] {
        lemma_lt_asym(a.drop_first(), b.drop_first());
    }
}

proof fn lemma_lt_trans(a: Seq<char>, b: Seq<char>, c: Seq<char>)
    requires
        text_lt(a, b),
        text_lt(b, c),
    ensures
        text_lt(a, c),
    decreases a.len(),
{
    if a.len() > 0 && b.len() > 0 && c.len() > 0 && a[0] == b[0] && b[0] == c[0] {
        lemma_lt_trans(a.drop_first(), b.drop_first(), c.drop_first());
    } else if a.len() > 0 && b.len() > 0 && c.len() > 0 {
        if a[0] != b[0] && b[0] != c[0] {
            assert((a[0] as u32) < (c[0] as u32));
        }
    }
}

proof fn lemma_lt_total(a: Seq<char>, b: Seq<char>)
    ensures
        a == b || text_lt(a, b) || text_lt(b, a),
    decreases a.len(),
{
    if a.len() == 0 {
        if b.len() == 0 {
            assert(a =~= b);
        }
    } else if b.len() == 0 {
    } else if a[0] != b[0] {
        vstd::utf8::char_u32_cast(a[0], a[0] as u32);
        vstd::utf8::char_u32_cast(b[0], b[0] as u32);
        assert((a[0] as u32) != (b[0] as u32));
    } else {
        let a2 = a.drop_first();
        let b2 = b.drop_first();
        lemma_lt_total(a2, b2);
        if a2 == b2 {
            assert(a2.len() == b2.len());
            assert forall|q: int| 0 <= q < a.len() implies a[q] == b[q] by {
                if q > 0 {
                    assert(a[q] == a2[q - 1]);
                    assert(b[q] == b2[q - 1]);
                }
            }
            assert(a =~= b);
        }
    }
}

/// No later key is smaller than an earlier one.
pub open spec fn text_sorted<T>(s: Seq<(Seq<char>, T)>) -> bool {
    forall|i: int, j: int| 0 <= i < j < s.len() ==> !text_lt(#[trigger] s[j].0, #[trigger] s[i].0)
}

proof fn lemma_text_insert_pos<T>(s: Seq<(Seq<char>, T)>, k: Seq<char>)
    requires
        text_sorted(s),
    ensures
        0 <= text_insert_pos(s, k) <= s.len(),
        forall|i: int| 0 <= i < text_insert_pos(s, k) ==> !text_lt(k, #[trigger] s[i].0),
        forall|i: int| text_insert_pos(s, k) <= i < s.len() ==> text_lt(k, #[trigger] s[i].0),
    decreases s.len(),
{
    if s.len() > 0 {
        let d = s.drop_last();
        assert forall|i: int, j: int| 0 <= i < j < d.len() implies !text_lt(#[trigger] d[j].0, #[trigger] d[i].0) by {
            assert(d[i] == s[i] && d[j] == s[j]);
        }
        lemma_text_insert_pos(d, k);
        let last = s.last().0;
        if !text_lt(k, last) {
            assert forall|i: int| 0 <= i < text_insert_pos(s, k) implies !text_lt(k, #[trigger] s[i].0) by {
                if i < s.len() - 1 {
                    assert(!text_lt(s[s.len() - 1].0, s[i].0));
                    lemma_lt_total(k, last);
                    if text_lt(k, s[i].0) {
                        if text_lt(last, k) {
                            lemma_lt_trans(last, k, s[i].0);
                        }
                    }
                }
            }
        } else {
            assert forall|i: int| 0 <= i < text_insert_pos(s, k) implies !text_lt(k, #[trigger] s[i].0) by {
                assert(s[i] == d[i]);
            }
            assert forall|i: int| text_insert_pos(s, k) <= i < s.len() implies text_lt(k, #[trigger] s[i].0) by {
                if i < s.len() - 1 {
                    assert(s[i] == d[i]);
                }
            }
        }
    }
}

/// Ordering keeps the items' count and takes each from the input; its keys
/// never decrease.
pub proof fn lemma_sorted_by_text<T>(s: Seq<(Seq<char>, T)>)
    ensures
        sorted_by_text(s).len() == s.len(),
        text_sorted(sorted_by_text(s)),
        forall|i: int| 0 <= i < s.len() ==> s.contains(#[trigger] sorted_by_text(s)[i]),
    decreases s.len(),
{
    if s.len() > 0 {
        let d = s.drop_last();
        let rest = sorted_by_text(d);
        lemma_sorted_by_text(d);
        let x = s.last();
        lemma_text_insert_pos(rest, x.0);
        let p = text_insert_pos(rest, x.0);
        let r = rest.insert(p, x);
        assert(r == sorted_by_text(s));
        assert forall|i: int, j: int| 0 <= i < j < r.len() implies !text_lt(#[trigger] r[j].0, #[trigger] r[i].0) by {
            if j < p {
                assert(r[i] == rest[i] && r[j] == rest[j]);
            } else if j == p {
                assert(r[i] == rest[i]);
            } else if i < p {
                assert(r[i] == rest[i] && r[j] == rest[j - 1]);
                lemma_lt_total(x.0, rest[i].0);
                if text_lt(rest[j - 1].0, rest[i].0) {
                    assert(text_lt(x.0, rest[j - 1].0));
                    lemma_lt_trans(x.0, rest[j - 1].0, rest[i].0);
                }
            } else if i == p {
                assert(r[j] == rest[j - 1]);
                assert(text_lt(x.0, rest[j - 1].0));
                lemma_lt_asym(x.0, rest[j - 1].0);
            } else {
                assert(r[i] == rest[i - 1] && r[j] == rest[j - 1]);
            }
        }
        assert forall|i: int| 0 <= i < s.len() implies s.contains(#[trigger] r[i]) by {
            if i < p {
                assert(r[i] == rest[i]);
                assert(d.contains(rest[i]));
                let k = choose|k: int| 0 <= k < d.len() && d[k] == rest[i];
                assert(s[k] == d[k]);
            } else if i == p {
                assert(s[s.len() - 1] == x);
            } else {
                assert(r[i] == rest[i - 1]);
                assert(d.contains(rest[i - 1]));
                let k = choose|k: int| 0 <= k < d.len() && d[k] == rest[i - 1];
                assert(s[k] == d[k]);
            }
        }
    }
}

/// Items ordered by text key come in ascending code-point order of their
/// keys: an earlier key never comes after a later one.
pub proof fn law_text_keys_ascend<T>(s: Seq<(Seq<char>, T)>)
    ensures
        forall|i: int, j: int|
            0 <= i < j < sorted_by_text(s).len() ==> code_point_le(
                #[trigger] sorted_by_text(s)[i].0,
                #[trigger] sorted_by_text(s)[j].0,
            ),
{
    lemma_sorted_by_text(s);
    assert forall|i: int, j: int| 0 <= i < j < sorted_by_text(s).len() implies code_point_le(
        #[trigger] sorted_by_text(s)[i].0,
        #[trigger] sorted_by_text(s)[j].0,
    ) by {
        lemma_not_lt_is_code_point_le(sorted_by_text(s)[i].0, sorted_by_text(s)[j].0);
    }
}

} // verus!
