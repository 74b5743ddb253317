//! Name order: how every listing comes back the same way round.
//!
//! `readdir` order is whatever the filesystem feels like, and a listing a
//! person reads twice has to come back the same way. Names are ordered as
//! `str` orders them, byte by byte; on UTF-8 that is the order of the
//! characters' scalar values, which is what is stated here.

use vstd::prelude::*;
use crate::text::chars_of;

verus! {

/// Whether `a` comes strictly before `b`, character by character, a proper
/// prefix first.
pub open spec fn text_lt(a: Seq<char>, b: Seq<char>) -> bool
    decreases a.len(),
{
    if a.len() == 0 {
        b.len() > 0
    } else if b.len() == 0 {
        false
    } else if a[0] != b[0] {
        (a[0] as u32) < (b[0] as u32)
    } else {
        text_lt(a.drop_first(), b.drop_first())
    }
}

/// Nothing comes before itself.
pub proof fn text_lt_irreflexive(a: Seq<char>)
    ensures
        !text_lt(a, a),
    decreases a.len(),
{
    if a.len() > 0 {
        text_lt_irreflexive(a.drop_first());
    }
}

/// What comes before something that comes before `c` comes before `c`.
pub proof fn text_lt_transitive(a: Seq<char>, b: Seq<char>, c: Seq<char>)
    requires
        text_lt(a, b),
        text_lt(b, c),
    ensures
        text_lt(a, c),
    decreases a.len(),
{
    if a.len() > 0 && b.len() > 0 && c.len() > 0 && a[0] == b[0] && b[0] == c[0] {
        text_lt_transitive(a.drop_first(), b.drop_first(), c.drop_first());
    }
}

/// Of two different texts, one comes first.
pub proof fn text_lt_total(a: Seq<char>, b: Seq<char>)
    requires
        a != b,
    ensures
        text_lt(a, b) || text_lt(b, a),
    decreases a.len(),
{
    if a.len() > 0 && b.len() > 0 && a[0] == b[0] {
        if a.drop_first() == b.drop_first() {
            assert(a =~= seq![a[0]] + a.drop_first());
            assert(b =~= seq![b[0]] + b.drop_first());
        }
        text_lt_total(a.drop_first(), b.drop_first());
    } else if a.len() == 0 && b.len() == 0 {
        assert(a =~= b);
    } else if a.len() > 0 && b.len() > 0 {
        let x = a[0] as u32;
        let y = b[0] as u32;
        vstd::utf8::char_u32_cast(a[0], x);
        vstd::utf8::char_u32_cast(b[0], y);
    }
}

/// Whether `a` comes strictly before `b`.
pub fn is_before(a: &str, b: &str) -> (r: bool)
    ensures
        r == text_lt(a@, b@),
{
    let x = chars_of(a);
    let y = chars_of(b);
    let mut i: usize = 0;
    assert(x@.subrange(0, x@.len() as int) =~= x@);
    assert(y@.subrange(0, y@.len() as int) =~= y@);
    while i < x.len() && i < y.len() && x[i] == y[i]
        invariant
            i <= x@.len(),
            i <= y@.len(),
            text_lt(x@, y@) == text_lt(x@.subrange(i as int, x@.len() as int), y@.subrange(i as int, y@.len() as int)),
        decreases x.len() - i,
    {
        let ghost a1 = x@.subrange(i as int, x@.len() as int);
        let ghost b1 = y@.subrange(i as int, y@.len() as int);
        assert(a1.drop_first() =~= x@.subrange(i as int + 1, x@.len() as int));
        assert(b1.drop_first() =~= y@.subrange(i as int + 1, y@.len() as int));
        i = i + 1;
    }
    if i == x.len() {
        i < y.len()
    } else if i == y.len() {
        false
    } else {
        let a1 = x[i] as u32;
        let b1 = y[i] as u32;
        assert(x@.subrange(i as int, x@.len() as int)[0] == x@[i as int]);
        assert(y@.subrange(i as int, y@.len() as int)[0] == y@[i as int]);
        a1 < b1
    }
}

/// The texts of a sequence of strings.
pub open spec fn texts(s: Seq<String>) -> Seq<Seq<char>> {
    Seq::new(s.len(), |i: int| s[i]@)
}

/// Whether the texts never go backwards.
pub open spec fn in_order(s: Seq<Seq<char>>) -> bool {
    forall|i: int, j: int| 0 <= i < j < s.len() ==> !text_lt(#[trigger] s[j], #[trigger] s[i])
}

/// `names`, in name order: the same names, each as often as given, none
/// after one that should follow it.
pub fn in_name_order(names: Vec<String>) -> (r: Vec<String>)
    ensures
        in_order(texts(r@)),
        texts(r@).to_multiset() == texts(names@).to_multiset(),
{
    let mut r: Vec<String> = Vec::new();
    let mut i: usize = 0;
    let mut rest = names;
    let ghost all = rest@;
    assert(texts(r@) =~= texts(all.subrange(0, 0)));
    while i < rest.len()
        invariant
            rest@ == all,
            i <= all.len(),
            in_order(texts(r@)),
            texts(r@).to_multiset() == texts(all.subrange(0, i as int)).to_multiset(),
        decreases all.len() - i,
    {
        let x = rest[i].clone();
        assert(x@ == all[i as int]@);
        let ghost before = texts(r@);
        let mut p: usize = 0;
        while p < r.len() && !is_before(x.as_str(), r[p].as_str())
            invariant
                p <= r@.len(),
                texts(r@) == before,
                forall|k: int| 0 <= k < p ==> !text_lt(x@, #[trigger] before[k]),
            decreases r.len() - p,
        {
            p = p + 1;
        }
        proof {
            assert forall|k: int| p <= k < before.len() implies !text_lt(#[trigger] before[k], x@) by {
                text_lt_irreflexive(before[p as int]);
                if text_lt(before[k], x@) {
                    text_lt_transitive(before[k], x@, before[p as int]);
                }
            }
        }
        r.insert(p, x);
        proof {
            let after = texts(r@);
            assert(after =~= before.insert(p as int, x@));
            assert forall|a: int, b: int| 0 <= a < b < after.len() implies !text_lt(
                #[trigger] after[b],
                #[trigger] after[a],
            ) by {
                if a < p && b < p {
                    assert(after[a] == before[a] && after[b] == before[b]);
                } else if a < p && b == p {
                    assert(after[a] == before[a]);
                } else if a < p && b > p {
                    assert(after[a] == before[a] && after[b] == before[b - 1]);
                } else if a == p {
                    assert(after[b] == before[b - 1]);
                } else {
                    assert(after[a] == before[a - 1] && after[b] == before[b - 1]);
                }
            }
            vstd::seq_lib::to_multiset_insert(before, p as int, x@);
            let upto = texts(all.subrange(0, i as int + 1));
            assert(upto =~= texts(all.subrange(0, i as int)).push(x@));
            vstd::seq_lib::to_multiset_build(texts(all.subrange(0, i as int)), x@);
        }
        i = i + 1;
    }
    assert(all.subrange(0, all.len() as int) =~= all);
    r
}

/// A listing read twice comes back the same way round: two orderings of the
/// same names are the same sequence.
pub proof fn a_listing_comes_back_the_same_way_round(s: Seq<Seq<char>>, t: Seq<Seq<char>>)
    requires
        in_order(s),
        in_order(t),
        s.to_multiset() == t.to_multiset(),
    ensures
        s == t,
    decreases s.len(),
{
    vstd::seq_lib::to_multiset_len(s);
    vstd::seq_lib::to_multiset_len(t);
    if s.len() == 0 {
        assert(s =~= t);
    } else {
        vstd::seq_lib::to_multiset_contains(s, s[0]);
        vstd::seq_lib::to_multiset_contains(t, s[0]);
        vstd::seq_lib::to_multiset_contains(t, t[0]);
        vstd::seq_lib::to_multiset_contains(s, t[0]);
        assert(s.contains(s[0]));
        assert(t.contains(t[0]));
        let j = choose|j: int| 0 <= j < t.len() && t[j] == s[0];
        let i = choose|i: int| 0 <= i < s.len() && s[i] == t[0];
        if j > 0 {
            assert(!text_lt(t[j], t[0]));
        }
        if i > 0 {
            assert(!text_lt(s[i], s[0]));
        }
        if s[0] != t[0] {
            text_lt_total(s[0], t[0]);
        }
        assert(s[0] == t[0]);
        vstd::seq_lib::to_multiset_remove(s, 0);
        vstd::seq_lib::to_multiset_remove(t, 0);
        assert(s.remove(0) =~= s.drop_first());
        assert(t.remove(0) =~= t.drop_first());
        let s1 = s.drop_first();
        let t1 = t.drop_first();
        assert forall|a: int, b: int| 0 <= a < b < s1.len() implies !text_lt(#[trigger] s1[b], #[trigger] s1[a]) by {
            assert(s1[a] == s[a + 1] && s1[b] == s[b + 1]);
        }
        assert forall|a: int, b: int| 0 <= a < b < t1.len() implies !text_lt(#[trigger] t1[b], #[trigger] t1[a]) by {
            assert(t1[a] == t[a + 1] && t1[b] == t[b + 1]);
        }
        a_listing_comes_back_the_same_way_round(s1, t1);
        assert(s =~= t) by {
            assert forall|k: int| 0 <= k < s.len() implies s[k] == t[k] by {
                if k > 0 {
                    assert(s[k] == s1[k - 1]);
                    assert(t[k] == t1[k - 1]);
                }
            }
        }
    }
}

} // verus!
