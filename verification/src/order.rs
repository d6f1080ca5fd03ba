//! The order of strings (lexicographic by character, which for UTF-8 text is
//! also the order of their bytes, as `String`'s `Ord` compares them) and a
//! verified sort.
use vstd::prelude::*;
use vstd::relations::{sorted_by, total_ordering};
use crate::text::views;

verus! {

/// `a` comes before `b` or equals it, character by character.
pub open spec fn lex_le(a: Seq<char>, b: Seq<char>) -> bool
    decreases a.len(),
{
    if a.len() == 0 {
        true
    } else if b.len() == 0 {
        false
    } else if a[0] != b[0] {
        a[0] < b[0]
    } else {
        lex_le(a.drop_first(), b.drop_first())
    }
}

/// The order as a relation.
pub open spec fn lex_leq() -> spec_fn(Seq<char>, Seq<char>) -> bool {
    |a: Seq<char>, b: Seq<char>| lex_le(a, b)
}

proof fn lemma_lex_refl(a: Seq<char>)
    ensures
        lex_le(a, a),
    decreases a.len(),
{
    if a.len() > 0 {
        lemma_lex_refl(a.drop_first());
    }
}

proof fn lemma_lex_antisym(a: Seq<char>, b: Seq<char>)
    requires
        lex_le(a, b),
        lex_le(b, a),
    ensures
        a == b,
    decreases a.len(),
{
    if a.len() == 0 {
        assert(b.len() == 0);
        assert(a =~= b);
    } else {
        assert(b.len() > 0);
        assert(a[0] == b[0]);
        lemma_lex_antisym(a.drop_first(), b.drop_first());
        assert(a =~= seq![a[0]] + a.drop_first());
        assert(b =~= seq![b[0]] + b.drop_first());
    }
}

proof fn lemma_lex_trans(a: Seq<char>, b: Seq<char>, c: Seq<char>)
    requires
        lex_le(a, b),
        lex_le(b, c),
    ensures
        lex_le(a, c),
    decreases a.len(),
{
    if a.len() > 0 && b.len() > 0 && c.len() > 0 {
        if a[0] == b[0] && b[0] == c[0] {
            lemma_lex_trans(a.drop_first(), b.drop_first(), c.drop_first());
        }
    }
}

proof fn lemma_lex_total(a: Seq<char>, b: Seq<char>)
    ensures
        lex_le(a, b) || lex_le(b, a),
    decreases a.len(),
{
    if a.len() > 0 && b.len() > 0 && a[0] == b[0] {
        lemma_lex_total(a.drop_first(), b.drop_first());
    }
}

/// The order of strings is a total order.
pub proof fn lemma_lex_total_ordering()
    ensures
        total_ordering(lex_leq()),
{
    let r = lex_leq();
    assert forall|a: Seq<char>| #[trigger] r(a, a) by {
        lemma_lex_refl(a);
    }
    assert forall|a: Seq<char>, b: Seq<char>| #[trigger] r(a, b) && #[trigger] r(b, a) implies a == b by {
        lemma_lex_antisym(a, b);
    }
    assert forall|a: Seq<char>, b: Seq<char>, c: Seq<char>| #[trigger] r(a, b) && #[trigger] r(b, c) implies r(a, c) by {
        lemma_lex_trans(a, b, c);
    }
    assert forall|a: Seq<char>, b: Seq<char>| #[trigger] r(a, b) || #[trigger] r(b, a) by {
        lemma_lex_total(a, b);
    }
}

/// Whether `a` comes before `b` or equals it.
pub fn lex_le_exec(a: &str, b: &str) -> (r: bool)
    ensures
        r == lex_le(a@, b@),
{
    let av = crate::text::chars_of(a);
    let bv = crate::text::chars_of(b);
    let mut i: usize = 0;
    assert(a@.subrange(0, a@.len() as int) =~= a@);
    assert(b@.subrange(0, b@.len() as int) =~= b@);
    while i < av.len() && i < bv.len()
        invariant
            i <= av.len(),
            i <= bv.len(),
            av@ == a@,
            bv@ == b@,
            lex_le(a@, b@) == lex_le(a@.subrange(i as int, a@.len() as int), b@.subrange(i as int, b@.len() as int)),
        decreases av.len() - i,
    {
        let ghost sa = a@.subrange(i as int, a@.len() as int);
        let ghost sb = b@.subrange(i as int, b@.len() as int);
        assert(sa[0] == av@[i as int]);
        assert(sb[0] == bv@[i as int]);
        if av[i] != bv[i] {
            return av[i] < bv[i];
        }
        assert(sa.drop_first() =~= a@.subrange(i + 1, a@.len() as int));
        assert(sb.drop_first() =~= b@.subrange(i + 1, b@.len() as int));
        i = i + 1;
    }
    i == av.len()
}

/// The multiset of a sequence with one more element inserted.
proof fn lemma_insert_multiset(s: Seq<Seq<char>>, p: int, x: Seq<char>)
    requires
        0 <= p <= s.len(),
    ensures
        s.insert(p, x).to_multiset() == s.to_multiset().insert(x),
{
    broadcast use vstd::seq_lib::group_to_multiset_ensures;
    let a = s.subrange(0, p);
    let b = s.subrange(p, s.len() as int);
    assert(s =~= a + b);
    assert(s.insert(p, x) =~= a.push(x) + b);
    vstd::seq_lib::lemma_multiset_commutative(a.push(x), b);
    vstd::seq_lib::lemma_multiset_commutative(a, b);
    assert(a.push(x).to_multiset() =~= a.to_multiset().insert(x));
    assert(s.insert(p, x).to_multiset() =~= s.to_multiset().insert(x));
}

/// The strings of `v` in order.
pub fn sort_strings(v: &Vec<String>) -> (r: Vec<String>)
    ensures
        views(r@) == views(v@).sort_by(lex_leq()),
        sorted_by(views(r@), lex_leq()),
        views(r@).to_multiset() == views(v@).to_multiset(),
{
    broadcast use vstd::seq_lib::group_to_multiset_ensures;
    proof {
        lemma_lex_total_ordering();
    }
    let mut r: Vec<String> = Vec::new();
    let mut i: usize = 0;
    assert(views(v@).take(0) =~= Seq::<Seq<char>>::empty());
    assert(views(r@) =~= Seq::<Seq<char>>::empty());
    while i < v.len()
        invariant
            i <= v.len(),
            total_ordering(lex_leq()),
            sorted_by(views(r@), lex_leq()),
            views(r@).to_multiset() == views(v@).take(i as int).to_multiset(),
        decreases v.len() - i,
    {
        let x = &v[i];
        let mut p: usize = 0;
        while p < r.len() && lex_le_exec(r[p].as_str(), x.as_str())
            invariant
                p <= r.len(),
                forall|j: int| 0 <= j < p ==> lex_le((#[trigger] r@[j])@, x@),
            decreases r.len() - p,
        {
            p = p + 1;
        }
        let ghost before = views(r@);
        r.insert(p, x.clone());
        proof {
            let now = views(r@);
            assert(now =~= before.insert(p as int, x@));
            assert(x@ == views(v@)[i as int]);
            lemma_insert_multiset(before, p as int, x@);
            assert(views(v@).take(i + 1) =~= views(v@).take(i as int).push(x@));
            vstd::seq_lib::to_multiset_build(views(v@).take(i as int), x@);
            let lq = lex_leq();
            assert forall|a: int, b: int| 0 <= a < b < now.len() implies #[trigger] lq(now[a], now[b]) by {
                if b < p {
                    assert(now[a] == before[a] && now[b] == before[b]);
                    assert(lq(before[a], before[b]));
                } else if b == p {
                    assert(now[a] == before[a] && now[b] == x@);
                    assert(lex_le(before[a], x@));
                } else if a < p {
                    assert(now[a] == before[a] && now[b] == before[b - 1]);
                    assert(lq(before[a], before[b - 1]));
                } else if a == p {
                    assert(now[a] == x@ && now[b] == before[b - 1]);
                    assert(!lex_le(before[p as int], x@));
                    lemma_lex_total(before[p as int], x@);
                    if b - 1 > p {
                        assert(lq(before[p as int], before[b - 1]));
                        lemma_lex_trans(x@, before[p as int], before[b - 1]);
                    }
                } else {
                    assert(now[a] == before[a - 1] && now[b] == before[b - 1]);
                    assert(lq(before[a - 1], before[b - 1]));
                }
            }
        }
        i = i + 1;
    }
    proof {
        assert(views(v@).take(v.len() as int) =~= views(v@));
        views(v@).lemma_sort_by_ensures(lex_leq());
        vstd::seq_lib::lemma_sorted_unique(views(r@), views(v@).sort_by(lex_leq()), lex_leq());
    }
    r
}

/// Law: sorting depends only on which strings there are and how often, not
/// on their order.
pub proof fn lemma_sort_order_independent(a: Seq<Seq<char>>, b: Seq<Seq<char>>)
    requires
        a.to_multiset() == b.to_multiset(),
    ensures
        a.sort_by(lex_leq()) == b.sort_by(lex_leq()),
{
    lemma_lex_total_ordering();
    a.lemma_sort_by_ensures(lex_leq());
    b.lemma_sort_by_ensures(lex_leq());
    vstd::seq_lib::lemma_sorted_unique(a.sort_by(lex_leq()), b.sort_by(lex_leq()), lex_leq());
}

} // verus!
