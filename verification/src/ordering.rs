//! Lexicographic order on strings (the order of `String`'s `Ord`, which
//! compares the UTF-8 bytes and therefore the code points in sequence),
//! sorting and duplicate removal.

use vstd::prelude::*;

use crate::text::chars_of;

verus! {

broadcast use vstd::seq_lib::group_to_multiset_ensures;

/// `a` comes before `b`, or equals it, in code-point lexicographic order.
pub open spec fn lex_le(a: Seq<char>, b: Seq<char>) -> bool
    decreases a.len(),
{
    if a.len() == 0 {
        true
    } else if b.len() == 0 {
        false
    } else if a[0] == b[0] {
        lex_le(a.drop_first(), b.drop_first())
    } else {
        (a[0] as u32) < (b[0] as u32)
    }
}

/// The character sequences of a sequence of strings.
pub open spec fn views(s: Seq<String>) -> Seq<Seq<char>> {
    s.map_values(|x: String| x@)
}

/// Every string is lexicographically no greater than the ones after it.
pub open spec fn sorted_strings(s: Seq<Seq<char>>) -> bool {
    forall|i: int, j: int| 0 <= i < j < s.len() ==> lex_le(#[trigger] s[i], #[trigger] s[j])
}

/// Sorted, and no string occurs twice.
pub open spec fn strictly_sorted_strings(s: Seq<Seq<char>>) -> bool {
    forall|i: int, j: int|
        0 <= i < j < s.len() ==> lex_le(#[trigger] s[i], #[trigger] s[j]) && s[i] != s[j]
}

proof fn lemma_char_u32_injective(c: char, d: char)
    requires
        (c as u32) == (d as u32),
    ensures
        c == d,
{
}

pub proof fn lemma_lex_le_total(a: Seq<char>, b: Seq<char>)
    ensures
        lex_le(a, b) || lex_le(b, a),
    decreases a.len(),
{
    if a.len() > 0 && b.len() > 0 && a[0] == b[0] {
        lemma_lex_le_total(a.drop_first(), b.drop_first());
    } else if a.len() > 0 && b.len() > 0 {
        if (a[0] as u32) == (b[0] as u32) {
            lemma_char_u32_injective(a[0], b[0]);
        }
    }
}

pub proof fn lemma_lex_le_reflexive(a: Seq<char>)
    ensures
        lex_le(a, a),
    decreases a.len(),
{
    if a.len() > 0 {
        lemma_lex_le_reflexive(a.drop_first());
    }
}

pub proof fn lemma_lex_le_transitive(a: Seq<char>, b: Seq<char>, c: Seq<char>)
    requires
        lex_le(a, b),
        lex_le(b, c),
    ensures
        lex_le(a, c),
    decreases a.len(),
{
    if a.len() > 0 && b.len() > 0 && c.len() > 0 {
        if a[0] == b[0] && b[0] == c[0] {
            lemma_lex_le_transitive(a.drop_first(), b.drop_first(), c.drop_first());
        }
    }
}

pub proof fn lemma_lex_le_antisymmetric(a: Seq<char>, b: Seq<char>)
    requires
        lex_le(a, b),
        lex_le(b, a),
    ensures
        a == b,
    decreases a.len(),
{
    if a.len() > 0 && b.len() > 0 {
        if a[0] == b[0] {
            lemma_lex_le_antisymmetric(a.drop_first(), b.drop_first());
            assert(a =~= seq![a[0]] + a.drop_first());
            assert(b =~= seq![b[0]] + b.drop_first());
        }
    } else {
        assert(a.len() == 0 && b.len() == 0);
        assert(a =~= b);
    }
}

/// Whether `a` sorts before or equal to `b`.
pub fn str_le(a: &str, b: &str) -> (r: bool)
    ensures
        r == lex_le(a@, b@),
{
    let x = chars_of(a);
    let y = chars_of(b);
    let mut i: usize = 0;
    assert(x@.skip(0) =~= x@);
    assert(y@.skip(0) =~= y@);
    while i < x.len() && i < y.len() && x[i] == y[i]
        invariant
            i <= x.len(),
            i <= y.len(),
            lex_le(a@, b@) == lex_le(x@.skip(i as int), y@.skip(i as int)),
            x@ == a@,
            y@ == b@,
        decreases x.len() - i,
    {
        assert(x@.skip(i as int).drop_first() =~= x@.skip(i + 1));
        assert(y@.skip(i as int).drop_first() =~= y@.skip(i + 1));
        i = i + 1;
    }
    if i == x.len() {
        true
    } else if i == y.len() {
        false
    } else {
        (x[i] as u32) < (y[i] as u32)
    }
}

/// The same strings, in lexicographic order.
pub fn sort_strings(v: &Vec<String>) -> (r: Vec<String>)
    ensures
        sorted_strings(views(r@)),
        views(r@).to_multiset() == views(v@).to_multiset(),
{
    let mut out: Vec<String> = Vec::new();
    let mut i: usize = 0;
    while i < v.len()
        invariant
            i <= v.len(),
            sorted_strings(views(out@)),
            views(out@).to_multiset() == views(v@.take(i as int)).to_multiset(),
        decreases v.len() - i,
    {
        let x = v[i].clone();
        let mut p: usize = 0;
        while p < out.len() && str_le(out[p].as_str(), x.as_str())
            invariant
                p <= out.len(),
                forall|k: int| 0 <= k < p ==> lex_le(#[trigger] out@[k]@, x@),
            decreases out.len() - p,
        {
            p = p + 1;
        }
        let ghost before = views(out@);
        proof {
            if p < out.len() {
                lemma_lex_le_total(out@[p as int]@, x@);
            }
        }
        out.insert(p, x);
        proof {
            assert(views(out@) =~= before.insert(p as int, x@));
            assert forall|a: int, b: int| 0 <= a < b < views(out@).len() implies lex_le(
                #[trigger] views(out@)[a],
                #[trigger] views(out@)[b],
            ) by {
                let s = views(out@);
                if a < p && b == p {
                } else if a == p && b > p {
                    assert(s[b] == before[b - 1]);
                    if b - 1 > p {
                        lemma_lex_le_transitive(x@, before[p as int], before[b - 1]);
                    }
                } else if a < p && b > p {
                    assert(s[b] == before[b - 1]);
                } else if a > p {
                    assert(s[a] == before[a - 1]);
                    assert(s[b] == before[b - 1]);
                }
            }
            assert(v@.take(i + 1) =~= v@.take(i as int).push(v@[i as int]));
            assert(views(v@.take(i + 1)) =~= views(v@.take(i as int)).push(v@[i as int]@));
        }
        i = i + 1;
    }
    assert(v@.take(v.len() as int) =~= v@);
    out
}


/// Keeps the first string of each run of equal strings (what `Vec::dedup`
/// does); on a sorted input this leaves each distinct string once.
fn dedup_sorted(v: &Vec<String>) -> (r: Vec<String>)
    requires
        sorted_strings(views(v@)),
    ensures
        strictly_sorted_strings(views(r@)),
        views(r@).to_set() == views(v@).to_set(),
{
    let ghost vs = views(v@);
    let mut out: Vec<String> = Vec::new();
    let mut i: usize = 0;
    while i < v.len()
        invariant
            i <= v.len(),
            vs == views(v@),
            sorted_strings(vs),
            strictly_sorted_strings(views(out@)),
            views(out@).to_set() == vs.take(i as int).to_set(),
            i > 0 ==> views(out@).len() > 0 && views(out@).last() == vs[i - 1],
            i == 0 ==> out@.len() == 0,
            forall|k: int|
                0 <= k < views(out@).len() ==> exists|m: int|
                    0 <= m < i && #[trigger] views(out@)[k] == #[trigger] vs[m],
        decreases v.len() - i,
    {
        let keep = out.len() == 0 || out[out.len() - 1] != v[i];
        let ghost before = views(out@);
        let ghost x = vs[i as int];
        if keep {
            out.push(v[i].clone());
            proof {
                assert(views(out@) =~= before.push(x));
                assert forall|a: int, b: int| 0 <= a < b < views(out@).len() implies lex_le(
                    #[trigger] views(out@)[a],
                    #[trigger] views(out@)[b],
                ) && views(out@)[a] != views(out@)[b] by {
                    if b == before.len() {
                        let m = choose|m: int| 0 <= m < i && #[trigger] before[a] == #[trigger] vs[m];
                        assert(lex_le(vs[m], vs[i as int]));
                        let last = before.last();
                        assert(last == vs[i - 1]);
                        assert(last != x);
                        if a < before.len() - 1 {
                            assert(lex_le(before[a], before[before.len() - 1]));
                            assert(lex_le(vs[i - 1], vs[i as int]));
                            if before[a] == x {
                                lemma_lex_le_antisymmetric(x, last);
                            }
                        }
                    } else {
                        assert(views(out@)[a] == before[a]);
                        assert(views(out@)[b] == before[b]);
                    }
                }
                assert forall|k: int| 0 <= k < views(out@).len() implies exists|m: int|
                    0 <= m < i + 1 && #[trigger] views(out@)[k] == #[trigger] vs[m] by {
                    if k == before.len() {
                        assert(views(out@)[k] == vs[i as int]);
                    } else {
                        assert(views(out@)[k] == before[k]);
                        let m = choose|m: int| 0 <= m < i && #[trigger] before[k] == #[trigger] vs[m];
                        assert(views(out@)[k] == vs[m]);
                    }
                }
                before.lemma_push_to_set_commute(x);
            }
        } else {
            proof {
                assert(before.last() == x);
                assert(before.to_set().contains(x));
                assert(before.to_set().insert(x) =~= before.to_set());
                assert forall|k: int| 0 <= k < views(out@).len() implies exists|m: int|
                    0 <= m < i + 1 && #[trigger] views(out@)[k] == #[trigger] vs[m] by {
                    let m = choose|m: int| 0 <= m < i && #[trigger] before[k] == #[trigger] vs[m];
                    assert(views(out@)[k] == vs[m]);
                }
            }
        }
        proof {
            assert(vs.take(i + 1) =~= vs.take(i as int).push(x));
            vs.take(i as int).lemma_push_to_set_commute(x);
        }
        i = i + 1;
    }
    assert(vs.take(v.len() as int) =~= vs);
    out
}

proof fn lemma_same_multiset_same_set(a: Seq<Seq<char>>, b: Seq<Seq<char>>)
    requires
        a.to_multiset() == b.to_multiset(),
    ensures
        a.to_set() == b.to_set(),
{
    assert forall|x: Seq<char>| a.to_set().contains(x) <==> b.to_set().contains(x) by {
        vstd::seq_lib::to_multiset_contains(a, x);
        vstd::seq_lib::to_multiset_contains(b, x);
    }
    assert(a.to_set() =~= b.to_set());
}

/// The distinct strings of `v`, each once, in lexicographic order.
pub fn sorted_distinct(v: &Vec<String>) -> (r: Vec<String>)
    ensures
        strictly_sorted_strings(views(r@)),
        views(r@).to_set() == views(v@).to_set(),
{
    let s = sort_strings(v);
    proof {
        lemma_same_multiset_same_set(views(s@), views(v@));
    }
    dedup_sorted(&s)
}

} // verus!
