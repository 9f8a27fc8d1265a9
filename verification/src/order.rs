//! The order of strings (`Ord` on `String`: by Unicode scalar values, the
//! shorter first on a common prefix) and sorted lists without repeats.
use vstd::prelude::*;
use crate::row::vec_strings;
use crate::text::chars_of;

verus! {

/// `a` comes before `b`.
pub open spec fn text_lt(a: Seq<char>, b: Seq<char>) -> bool
    decreases a.len(),
{
    if a.len() == 0 {
        b.len() > 0
    } else if b.len() == 0 {
        false
    } else if a[0] != b[0] {
        a[0] < b[0]
    } else {
        text_lt(a.drop_first(), b.drop_first())
    }
}

pub proof fn lemma_text_lt_irreflexive(a: Seq<char>)
    ensures
        !text_lt(a, a),
    decreases a.len(),
{
    if a.len() > 0 {
        lemma_text_lt_irreflexive(a.drop_first());
    }
}

pub proof fn lemma_text_lt_transitive(a: Seq<char>, b: Seq<char>, c: Seq<char>)
    requires
        text_lt(a, b),
        text_lt(b, c),
    ensures
        text_lt(a, c),
    decreases a.len(),
{
    if a.len() > 0 && b.len() > 0 && c.len() > 0 && a[0] == b[0] && b[0] == c[0] {
        lemma_text_lt_transitive(a.drop_first(), b.drop_first(), c.drop_first());
    }
}

pub proof fn lemma_text_lt_total(a: Seq<char>, b: Seq<char>)
    ensures
        text_lt(a, b) || a == b || text_lt(b, a),
    decreases a.len(),
{
    if a.len() > 0 && b.len() > 0 && a[0] == b[0] {
        lemma_text_lt_total(a.drop_first(), b.drop_first());
        if a.drop_first() == b.drop_first() {
            assert(a =~= seq![a[0]] + a.drop_first());
            assert(b =~= seq![b[0]] + b.drop_first());
        }
    } else if a.len() == 0 && b.len() == 0 {
        assert(a =~= b);
    }
}

pub proof fn lemma_text_lt_asymmetric(a: Seq<char>, b: Seq<char>)
    requires
        text_lt(a, b),
    ensures
        !text_lt(b, a),
{
    if text_lt(b, a) {
        lemma_text_lt_transitive(a, b, a);
        lemma_text_lt_irreflexive(a);
    }
}

pub fn text_less(a: &[char], b: &[char]) -> (r: bool)
    ensures
        r == text_lt(a@, b@),
{
    let mut i: usize = 0;
    assert(a@.subrange(0, a@.len() as int) =~= a@);
    assert(b@.subrange(0, b@.len() as int) =~= b@);
    while i < a.len() && i < b.len() && a[i] == b[i]
        invariant
            i <= a.len(),
            i <= b.len(),
            text_lt(a@, b@) == text_lt(a@.subrange(i as int, a@.len() as int), b@.subrange(
                i as int,
                b@.len() as int,
            )),
        decreases a.len() - i,
    {
        assert(a@.subrange(i as int, a@.len() as int).drop_first() =~= a@.subrange(
            i + 1,
            a@.len() as int,
        ));
        assert(b@.subrange(i as int, b@.len() as int).drop_first() =~= b@.subrange(
            i + 1,
            b@.len() as int,
        ));
        i = i + 1;
    }
    if i == a.len() {
        i < b.len()
    } else if i == b.len() {
        false
    } else {
        a[i] < b[i]
    }
}

/// Each item comes before the next: sorted without repeats.
pub open spec fn strictly_sorted(s: Seq<Seq<char>>) -> bool {
    forall|i: int, j: int| 0 <= i < j < s.len() ==> text_lt(#[trigger] s[i], #[trigger] s[j])
}

/// `x` added to a sorted list without repeats, where it belongs, unless it is
/// there already.
pub fn insert_sorted(v: &mut Vec<String>, x: String)
    requires
        strictly_sorted(vec_strings(old(v)@)),
    ensures
        strictly_sorted(vec_strings(final(v)@)),
        vec_strings(final(v)@).to_set() == vec_strings(old(v)@).to_set().insert(x@),
{
    let ghost s = vec_strings(v@);
    let xc = chars_of(x.as_str());
    let mut p: usize = 0;
    while p < v.len()
        invariant
            p <= v.len(),
            s == vec_strings(v@),
            strictly_sorted(s),
            xc@ == x@,
            forall|k: int| 0 <= k < p ==> text_lt(#[trigger] s[k], x@),
        ensures
            p <= v.len(),
            s == vec_strings(v@),
            forall|k: int| 0 <= k < p ==> text_lt(#[trigger] s[k], x@),
            p < v.len() ==> !text_lt(s[p as int], x@),
        decreases v.len() - p,
    {
        let e = chars_of(v[p].as_str());
        assert(s[p as int] == e@);
        if !text_less(e.as_slice(), xc.as_slice()) {
            break;
        }
        p = p + 1;
    }
    if p < v.len() {
        let e = chars_of(v[p].as_str());
        assert(s[p as int] == e@);
        proof {
            lemma_text_lt_total(e@, x@);
        }
        if crate::text::seq_eq(e.as_slice(), xc.as_slice()) {
            assert(s.to_set().insert(x@) =~= s.to_set()) by {
                assert(s.contains(x@));
            }
            return;
        }
        assert(text_lt(x@, s[p as int]));
        assert forall|k: int| p <= k < s.len() implies text_lt(x@, #[trigger] s[k]) by {
            if k > p {
                lemma_text_lt_transitive(x@, s[p as int], s[k]);
            }
        }
    }
    v.insert(p, x);
    proof {
        let t = vec_strings(v@);
        assert(t =~= s.insert(p as int, x@));
        assert forall|i: int, j: int| 0 <= i < j < t.len() implies text_lt(
            #[trigger] t[i],
            #[trigger] t[j],
        ) by {
            if j < p {
            } else if j == p {
            } else if i < p {
                assert(text_lt(x@, s[j - 1]));
                lemma_text_lt_transitive(t[i], x@, t[j]);
            } else if i == p {
                assert(text_lt(x@, s[j - 1]));
            } else {
            }
        }
        assert(t.to_set() =~= s.to_set().insert(x@)) by {
            assert forall|y: Seq<char>| t.to_set().contains(y) implies s.to_set().insert(x@).contains(y) by {
                let k = choose|k: int| 0 <= k < t.len() && t[k] == y;
                if k < p {
                    assert(s[k] == y);
                } else if k > p {
                    assert(s[k - 1] == y);
                }
            }
            assert forall|y: Seq<char>| s.to_set().insert(x@).contains(y) implies t.to_set().contains(y) by {
                if y == x@ {
                    assert(t[p as int] == y);
                } else {
                    let k = choose|k: int| 0 <= k < s.len() && s[k] == y;
                    if k < p {
                        assert(t[k] == y);
                    } else {
                        assert(t[k + 1] == y);
                    }
                }
            }
        }
    }
}

} // verus!
