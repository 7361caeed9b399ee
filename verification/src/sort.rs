//! Sorting strings into the order in which Rust compares them.
use vstd::prelude::*;
use vstd::multiset::Multiset;
use crate::text::{lex_le, lex_le_str, lemma_lex_le_total, lemma_lex_le_transitive};

verus! {

broadcast use vstd::seq_lib::group_to_multiset_ensures, vstd::multiset::group_multiset_axioms;

/// The strings of `s` are in ascending order.
pub open spec fn sorted(s: Seq<String>) -> bool {
    forall|i: int, j: int| 0 <= i < j < s.len() ==> lex_le(#[trigger] s[i]@, #[trigger] s[j]@)
}

/// The strings of `s` are in descending order.
spec fn sorted_desc(s: Seq<String>) -> bool {
    forall|i: int, j: int| 0 <= i < j < s.len() ==> lex_le(#[trigger] s[j]@, #[trigger] s[i]@)
}

/// Every string of `lo` is below or equal to every string of `hi`.
spec fn all_le(lo: Seq<String>, hi: Seq<String>) -> bool {
    forall|i: int, j: int|
        0 <= i < lo.len() && 0 <= j < hi.len() ==> lex_le(#[trigger] lo[i]@, #[trigger] hi[j]@)
}

proof fn lemma_pop_multiset(s: Seq<String>)
    requires
        s.len() > 0,
    ensures
        s.to_multiset() == s.subrange(0, s.len() - 1).to_multiset().insert(s.last()),
{
    assert(s =~= s.subrange(0, s.len() - 1).push(s.last()));
    vstd::seq_lib::to_multiset_build(s.subrange(0, s.len() - 1), s.last());
}

/// Merges two ascending sequences into one.
fn merge(a: Vec<String>, b: Vec<String>) -> (r: Vec<String>)
    requires
        sorted(a@),
        sorted(b@),
    ensures
        sorted(r@),
        r@.to_multiset() == a@.to_multiset().add(b@.to_multiset()),
{
    let ghost total = a@.to_multiset().add(b@.to_multiset());
    let mut a = a;
    let mut b = b;
    // First collect in descending order, taking the larger of the two last elements.
    let mut desc: Vec<String> = Vec::new();
    while a.len() > 0 || b.len() > 0
        invariant
            sorted(a@),
            sorted(b@),
            sorted_desc(desc@),
            all_le(a@, desc@),
            all_le(b@, desc@),
            desc@.to_multiset().add(a@.to_multiset()).add(b@.to_multiset()) == total,
        decreases a.len() + b.len(),
    {
        let take_a = if a.len() == 0 {
            false
        } else if b.len() == 0 {
            true
        } else {
            lex_le_str(b[b.len() - 1].as_str(), a[a.len() - 1].as_str())
        };
        let ghost old_desc = desc@;
        let ghost old_a = a@;
        let ghost old_b = b@;
        if take_a {
            proof {
                lemma_pop_multiset(a@);
            }
            let x = a.pop().unwrap();
            proof {
                if old_b.len() > 0 {
                    assert(lex_le(old_b.last()@, x@));
                }
                assert forall|i: int, j: int|
                    0 <= i < b@.len() && 0 <= j < desc@.len() + 1 implies lex_le(
                    #[trigger] b@[i]@,
                    #[trigger] old_desc.push(x)[j]@,
                ) by {
                    if j == old_desc.len() {
                        if i < old_b.len() - 1 {
                            lemma_lex_le_transitive(b@[i]@, old_b.last()@, x@);
                        }
                    }
                }
                assert forall|i: int, j: int|
                    0 <= i < a@.len() && 0 <= j < desc@.len() + 1 implies lex_le(
                    #[trigger] a@[i]@,
                    #[trigger] old_desc.push(x)[j]@,
                ) by {
                    if j == old_desc.len() {
                        assert(old_a[i] == a@[i]);
                    }
                }
            }
            desc.push(x);
        } else {
            proof {
                lemma_pop_multiset(b@);
            }
            let x = b.pop().unwrap();
            proof {
                if old_a.len() > 0 {
                    lemma_lex_le_total(old_b.last()@, old_a.last()@);
                    assert(lex_le(old_a.last()@, x@));
                }
                assert forall|i: int, j: int|
                    0 <= i < a@.len() && 0 <= j < desc@.len() + 1 implies lex_le(
                    #[trigger] a@[i]@,
                    #[trigger] old_desc.push(x)[j]@,
                ) by {
                    if j == old_desc.len() {
                        if i < old_a.len() - 1 {
                            lemma_lex_le_transitive(a@[i]@, old_a.last()@, x@);
                        }
                    }
                }
                assert forall|i: int, j: int|
                    0 <= i < b@.len() && 0 <= j < desc@.len() + 1 implies lex_le(
                    #[trigger] b@[i]@,
                    #[trigger] old_desc.push(x)[j]@,
                ) by {
                    if j == old_desc.len() {
                        assert(old_b[i] == b@[i]);
                    }
                }
            }
            desc.push(x);
        }
        assert(desc@.to_multiset().add(a@.to_multiset()).add(b@.to_multiset()) =~= total);
    }
    // Then reverse, popping the smallest remaining element each time.
    let mut r: Vec<String> = Vec::new();
    assert(a@.to_multiset() =~= Multiset::empty());
    assert(b@.to_multiset() =~= Multiset::empty());
    while desc.len() > 0
        invariant
            sorted(r@),
            sorted_desc(desc@),
            all_le(r@, desc@),
            r@.to_multiset().add(desc@.to_multiset()) == total,
        decreases desc.len(),
    {
        proof {
            lemma_pop_multiset(desc@);
        }
        let ghost old_r = r@;
        let ghost old_desc = desc@;
        let x = desc.pop().unwrap();
        r.push(x);
        assert forall|i: int, j: int| 0 <= i < j < r@.len() implies lex_le(
            #[trigger] r@[i]@,
            #[trigger] r@[j]@,
        ) by {
            if j == old_r.len() {
                assert(old_r[i] == r@[i]);
            } else {
                assert(old_r[i] == r@[i] && old_r[j] == r@[j]);
            }
        }
        assert forall|i: int, j: int| 0 <= i < r@.len() && 0 <= j < desc@.len() implies lex_le(
            #[trigger] r@[i]@,
            #[trigger] desc@[j]@,
        ) by {
            assert(old_desc[j] == desc@[j]);
            if i == old_r.len() {
            } else {
                assert(old_r[i] == r@[i]);
            }
        }
        assert(r@.to_multiset().add(desc@.to_multiset()) =~= total);
    }
    assert(desc@.to_multiset() =~= Multiset::empty());
    assert(r@.to_multiset() =~= total);
    r
}

/// Sorts `v` into ascending order: the result holds the same strings, each as many
/// times, in the order in which Rust compares `String`s.
pub fn sort_strings(v: Vec<String>) -> (r: Vec<String>)
    ensures
        sorted(r@),
        r@.to_multiset() == v@.to_multiset(),
    decreases v.len(),
{
    if v.len() <= 1 {
        assert(sorted(v@));
        return v;
    }
    let mut left = v;
    let ghost whole = left@;
    let mid = left.len() / 2;
    let right = left.split_off(mid);
    proof {
        assert(whole =~= left@ + right@);
        vstd::seq_lib::lemma_multiset_commutative(left@, right@);
    }
    let l = sort_strings(left);
    let r = sort_strings(right);
    merge(l, r)
}

} // verus!
