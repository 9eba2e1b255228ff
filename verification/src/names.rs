//! Ordering stream names: lexicographic comparison over characters and a
//! verified insertion sort for the menu's stream entries.

use vstd::prelude::*;
use vstd::multiset::Multiset;
use vstd::string::StrSliceExecFns;
use crate::audio::StreamId;

verus! {

/// Lexicographic order on character sequences, by code point; a prefix
/// orders before every extension of it.
pub open spec fn lex_le(a: Seq<char>, b: Seq<char>) -> bool
    decreases a.len(),
{
    if a.len() == 0 {
        true
    } else if b.len() == 0 {
        false
    } else if (a[0] as u32) < (b[0] as u32) {
        true
    } else if (a[0] as u32) > (b[0] as u32) {
        false
    } else {
        lex_le(a.skip(1), b.skip(1))
    }
}

/// The order is total.
pub proof fn lemma_lex_total(a: Seq<char>, b: Seq<char>)
    ensures
        lex_le(a, b) || lex_le(b, a),
    decreases a.len(),
{
    if a.len() > 0 && b.len() > 0 && a[0] as u32 == b[0] as u32 {
        lemma_lex_total(a.skip(1), b.skip(1));
    }
}

/// The order is transitive.
pub proof fn lemma_lex_trans(a: Seq<char>, b: Seq<char>, c: Seq<char>)
    requires
        lex_le(a, b),
        lex_le(b, c),
    ensures
        lex_le(a, c),
    decreases a.len(),
{
    if a.len() > 0 {
        if a[0] as u32 == b[0] as u32 && b[0] as u32 == c[0] as u32 {
            lemma_lex_trans(a.skip(1), b.skip(1), c.skip(1));
        }
    }
}

/// Compares two names in the order of [`lex_le`].
pub fn str_le(a: &str, b: &str) -> (r: bool)
    ensures
        r == lex_le(a@, b@),
{
    let a_len = a.unicode_len();
    let b_len = b.unicode_len();
    let mut i: usize = 0;
    proof {
        assert(a@.skip(0) =~= a@);
        assert(b@.skip(0) =~= b@);
    }
    while i < a_len && i < b_len
        invariant
            a_len == a@.len(),
            b_len == b@.len(),
            i <= a_len,
            i <= b_len,
            lex_le(a@, b@) == lex_le(a@.skip(i as int), b@.skip(i as int)),
            forall|j: int| 0 <= j < i ==> a@[j] == b@[j],
        decreases a_len - i,
    {
        let ca = a.get_char(i) as u32;
        let cb = b.get_char(i) as u32;
        proof {
            assert(a@.skip(i as int)[0] == a@[i as int]);
            assert(b@.skip(i as int)[0] == b@[i as int]);
        }
        if ca < cb {
            return true;
        }
        if ca > cb {
            return false;
        }
        proof {
            assert(a@[i as int] as u32 == b@[i as int] as u32);
            assert(a@[i as int] == b@[i as int]);
            assert(a@.skip(i as int).skip(1) =~= a@.skip(i as int + 1));
            assert(b@.skip(i as int).skip(1) =~= b@.skip(i as int + 1));
        }
        i = i + 1;
    }
    proof {
        if i >= a_len {
            assert(a@.skip(i as int).len() == 0);
        } else {
            assert(b@.skip(i as int).len() == 0);
            assert(a@.skip(i as int).len() > 0);
        }
    }
    i >= a_len
}

/// A sequence of identifier/name pairs in nondecreasing name order.
pub open spec fn sorted_by_name(s: Seq<(StreamId, String)>) -> bool {
    forall|i: int, j: int| 0 <= i <= j < s.len() ==> lex_le(s[i].1@, s[j].1@)
}

/// Sorts identifier/name pairs by name: the result is the same entries,
/// in nondecreasing name order; distinct entries stay distinct.
pub fn sort_by_name(v: Vec<(StreamId, String)>) -> (r: Vec<(StreamId, String)>)
    ensures
        sorted_by_name(r@),
        r@.to_multiset() == v@.to_multiset(),
        r@.len() == v@.len(),
        v@.no_duplicates() ==> r@.no_duplicates(),
{
    let mut rest = v;
    let mut out: Vec<(StreamId, String)> = Vec::new();
    proof {
        out@.to_multiset_ensures();
        rest@.to_multiset_ensures();
        assert(out@.to_multiset().add(rest@.to_multiset()) =~= rest@.to_multiset());
    }
    while rest.len() > 0
        invariant
            sorted_by_name(out@),
            out@.to_multiset().add(rest@.to_multiset()) == v@.to_multiset(),
            out@.len() + rest@.len() == v@.len(),
        decreases rest@.len(),
    {
        let ghost rest0 = rest@;
        let x = rest.remove(0);
        proof {
            rest0.to_multiset_ensures();
            assert(rest@ =~= rest0.remove(0));
            assert(rest@.to_multiset() =~= rest0.to_multiset().remove(x));
            assert(rest0.contains(x));
            assert(rest0.to_multiset().count(x) > 0);
            assert(rest0.to_multiset() =~= rest@.to_multiset().insert(x));
        }
        // find the first slot whose name does not order before `x`'s
        let mut k: usize = 0;
        while k < out.len() && str_le(out[k].1.as_str(), x.1.as_str())
            invariant
                k <= out@.len(),
                forall|j: int| 0 <= j < k ==> lex_le(out@[j].1@, x.1@),
            decreases out@.len() - k,
        {
            k = k + 1;
        }
        proof {
            if k < out@.len() {
                lemma_lex_total(out@[k as int].1@, x.1@);
                assert(lex_le(x.1@, out@[k as int].1@));
            }
        }
        let ghost out0 = out@;
        out.insert(k, x);
        proof {
            assert(out@ =~= out0.insert(k as int, x));
            // sortedness of the extended sequence
            assert forall|i: int, j: int| 0 <= i <= j < out@.len() implies lex_le(
                out@[i].1@,
                out@[j].1@,
            ) by {
                if i == j {
                    lemma_lex_total(out@[i].1@, out@[i].1@);
                } else if j < k as int {
                    assert(out@[i] == out0[i] && out@[j] == out0[j]);
                } else if i > k as int {
                    assert(out@[i] == out0[i - 1] && out@[j] == out0[j - 1]);
                } else if i == k as int && j == k as int {
                } else if i < k as int && j == k as int {
                    assert(out@[i] == out0[i]);
                    assert(lex_le(out0[i].1@, x.1@));
                } else if i == k as int && j > k as int {
                    assert(out@[j] == out0[j - 1]);
                    if k < out0.len() {
                        assert(lex_le(x.1@, out0[k as int].1@));
                        assert(lex_le(out0[k as int].1@, out0[j - 1].1@));
                        lemma_lex_trans(x.1@, out0[k as int].1@, out0[j - 1].1@);
                    }
                } else {
                    assert(i < k as int && j > k as int);
                    assert(out@[i] == out0[i] && out@[j] == out0[j - 1]);
                    assert(lex_le(out0[i].1@, out0[j - 1].1@));
                }
            };
            // multiset bookkeeping for the insert
            out@.to_multiset_ensures();
            assert(out@.remove(k as int) =~= out0);
            assert(out@[k as int] == x);
            assert(out@.to_multiset().remove(x) =~= out0.to_multiset());
            assert(out@.contains(x));
            assert(out@.to_multiset().count(x) > 0);
            assert(out@.to_multiset() =~= out0.to_multiset().insert(x));
            assert(out@.to_multiset().add(rest@.to_multiset()) =~= v@.to_multiset());
        }
    }
    proof {
        rest@.to_multiset_ensures();
        assert(rest@ =~= Seq::<(StreamId, String)>::empty());
        assert(rest@.to_multiset() =~= Multiset::<(StreamId, String)>::empty());
        assert(out@.to_multiset() =~= v@.to_multiset());
        if v@.no_duplicates() {
            v@.lemma_multiset_has_no_duplicates();
            out@.lemma_multiset_has_no_duplicates_conv();
        }
    }
    out
}

} // verus!
