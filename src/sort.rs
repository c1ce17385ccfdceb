//! Ordering of version strings. The order is lexical (see `lex_lt`), not
//! semantic: `1.10` comes before `1.2`.

use vstd::prelude::*;

use crate::text::{lemma_lex_total, lemma_lex_trans, lex_le, lex_less, lex_lt, views};

verus! {

/// Ascending in lexical order.
pub open spec fn sorted(s: Seq<Seq<char>>) -> bool {
    forall|i: int, j: int| 0 <= i < j < s.len() ==> lex_le(#[trigger] s[i], #[trigger] s[j])
}

/// The strings of `v` in ascending lexical order.
pub fn sort_lexical(v: Vec<String>) -> (r: Vec<String>)
    ensures
        views(r@).to_multiset() == views(v@).to_multiset(),
        sorted(views(r@)),
{
    let mut out: Vec<String> = Vec::new();
    let mut k: usize = 0;
    assert(views(out@) =~= views(v@.subrange(0, 0)));
    while k < v.len()
        invariant
            k <= v@.len(),
            views(out@).to_multiset() == views(v@.subrange(0, k as int)).to_multiset(),
            sorted(views(out@)),
        decreases v@.len() - k,
    {
        let x = v[k].clone();
        assert(x@ == v@[k as int]@);
        let mut pos: usize = 0;
        while pos < out.len() && !lex_less(x.as_str(), out[pos].as_str())
            invariant
                pos <= out@.len(),
                forall|j: int| 0 <= j < pos ==> !lex_lt(x@, #[trigger] out@[j]@),
            decreases out@.len() - pos,
        {
            pos = pos + 1;
        }
        let ghost s = views(out@);
        proof {
            assert forall|j: int| 0 <= j < pos implies lex_le(#[trigger] s[j], x@) by {
                lemma_lex_total(s[j], x@);
            }
            assert forall|j: int| pos <= j < s.len() implies lex_le(x@, #[trigger] s[j]) by {
                assert(lex_lt(x@, s[pos as int]));
                if j > pos {
                    lemma_lex_trans(x@, s[pos as int], s[j]);
                }
            }
        }
        out.insert(pos, x);
        let ghost t = views(out@);
        assert(t =~= s.insert(pos as int, x@));
        proof {
            vstd::seq_lib::to_multiset_insert(s, pos as int, x@);
            let prefix = views(v@.subrange(0, k as int));
            assert(views(v@.subrange(0, k + 1)) =~= prefix.push(x@));
            vstd::seq_lib::to_multiset_build(prefix, x@);
            assert forall|i: int, j: int| 0 <= i < j < t.len() implies lex_le(#[trigger] t[i], #[trigger] t[j]) by {
                if j < pos {
                    assert(t[i] == s[i] && t[j] == s[j]);
                } else if j == pos {
                    assert(t[i] == s[i]);
                } else if i == pos {
                    assert(t[j] == s[j - 1]);
                } else if i < pos {
                    assert(t[i] == s[i] && t[j] == s[j - 1]);
                    lemma_lex_trans(s[i], x@, s[j - 1]);
                } else {
                    assert(t[i] == s[i - 1] && t[j] == s[j - 1]);
                }
            }
        }
        k = k + 1;
    }
    assert(v@.subrange(0, v@.len() as int) =~= v@);
    out
}

} // verus!
