//! Rankings are label/count tables (top queries, top ads, top clients). The
//! provider hands them over unordered; before display they are sorted by
//! count, largest first, with ties broken by label in ascending code-point
//! order, and each entry is rendered as a `[label, count]` row of strings.

use vstd::prelude::*;
use vstd::multiset::Multiset;
use crate::text::{dec_chars, lemma_lex_le_total, lemma_lex_le_trans, lex_le, str_lex_le,
    u64_to_string};

verus! {

broadcast use vstd::seq_lib::group_to_multiset_ensures;

/// Display order of two ranking entries: higher counts come first, equal
/// counts are ordered by label ascending.
pub open spec fn rank_le(a: (String, u64), b: (String, u64)) -> bool {
    a.1 > b.1 || (a.1 == b.1 && lex_le(a.0@, b.0@))
}

pub open spec fn sorted_by_rank(s: Seq<(String, u64)>) -> bool {
    forall|i: int, j: int| 0 <= i < j < s.len() ==> rank_le(s[i], s[j])
}

proof fn lemma_rank_le_total(a: (String, u64), b: (String, u64))
    ensures
        rank_le(a, b) || rank_le(b, a),
{
    lemma_lex_le_total(a.0@, b.0@);
}

proof fn lemma_rank_le_trans(a: (String, u64), b: (String, u64), c: (String, u64))
    requires
        rank_le(a, b),
        rank_le(b, c),
    ensures
        rank_le(a, c),
{
    if a.1 == b.1 && b.1 == c.1 {
        lemma_lex_le_trans(a.0@, b.0@, c.0@);
    }
}

fn rank_le_exec(a: &(String, u64), b: &(String, u64)) -> (r: bool)
    ensures
        r == rank_le(*a, *b),
{
    if a.1 > b.1 {
        true
    } else if a.1 == b.1 {
        str_lex_le(a.0.as_str(), b.0.as_str())
    } else {
        false
    }
}

/// Sort the entries of a ranking into display order: by count descending,
/// ties by label ascending. The result is a permutation of the input.
pub fn sort_ranking(entries: &Vec<(String, u64)>) -> (sorted: Vec<(String, u64)>)
    ensures
        sorted@.to_multiset() == entries@.to_multiset(),
        sorted_by_rank(sorted@),
{
    let mut rest: Vec<(String, u64)> = Vec::new();
    let mut k: usize = 0;
    while k < entries.len()
        invariant
            k <= entries@.len(),
            rest@.len() == k,
            forall|j: int| 0 <= j < k ==> rest@[j] == entries@[j],
        decreases entries@.len() - k,
    {
        let label = entries[k].0.clone();
        let count = entries[k].1;
        proof {
            let (l0, c0) = entries@[k as int];
            assert(entries@[k as int] == (l0, c0));
        }
        rest.push((label, count));
        k = k + 1;
    }
    proof {
        assert(rest@ =~= entries@);
    }

    let mut sorted: Vec<(String, u64)> = Vec::new();
    proof {
        assert(sorted@.to_multiset() =~= Multiset::<(String, u64)>::empty());
        assert(sorted@.to_multiset().add(rest@.to_multiset()) =~= rest@.to_multiset());
    }
    while rest.len() > 0
        invariant
            sorted@.to_multiset().add(rest@.to_multiset()) == entries@.to_multiset(),
            sorted_by_rank(sorted@),
            forall|i: int, j: int|
                0 <= i < sorted@.len() && 0 <= j < rest@.len() ==> rank_le(sorted@[i], rest@[j]),
        decreases rest@.len(),
    {
        let mut best: usize = 0;
        let mut m: usize = 1;
        proof {
            lemma_rank_le_total(rest@[0], rest@[0]);
        }
        while m < rest.len()
            invariant
                rest@.len() > 0,
                best < m <= rest@.len(),
                forall|j: int| 0 <= j < m ==> rank_le(rest@[best as int], rest@[j]),
            decreases rest@.len() - m,
        {
            let keep = rank_le_exec(&rest[best], &rest[m]);
            if !keep {
                proof {
                    lemma_rank_le_total(rest@[best as int], rest@[m as int]);
                    assert forall|j: int| 0 <= j < m + 1 implies rank_le(
                        rest@[m as int],
                        rest@[j],
                    ) by {
                        if j < m {
                            lemma_rank_le_trans(rest@[m as int], rest@[best as int], rest@[j]);
                        } else {
                            lemma_rank_le_total(rest@[m as int], rest@[m as int]);
                        }
                    };
                }
                best = m;
            }
            m = m + 1;
        }
        let ghost rest_pre = rest@;
        let picked = rest.remove(best);
        proof {
            assert(rest_pre.contains(picked));
            assert(rest_pre.remove(best as int).to_multiset() =~= rest_pre.to_multiset().remove(
                picked,
            ));
        }
        let ghost sorted_pre = sorted@;
        sorted.push(picked);
        proof {
            assert(sorted@.to_multiset() =~= sorted_pre.to_multiset().insert(picked));
            assert(sorted@.to_multiset().add(rest@.to_multiset()) =~= entries@.to_multiset());
            assert forall|i: int, j: int|
                0 <= i < sorted@.len() && 0 <= j < rest@.len() implies rank_le(
                sorted@[i],
                rest@[j],
            ) by {
                if i < sorted_pre.len() {
                    assert(rank_le(sorted_pre[i], rest@[j]));
                } else {
                    if j < best {
                        assert(rest@[j] == rest_pre[j]);
                    } else {
                        assert(rest@[j] == rest_pre[j + 1]);
                    }
                }
            };
            assert(sorted_by_rank(sorted@)) by {
                assert forall|i: int, j: int| 0 <= i < j < sorted@.len() implies rank_le(
                    sorted@[i],
                    sorted@[j],
                ) by {
                    if j < sorted_pre.len() {
                        assert(rank_le(sorted_pre[i], sorted_pre[j]));
                    } else {
                        assert(rank_le(sorted_pre[i], rest_pre[best as int]));
                    }
                };
            };
        }
    }
    proof {
        assert(rest@.to_multiset().len() == 0);
        assert(rest@.to_multiset() =~= Multiset::<(String, u64)>::empty());
        assert(sorted@.to_multiset() =~= sorted@.to_multiset().add(rest@.to_multiset()));
    }
    sorted
}

/// A display row for one ranking entry: the label, then the count written in
/// decimal.
pub open spec fn spec_row_matches(row: Vec<String>, entry: (String, u64)) -> bool {
    &&& row@.len() == 2
    &&& row@[0]@ == entry.0@
    &&& row@[1]@ == dec_chars(entry.1 as int)
}

/// Turn an unordered ranking into display rows, sorted by count descending
/// and ties by label ascending: there is a permutation of the input, in
/// display order, whose entries the rows render one by one.
pub fn order_convert_string_num_map(map: &Vec<(String, u64)>) -> (rows: Vec<Vec<String>>)
    ensures
        rows@.len() == map@.len(),
        exists|p: Seq<(String, u64)>|
            {
                &&& p.to_multiset() == map@.to_multiset()
                &&& sorted_by_rank(p)
                &&& rows@.len() == p.len()
                &&& (forall|i: int| 0 <= i < p.len() ==> spec_row_matches(rows@[i], p[i]))
            },
{
    let sorted = sort_ranking(map);
    let mut rows: Vec<Vec<String>> = Vec::new();
    let mut i: usize = 0;
    while i < sorted.len()
        invariant
            i <= sorted@.len(),
            rows@.len() == i,
            forall|j: int| 0 <= j < i ==> spec_row_matches(rows@[j], sorted@[j]),
            sorted@.to_multiset() == map@.to_multiset(),
            sorted_by_rank(sorted@),
        decreases sorted@.len() - i,
    {
        let mut row: Vec<String> = Vec::new();
        row.push(sorted[i].0.clone());
        row.push(u64_to_string(sorted[i].1));
        rows.push(row);
        i = i + 1;
    }
    proof {
        let p = sorted@;
        assert(p.to_multiset().len() == p.len());
        assert(map@.to_multiset().len() == map@.len());
        assert(p.to_multiset() == map@.to_multiset() && sorted_by_rank(p) && rows@.len() == p.len()
            && (forall|i: int| 0 <= i < p.len() ==> spec_row_matches(rows@[i], p[i])));
    }
    rows
}

} // verus!
