//! Time-series downsampling for the query chart: groups of `squash_factor`
//! consecutive samples are merged into one bucket that keeps the leading
//! timestamp and the summed count; a shorter trailing group is kept, never
//! dropped.

use vstd::prelude::*;

verus! {

/// Sum of the query counts of a series, folding from the right.
pub open spec fn sum_counts(s: Seq<(i64, u64)>) -> int
    decreases s.len(),
{
    if s.len() == 0 {
        0
    } else {
        sum_counts(s.drop_last()) + s.last().1
    }
}

pub proof fn lemma_sum_counts_nonneg(s: Seq<(i64, u64)>)
    ensures
        sum_counts(s) >= 0,
    decreases s.len(),
{
    if s.len() > 0 {
        lemma_sum_counts_nonneg(s.drop_last());
    }
}

/// Summing a series splits at any point into the sum of the two parts.
pub proof fn lemma_sum_counts_split(s: Seq<(i64, u64)>, k: int)
    requires
        0 <= k <= s.len(),
    ensures
        sum_counts(s) == sum_counts(s.take(k)) + sum_counts(s.skip(k)),
    decreases s.len(),
{
    if k == s.len() {
        assert(s.take(k) =~= s);
        assert(s.skip(k) =~= Seq::<(i64, u64)>::empty());
    } else {
        let dl = s.drop_last();
        lemma_sum_counts_split(dl, k);
        assert(dl.take(k) =~= s.take(k));
        assert(s.skip(k).drop_last() =~= dl.skip(k));
        assert(s.skip(k).last() == s.last());
    }
}

/// The sum over any contiguous segment is bounded by the sum of the whole.
pub proof fn lemma_sum_counts_subrange(s: Seq<(i64, u64)>, g: int, i: int)
    requires
        0 <= g <= i <= s.len(),
    ensures
        0 <= sum_counts(s.subrange(g, i)) <= sum_counts(s),
{
    lemma_sum_counts_split(s, g);
    lemma_sum_counts_split(s.skip(g), i - g);
    assert(s.skip(g).take(i - g) =~= s.subrange(g, i));
    lemma_sum_counts_nonneg(s.take(g));
    lemma_sum_counts_nonneg(s.subrange(g, i));
    lemma_sum_counts_nonneg(s.skip(g).skip(i - g));
}

/// Removing one sample lowers the sum by exactly that sample's count.
pub proof fn lemma_sum_counts_remove(s: Seq<(i64, u64)>, i: int)
    requires
        0 <= i < s.len(),
    ensures
        sum_counts(s.remove(i)) == sum_counts(s) - s[i].1,
    decreases s.len(),
{
    if i == s.len() - 1 {
        assert(s.remove(i) =~= s.drop_last());
    } else {
        lemma_sum_counts_remove(s.drop_last(), i);
        assert(s.remove(i).drop_last() =~= s.drop_last().remove(i));
        assert(s.remove(i).last() == s.last());
    }
}

/// What squashing a series by factor `f` yields: buckets of `f` consecutive
/// samples, each reported as (leading timestamp, summed count), with a
/// shorter trailing bucket when the length is not a multiple of `f`.
pub open spec fn spec_squash(s: Seq<(i64, u64)>, f: int) -> Seq<(i64, u64)>
    recommends
        f >= 1,
    decreases s.len(),
{
    if s.len() == 0 || f < 1 {
        Seq::empty()
    } else if s.len() <= f {
        seq![(s[0].0, sum_counts(s) as u64)]
    } else {
        seq![(s[0].0, sum_counts(s.take(f)) as u64)] + spec_squash(s.skip(f), f)
    }
}

/// Peeling one full bucket off the front of the part of `s` that starts at a
/// bucket boundary `g`.
proof fn lemma_squash_unfold(s: Seq<(i64, u64)>, f: int, g: int)
    requires
        1 <= f,
        0 <= g,
        g + f <= s.len(),
    ensures
        spec_squash(s.skip(g), f) == seq![(s[g].0, sum_counts(s.subrange(g, g + f)) as u64)]
            + spec_squash(s.skip(g + f), f),
{
    let t = s.skip(g);
    if t.len() <= f {
        assert(s.subrange(g, g + f) =~= t);
        assert(s.skip(g + f) =~= Seq::<(i64, u64)>::empty());
        assert(seq![(s[g].0, sum_counts(s.subrange(g, g + f)) as u64)]
            + spec_squash(s.skip(g + f), f) =~= seq![(t[0].0, sum_counts(t) as u64)]);
    } else {
        assert(t.take(f) =~= s.subrange(g, g + f));
        assert(t.skip(f) =~= s.skip(g + f));
    }
}

/// Downsample a time-ordered count series: every `squash_factor` consecutive
/// samples become one bucket carrying the first sample's timestamp and the
/// sum of the counts; a final shorter group is emitted as its own bucket.
/// The order of the input (the caller sorts it, most recent first) is kept.
pub fn squash_queries_over_time(queries: &Vec<(i64, u64)>, squash_factor: usize) -> (squashed: Vec<
    (i64, u64),
>)
    requires
        squash_factor >= 1,
        sum_counts(queries@) <= u64::MAX,
    ensures
        squashed@ == spec_squash(queries@, squash_factor as int),
{
    let ghost s = queries@;
    let ghost f = squash_factor as int;
    let mut squashed: Vec<(i64, u64)> = Vec::new();
    let mut count: usize = 0;
    let mut sum: u64 = 0;
    let mut leading_timestamp: i64 = 0;
    let mut i: usize = 0;
    proof {
        assert(s.skip(0) =~= s);
        assert(s.subrange(0, 0) =~= Seq::<(i64, u64)>::empty());
        assert(squashed@ + spec_squash(s, f) =~= spec_squash(s, f));
    }
    while i < queries.len()
        invariant
            s == queries@,
            f == squash_factor as int,
            1 <= f,
            sum_counts(s) <= u64::MAX,
            count <= i <= s.len(),
            count < f,
            sum == sum_counts(s.subrange(i - count, i as int)),
            count > 0 ==> leading_timestamp == s[i - count].0,
            spec_squash(s, f) == squashed@ + spec_squash(s.skip(i - count), f),
        decreases s.len() - i,
    {
        let ghost g = i - count;
        let (timestamp, query_count) = queries[i];
        if count == 0 {
            leading_timestamp = timestamp;
        }
        proof {
            assert(s.subrange(g, i + 1).drop_last() =~= s.subrange(g, i as int));
            assert(s.subrange(g, i + 1).last() == s[i as int]);
            lemma_sum_counts_subrange(s, g, i + 1);
        }
        sum = sum + query_count;
        count = count + 1;
        i = i + 1;
        if count >= squash_factor {
            proof {
                lemma_squash_unfold(s, f, g);
                lemma_sum_counts_subrange(s, g, g + f);
            }
            squashed.push((leading_timestamp, sum));
            count = 0;
            sum = 0;
            proof {
                assert(squashed@ =~= squashed@.drop_last() + seq![(s[g].0, sum_counts(
                    s.subrange(g, g + f),
                ) as u64)]);
                assert(spec_squash(s, f) == squashed@ + spec_squash(s.skip(i as int), f))
                    by {
                    assert((squashed@.drop_last() + seq![(s[g].0, sum_counts(
                        s.subrange(g, g + f),
                    ) as u64)]) + spec_squash(s.skip(i as int), f) =~= squashed@.drop_last() + (
                    seq![(s[g].0, sum_counts(s.subrange(g, g + f)) as u64)] + spec_squash(
                        s.skip(i as int),
                        f,
                    )));
                };
            }
        }
    }
    if count > 0 {
        proof {
            let g = i - count;
            assert(s.skip(g) =~= s.subrange(g, i as int));
            lemma_sum_counts_subrange(s, g, i as int);
            assert(spec_squash(s.skip(g), f) =~= seq![(s[g].0, sum_counts(s.skip(g)) as u64)]);
        }
        squashed.push((leading_timestamp, sum));
        proof {
            let g = i - count;
            assert(squashed@ =~= squashed@.drop_last() + seq![(s[g].0, sum_counts(
                s.skip(g),
            ) as u64)]);
        }
    } else {
        proof {
            assert(s.skip(i - count) =~= Seq::<(i64, u64)>::empty());
            assert(squashed@ + spec_squash(s.skip(i - count), f) =~= squashed@);
        }
    }
    squashed
}

/// Every bucket timestamp of a squashed series is the timestamp of some
/// input sample, so a bound on the input timestamps carries over.
pub proof fn lemma_squash_ts_bound(s: Seq<(i64, u64)>, f: int, lo: int, hi: int)
    requires
        f >= 1,
        forall|g: int| 0 <= g < s.len() ==> lo <= #[trigger] s[g].0 <= hi,
    ensures
        forall|i: int|
            0 <= i < spec_squash(s, f).len() ==> lo <= #[trigger] spec_squash(s, f)[i].0 <= hi,
    decreases s.len(),
{
    if s.len() == 0 {
    } else if s.len() <= f {
        assert(spec_squash(s, f)[0].0 == s[0].0);
    } else {
        lemma_squash_ts_bound(s.skip(f), f, lo, hi);
        assert forall|i: int|
            0 <= i < spec_squash(s, f).len() implies lo <= #[trigger] spec_squash(s, f)[i].0
            <= hi by {
            if i == 0 {
                assert(spec_squash(s, f)[0].0 == s[0].0);
            } else {
                assert(spec_squash(s, f)[i] == spec_squash(s.skip(f), f)[i - 1]);
            }
        };
    }
}

proof fn lemma_sum_counts_cons(x: (i64, u64), t: Seq<(i64, u64)>)
    ensures
        sum_counts(seq![x] + t) == x.1 + sum_counts(t),
    decreases t.len(),
{
    if t.len() == 0 {
        assert(seq![x] + t =~= seq![x]);
        assert(seq![x].drop_last() =~= Seq::<(i64, u64)>::empty());
        assert(sum_counts(seq![x].drop_last()) == 0);
    } else {
        lemma_sum_counts_cons(x, t.drop_last());
        assert((seq![x] + t).drop_last() =~= seq![x] + t.drop_last());
        assert((seq![x] + t).last() == t.last());
    }
}

/// Law: squashing preserves the total query volume. The counts of the
/// buckets sum to the counts of the input samples.
pub proof fn lemma_squash_preserves_volume(s: Seq<(i64, u64)>, f: int)
    requires
        f >= 1,
        sum_counts(s) <= u64::MAX,
    ensures
        sum_counts(spec_squash(s, f)) == sum_counts(s),
    decreases s.len(),
{
    if s.len() == 0 {
    } else if s.len() <= f {
        lemma_sum_counts_nonneg(s);
        let b = (s[0].0, sum_counts(s) as u64);
        assert(spec_squash(s, f) == seq![b]);
        assert(seq![b].drop_last() =~= Seq::<(i64, u64)>::empty());
        assert(sum_counts(seq![b].drop_last()) == 0);
    } else {
        lemma_sum_counts_split(s, f);
        lemma_sum_counts_nonneg(s.take(f));
        lemma_sum_counts_nonneg(s.skip(f));
        lemma_squash_preserves_volume(s.skip(f), f);
        let b = (s[0].0, sum_counts(s.take(f)) as u64);
        lemma_sum_counts_cons(b, spec_squash(s.skip(f), f));
    }
}

/// Law: a squash factor of one returns the series unchanged.
pub proof fn lemma_squash_identity(s: Seq<(i64, u64)>)
    ensures
        spec_squash(s, 1) == s,
    decreases s.len(),
{
    if s.len() == 0 {
        assert(spec_squash(s, 1) =~= s);
    } else if s.len() == 1 {
        let e = s.drop_last();
        assert(e =~= Seq::<(i64, u64)>::empty());
        assert(sum_counts(e) == 0);
        assert(sum_counts(s) == s[0].1);
        let (t, c) = s[0];
        assert(s[0] == (t, c));
        assert(spec_squash(s, 1) =~= s);
    } else {
        lemma_squash_identity(s.skip(1));
        let t1 = s.take(1);
        assert(t1.drop_last() =~= Seq::<(i64, u64)>::empty());
        assert(sum_counts(t1.drop_last()) == 0);
        assert(t1.last() == s[0]);
        assert(sum_counts(t1) == s[0].1);
        let (t, c) = s[0];
        assert(s[0] == (t, c));
        assert(spec_squash(s, 1) =~= s);
    }
}

} // verus!
