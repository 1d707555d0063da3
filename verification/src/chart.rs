//! Preparation of the query chart: the raw series is sorted most recent
//! first (so the newest bars sit on the left edge where they are not cut
//! off), squashed by the zoom factor, and each bucket is labelled with the
//! UTC hour and minute of its leading timestamp.

use vstd::prelude::*;
use vstd::multiset::Multiset;
use crate::series::{lemma_squash_ts_bound, lemma_sum_counts_nonneg, lemma_sum_counts_remove,
    lemma_sum_counts_split, spec_squash, squash_queries_over_time, sum_counts};
use crate::text::digit_char;

verus! {

broadcast use vstd::seq_lib::group_to_multiset_ensures;

/// The last timestamp the chart can label: 9999-12-31 23:59:59 UTC. Samples
/// beyond it (or before the epoch) cannot be turned into a clock label.
pub const MAX_LABEL_TIMESTAMP: i64 = 253402300799;

/// The five-character clock label `HH:MM` of a timestamp: its UTC hour and
/// minute, each zero-padded to two digits.
pub open spec fn spec_hm_label(ts: int) -> Seq<char>
    recommends
        ts >= 0,
{
    let h = (ts / 3600) % 24;
    let m = (ts / 60) % 60;
    seq![
        digit_char(h / 10),
        digit_char(h % 10),
        ':',
        digit_char(m / 10),
        digit_char(m % 10),
    ]
}

/// Relies on chrono's `DateTime::<Utc>::from_timestamp` and its `%H:%M`
/// formatting: for a timestamp between the epoch and `MAX_LABEL_TIMESTAMP`
/// the result is the zero-padded UTC hour and minute of `ts` seconds after
/// the Unix epoch, a pure function of `ts`.
#[verifier::external_body]
fn hour_minute_label(ts: i64) -> (r: String)
    requires
        0 <= ts <= MAX_LABEL_TIMESTAMP,
    ensures
        r@ == spec_hm_label(ts as int),
{
    let dt = chrono::DateTime::<chrono::Utc>::from_timestamp(ts, 0).unwrap();
    dt.format("%H:%M").to_string()
}

/// Most recent sample first.
pub open spec fn sorted_desc(s: Seq<(i64, u64)>) -> bool {
    forall|i: int, j: int| 0 <= i < j < s.len() ==> s[i].0 >= s[j].0
}

/// Sort a series by timestamp, most recent first. The result is a
/// permutation of the input with the same total count.
pub fn sort_queries_descending(queries: &Vec<(i64, u64)>) -> (sorted: Vec<(i64, u64)>)
    ensures
        sorted@.to_multiset() == queries@.to_multiset(),
        sorted_desc(sorted@),
        sum_counts(sorted@) == sum_counts(queries@),
{
    let mut rest: Vec<(i64, u64)> = Vec::new();
    let mut k: usize = 0;
    while k < queries.len()
        invariant
            k <= queries@.len(),
            rest@.len() == k,
            forall|j: int| 0 <= j < k ==> rest@[j] == queries@[j],
        decreases queries@.len() - k,
    {
        rest.push(queries[k]);
        k = k + 1;
    }
    proof {
        assert(rest@ =~= queries@);
    }

    let mut sorted: Vec<(i64, u64)> = Vec::new();
    proof {
        assert(sorted@.to_multiset() =~= Multiset::<(i64, u64)>::empty());
        assert(sorted@.to_multiset().add(rest@.to_multiset()) =~= rest@.to_multiset());
    }
    while rest.len() > 0
        invariant
            sorted@.to_multiset().add(rest@.to_multiset()) == queries@.to_multiset(),
            sum_counts(sorted@) + sum_counts(rest@) == sum_counts(queries@),
            sorted_desc(sorted@),
            forall|i: int, j: int|
                0 <= i < sorted@.len() && 0 <= j < rest@.len() ==> sorted@[i].0 >= rest@[j].0,
        decreases rest@.len(),
    {
        let mut best: usize = 0;
        let mut m: usize = 1;
        while m < rest.len()
            invariant
                rest@.len() > 0,
                best < m <= rest@.len(),
                forall|j: int| 0 <= j < m ==> rest@[best as int].0 >= rest@[j].0,
            decreases rest@.len() - m,
        {
            if rest[m].0 > rest[best].0 {
                best = m;
            }
            m = m + 1;
        }
        let ghost rest_pre = rest@;
        let picked = rest.remove(best);
        proof {
            assert(rest_pre.contains(picked));
            assert(rest_pre.remove(best as int).to_multiset() =~= rest_pre.to_multiset().remove(
                picked,
            ));
            lemma_sum_counts_remove(rest_pre, best as int);
        }
        let ghost sorted_pre = sorted@;
        sorted.push(picked);
        proof {
            assert(sorted@.to_multiset() =~= sorted_pre.to_multiset().insert(picked));
            assert(sorted@.to_multiset().add(rest@.to_multiset()) =~= queries@.to_multiset());
            assert(sorted@.drop_last() =~= sorted_pre);
            assert forall|i: int, j: int|
                0 <= i < sorted@.len() && 0 <= j < rest@.len() implies sorted@[i].0
                >= rest@[j].0 by {
                if i < sorted_pre.len() {
                    assert(sorted_pre[i].0 >= rest@[j].0);
                } else {
                    if j < best {
                        assert(rest@[j] == rest_pre[j]);
                    } else {
                        assert(rest@[j] == rest_pre[j + 1]);
                    }
                }
            };
        }
    }
    proof {
        assert(rest@.to_multiset().len() == 0);
        assert(rest@.to_multiset() =~= Multiset::<(i64, u64)>::empty());
        assert(sorted@.to_multiset() =~= sorted@.to_multiset().add(rest@.to_multiset()));
        assert(rest@ =~= Seq::<(i64, u64)>::empty());
    }
    sorted
}

/// Law: squashing preserves the chronological order. Buckets of a series
/// sorted most recent first are themselves sorted most recent first.
pub proof fn lemma_squash_keeps_descending_order(s: Seq<(i64, u64)>, f: int)
    requires
        f >= 1,
        sorted_desc(s),
    ensures
        sorted_desc(spec_squash(s, f)),
    decreases s.len(),
{
    if s.len() == 0 || s.len() <= f {
    } else {
        assert(sorted_desc(s.skip(f))) by {
            assert forall|i: int, j: int| 0 <= i < j < s.skip(f).len() implies s.skip(f)[i].0
                >= s.skip(f)[j].0 by {
                assert(s.skip(f)[i] == s[i + f]);
                assert(s.skip(f)[j] == s[j + f]);
            };
        };
        lemma_squash_keeps_descending_order(s.skip(f), f);
        lemma_squash_ts_bound(s.skip(f), f, i64::MIN as int, s[0].0 as int);
        let rest = spec_squash(s.skip(f), f);
        assert forall|i: int, j: int| 0 <= i < j < spec_squash(s, f).len() implies spec_squash(
            s,
            f,
        )[i].0 >= spec_squash(s, f)[j].0 by {
            if i == 0 {
                assert(spec_squash(s, f)[j] == rest[j - 1]);
                assert(rest[j - 1].0 <= s[0].0);
            } else {
                assert(spec_squash(s, f)[i] == rest[i - 1]);
                assert(spec_squash(s, f)[j] == rest[j - 1]);
            }
        };
    }
}

/// Every timestamp can be labelled: between the epoch and the last
/// representable clock label.
pub open spec fn in_label_range(s: Seq<(i64, u64)>) -> bool {
    forall|i: int| 0 <= i < s.len() ==> 0 <= #[trigger] s[i].0 <= MAX_LABEL_TIMESTAMP
}

/// The rows label the buckets one by one: clock label of the bucket's
/// leading timestamp, and the bucket's count.
pub open spec fn chart_rows_match(rows: Seq<(String, u64)>, buckets: Seq<(i64, u64)>) -> bool {
    &&& rows.len() == buckets.len()
    &&& forall|i: int|
        0 <= i < rows.len() ==> (#[trigger] rows[i]).0@ == spec_hm_label(buckets[i].0 as int)
            && rows[i].1 == buckets[i].1
}

/// Label each bucket of a squashed series with the clock time of its leading
/// timestamp.
pub fn format_chart_labels(buckets: &Vec<(i64, u64)>) -> (rows: Vec<(String, u64)>)
    requires
        in_label_range(buckets@),
    ensures
        chart_rows_match(rows@, buckets@),
{
    let mut rows: Vec<(String, u64)> = Vec::new();
    let mut i: usize = 0;
    while i < buckets.len()
        invariant
            in_label_range(buckets@),
            i <= buckets@.len(),
            rows@.len() == i,
            forall|j: int|
                0 <= j < i ==> (#[trigger] rows@[j]).0@ == spec_hm_label(buckets@[j].0 as int)
                    && rows@[j].1 == buckets@[j].1,
        decreases buckets@.len() - i,
    {
        let (ts, count) = buckets[i];
        let label = hour_minute_label(ts);
        rows.push((label, count));
        i = i + 1;
    }
    rows
}

/// Prepare the rows of the query chart from the raw series: sort most recent
/// first, squash by the zoom factor, and label each bucket with its clock
/// time. Returns nothing when the series cannot be charted: a zoom factor of
/// zero, a total count beyond what a counter holds, or a timestamp that has
/// no clock label.
pub fn prepare_chart_rows(queries: &Vec<(i64, u64)>, squash_factor: usize) -> (rows: Option<
    Vec<(String, u64)>,
>)
    ensures
        rows is Some <==> (squash_factor >= 1 && sum_counts(queries@) <= u64::MAX
            && in_label_range(queries@)),
        rows matches Some(r) ==> exists|d: Seq<(i64, u64)>|
            {
                &&& d.to_multiset() == queries@.to_multiset()
                &&& sorted_desc(d)
                &&& chart_rows_match(r@, spec_squash(d, squash_factor as int))
            },
{
    if squash_factor < 1 {
        return None;
    }
    let mut i: usize = 0;
    while i < queries.len()
        invariant
            i <= queries@.len(),
            forall|j: int| 0 <= j < i ==> 0 <= #[trigger] queries@[j].0 <= MAX_LABEL_TIMESTAMP,
        decreases queries@.len() - i,
    {
        let (ts, _count) = queries[i];
        if ts < 0 || ts > MAX_LABEL_TIMESTAMP {
            return None;
        }
        i = i + 1;
    }
    let mut total: u64 = 0;
    i = 0;
    proof {
        assert(queries@.subrange(0, 0) =~= Seq::<(i64, u64)>::empty());
    }
    while i < queries.len()
        invariant
            i <= queries@.len(),
            total == sum_counts(queries@.subrange(0, i as int)),
        decreases queries@.len() - i,
    {
        let (_ts, count) = queries[i];
        proof {
            assert(queries@.subrange(0, i + 1).drop_last() =~= queries@.subrange(0, i as int));
            assert(queries@.subrange(0, i + 1).last() == queries@[i as int]);
        }
        match total.checked_add(count) {
            Some(t) => {
                total = t;
            },
            None => {
                proof {
                    lemma_sum_counts_split(queries@, i + 1);
                    lemma_sum_counts_nonneg(queries@.skip(i + 1));
                    assert(queries@.take(i + 1) =~= queries@.subrange(0, i + 1));
                }
                return None;
            },
        }
        i = i + 1;
    }
    proof {
        assert(queries@.subrange(0, queries@.len() as int) =~= queries@);
    }
    let sorted = sort_queries_descending(queries);
    proof {
        assert forall|j: int| 0 <= j < sorted@.len() implies 0 <= #[trigger] sorted@[j].0
            <= MAX_LABEL_TIMESTAMP by {
            assert(sorted@.contains(sorted@[j]));
            assert(sorted@.to_multiset().count(sorted@[j]) > 0);
            assert(queries@.to_multiset().count(sorted@[j]) > 0);
            assert(queries@.contains(sorted@[j]));
            let k = choose|k: int| 0 <= k < queries@.len() && queries@[k] == sorted@[j];
            assert(0 <= queries@[k].0 <= MAX_LABEL_TIMESTAMP);
        };
    }
    let squashed = squash_queries_over_time(&sorted, squash_factor);
    proof {
        lemma_squash_ts_bound(sorted@, squash_factor as int, 0, MAX_LABEL_TIMESTAMP as int);
    }
    let labeled = format_chart_labels(&squashed);
    Some(labeled)
}

} // verus!
