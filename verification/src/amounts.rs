use vstd::prelude::*;
use vstd::multiset::Multiset;
use vstd::seq_lib::{commutative_foldl, lemma_fold_left_permutation};

use crate::transaction::Transaction;

verus! {

/// The signed sum, in cents, of a sequence of transaction amounts.
pub open spec fn sum_txns(s: Seq<Transaction>) -> int {
    s.fold_left(0int, |acc: int, t: Transaction| acc + t.amount)
}

/// Every prefix sum of the sequence fits in a 64-bit signed integer; this is
/// exactly the condition under which a left-to-right 64-bit accumulation of
/// the amounts cannot overflow.
pub open spec fn prefix_sums_fit(s: Seq<Transaction>) -> bool {
    forall|i: int| 0 <= i <= s.len() ==> i64::MIN <= sum_txns(#[trigger] s.take(i)) <= i64::MAX
}

/// The transactions that reference the given account, in their stored order.
pub open spec fn account_txns(ts: Seq<Transaction>, account_id: i64) -> Seq<Transaction> {
    ts.filter(|t: Transaction| t.account_id == account_id)
}

/// The derived balance of an account: the sum of the amounts of all
/// transactions that reference it.
pub open spec fn account_balance(ts: Seq<Transaction>, account_id: i64) -> int {
    sum_txns(account_txns(ts, account_id))
}

/// The transactions of a category whose date falls within the inclusive
/// period `[start, end]`, in their stored order.
pub open spec fn category_txns(
    ts: Seq<Transaction>,
    category_id: i64,
    start: i64,
    end: i64,
) -> Seq<Transaction> {
    ts.filter(|t: Transaction| t.category_id == category_id && start <= t.date && t.date <= end)
}

/// The spend total of a category over an inclusive period.
pub open spec fn category_total(ts: Seq<Transaction>, category_id: i64, start: i64, end: i64) -> int {
    sum_txns(category_txns(ts, category_id, start, end))
}

/// Division truncated toward zero, for a strictly positive divisor; this is
/// how the machine's signed division rounds.
pub open spec fn trunc_div(a: int, b: int) -> int {
    if a >= 0 {
        a / b
    } else {
        -((-a) / b)
    }
}

/// The average spend of a category over an inclusive period, in cents,
/// truncated toward zero; zero where the category has no transactions in the
/// period.
pub open spec fn category_average(
    ts: Seq<Transaction>,
    category_id: i64,
    start: i64,
    end: i64,
) -> int {
    let s = category_txns(ts, category_id, start, end);
    if s.len() == 0 {
        0
    } else {
        trunc_div(category_total(ts, category_id, start, end), s.len() as int)
    }
}

/// Non-decreasing in date.
pub open spec fn date_sorted(s: Seq<Transaction>) -> bool {
    forall|i: int, j: int| 0 <= i < j < s.len() ==> #[trigger] s[i].date <= #[trigger] s[j].date
}

/// Inserts a transaction directly after the last element whose date does not
/// exceed its own; on a date-sorted sequence this is a stable insertion.
pub open spec fn insert_by_date(s: Seq<Transaction>, t: Transaction) -> Seq<Transaction>
    decreases s.len(),
{
    if s.len() == 0 {
        seq![t]
    } else if s.last().date <= t.date {
        s.push(t)
    } else {
        insert_by_date(s.drop_last(), t).push(s.last())
    }
}

/// A stable sort by date: each element in turn is inserted after the existing
/// elements whose date does not exceed its own, so equal dates keep their
/// stored order.
pub open spec fn sort_by_date(s: Seq<Transaction>) -> Seq<Transaction>
    decreases s.len(),
{
    if s.len() == 0 {
        Seq::empty()
    } else {
        insert_by_date(sort_by_date(s.drop_last()), s.last())
    }
}

pub proof fn lemma_sum_push(s: Seq<Transaction>, t: Transaction)
    ensures
        sum_txns(s.push(t)) == sum_txns(s) + t.amount,
{
    assert(s.push(t).drop_last() =~= s);
}

/// Appending an element to the scanned prefix extends it by that element.
pub proof fn lemma_take_push<A>(s: Seq<A>, i: int)
    requires
        0 <= i < s.len(),
    ensures
        s.take(i + 1) == s.take(i).push(s[i]),
{
    assert(s.take(i + 1) =~= s.take(i).push(s[i]));
}

/// How `filter` acts on an appended element.
pub proof fn lemma_filter_push<A>(s: Seq<A>, x: A, pred: spec_fn(A) -> bool)
    ensures
        s.push(x).filter(pred) == (if pred(x) {
            s.filter(pred).push(x)
        } else {
            s.filter(pred)
        }),
{
    reveal(Seq::filter);
    assert(s.push(x).drop_last() =~= s);
}

/// The sum of the amounts depends only on the multiset of transactions, not
/// on their order.
pub proof fn lemma_sum_permutation(s1: Seq<Transaction>, s2: Seq<Transaction>)
    requires
        s1.to_multiset() == s2.to_multiset(),
    ensures
        sum_txns(s1) == sum_txns(s2),
{
    let f = |acc: int, t: Transaction| acc + t.amount;
    assert(commutative_foldl(f)) by {
        assert forall|x: Transaction, y: Transaction, v: int| #[trigger]
            f(f(v, x), y) == f(f(v, y), x) by {}
    }
    lemma_fold_left_permutation(s1, s2, f, 0int);
}

pub proof fn lemma_insert_by_date_multiset(s: Seq<Transaction>, t: Transaction)
    ensures
        insert_by_date(s, t).to_multiset() =~= s.to_multiset().insert(t),
        insert_by_date(s, t).len() == s.len() + 1,
    decreases s.len(),
{
    broadcast use vstd::seq_lib::group_to_multiset_ensures;

    if s.len() == 0 {
        assert(seq![t] =~= Seq::empty().push(t));
        assert(Seq::<Transaction>::empty().to_multiset() =~= Multiset::empty());
    } else if s.last().date <= t.date {
        assert(s.push(t).to_multiset() =~= s.to_multiset().insert(t));
    } else {
        lemma_insert_by_date_multiset(s.drop_last(), t);
        assert(s.drop_last().push(s.last()) =~= s);
        assert(s.drop_last().push(s.last()).to_multiset() =~= s.drop_last().to_multiset().insert(
            s.last(),
        ));
        assert(insert_by_date(s.drop_last(), t).push(s.last()).to_multiset()
            =~= insert_by_date(s.drop_last(), t).to_multiset().insert(s.last()));
        assert(s.drop_last().to_multiset().insert(t).insert(s.last()) =~= s.drop_last()
            .to_multiset().insert(s.last()).insert(t));
    }
}

pub proof fn lemma_insert_by_date_sorted(s: Seq<Transaction>, t: Transaction)
    requires
        date_sorted(s),
    ensures
        date_sorted(insert_by_date(s, t)),
    decreases s.len(),
{
    broadcast use vstd::seq_lib::group_to_multiset_ensures;

    if s.len() == 0 {
    } else if s.last().date <= t.date {
        assert forall|i: int, j: int| 0 <= i < j < s.push(t).len() implies #[trigger] s.push(
            t,
        )[i].date <= #[trigger] s.push(t)[j].date by {
            if j < s.len() {
            } else {
                assert(s.push(t)[j] == t);
                if i < s.len() - 1 {
                    assert(s[i].date <= s[s.len() - 1].date);
                }
            }
        }
    } else {
        assert(date_sorted(s.drop_last())) by {
            assert forall|i: int, j: int| 0 <= i < j < s.drop_last().len() implies #[trigger] s
                .drop_last()[i].date <= #[trigger] s.drop_last()[j].date by {
                assert(s[i].date <= s[j].date);
            }
        }
        lemma_insert_by_date_sorted(s.drop_last(), t);
        lemma_insert_by_date_multiset(s.drop_last(), t);
        let w = insert_by_date(s.drop_last(), t);
        // every element of `w` is either `t` or an element of `s.drop_last()`,
        // and both have dates at most `s.last().date`
        assert forall|i: int| 0 <= i < w.len() implies #[trigger] w[i].date <= s.last().date by {
            assert(w.contains(w[i]));
            assert(w.to_multiset().count(w[i]) > 0);
            if w[i] == t {
            } else {
                assert(s.drop_last().to_multiset().count(w[i]) > 0);
                assert(s.drop_last().contains(w[i]));
                let k = choose|k: int| 0 <= k < s.drop_last().len() && s.drop_last()[k] == w[i];
                assert(s[k].date <= s[s.len() - 1].date);
            }
        }
        assert forall|i: int, j: int| 0 <= i < j < w.push(s.last()).len() implies #[trigger] w.push(
            s.last(),
        )[i].date <= #[trigger] w.push(s.last())[j].date by {
            if j < w.len() {
            } else {
                assert(w.push(s.last())[i].date <= s.last().date);
            }
        }
    }
}

pub proof fn lemma_sort_by_date_ensures(s: Seq<Transaction>)
    ensures
        sort_by_date(s).to_multiset() =~= s.to_multiset(),
        sort_by_date(s).len() == s.len(),
        date_sorted(sort_by_date(s)),
        sum_txns(sort_by_date(s)) == sum_txns(s),
    decreases s.len(),
{
    broadcast use vstd::seq_lib::group_to_multiset_ensures;

    if s.len() == 0 {
        assert(Seq::<Transaction>::empty().to_multiset() =~= Multiset::empty());
    } else {
        lemma_sort_by_date_ensures(s.drop_last());
        lemma_insert_by_date_multiset(sort_by_date(s.drop_last()), s.last());
        lemma_insert_by_date_sorted(sort_by_date(s.drop_last()), s.last());
        assert(s.drop_last().push(s.last()) =~= s);
        assert(s.drop_last().push(s.last()).to_multiset() =~= s.drop_last().to_multiset().insert(
            s.last(),
        ));
        lemma_sum_permutation(sort_by_date(s), s);
    }
}

/// Where a stable insertion lands: directly before the first element whose
/// date is strictly greater.
pub proof fn lemma_insert_by_date_split(s: Seq<Transaction>, t: Transaction, p: int)
    requires
        date_sorted(s),
        0 <= p <= s.len(),
        forall|k: int| 0 <= k < p ==> #[trigger] s[k].date <= t.date,
        p == s.len() || s[p].date > t.date,
    ensures
        insert_by_date(s, t) == s.take(p) + seq![t] + s.skip(p),
    decreases s.len(),
{
    if s.len() == 0 {
        assert(insert_by_date(s, t) =~= s.take(p) + seq![t] + s.skip(p));
    } else if s.last().date <= t.date {
        // everything is at most t's date, so p must be the whole length
        assert(p == s.len()) by {
            if p < s.len() {
                assert(s[p].date <= s[s.len() - 1].date);
            }
        }
        assert(s.push(t) =~= s.take(p) + seq![t] + s.skip(p));
    } else {
        assert(p < s.len()) by {
            if p == s.len() {
                assert(s[s.len() - 1].date <= t.date);
            }
        }
        let s0 = s.drop_last();
        assert(date_sorted(s0)) by {
            assert forall|i: int, j: int| 0 <= i < j < s0.len() implies #[trigger] s0[i].date
                <= #[trigger] s0[j].date by {
                assert(s[i].date <= s[j].date);
            }
        }
        assert(forall|k: int| 0 <= k < p ==> #[trigger] s0[k].date <= t.date) by {
            assert(forall|k: int| 0 <= k < p ==> s0[k] == s[k]);
        }
        assert(p == s0.len() || s0[p].date > t.date);
        lemma_insert_by_date_split(s0, t, p);
        assert(insert_by_date(s0, t).push(s.last()) =~= s.take(p) + seq![t] + s.skip(p));
    }
}

} // verus!
