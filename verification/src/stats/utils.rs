//! Exact descriptive statistics of a list of whole numbers: the mean, the
//! median and the population variance, each as a fraction of two integers.
//!
//! Every statistic of an empty list is zero. A statistic whose exact value
//! cannot be held in 128-bit integers is `None`.

use vstd::prelude::*;
use vstd::relations::{sorted_by, total_ordering};
use vstd::seq_lib::{lemma_sorted_unique, to_multiset_build, to_multiset_insert};

verus! {

/// A rational number: `numerator` over `denominator`. The fraction is not
/// reduced to lowest terms.
#[derive(Clone, Copy, Debug, PartialEq, Eq, Structural)]
pub struct Fraction {
    pub numerator: i128,
    pub denominator: i128,
}

/// The fraction zero, as every statistic of an empty list gives it.
pub open spec fn zero_fraction() -> Fraction {
    Fraction { numerator: 0, denominator: 1 }
}

impl Fraction {
    /// Well-formedness: the denominator is positive.
    pub open spec fn wf(self) -> bool {
        self.denominator > 0
    }

    /// Whether the fraction is zero.
    pub fn is_zero(&self) -> (zero: bool)
        ensures
            zero == (self.numerator == 0),
    {
        self.numerator == 0
    }
}

/// Whether a whole number can be held in 128 bits.
pub open spec fn fits(value: int) -> bool {
    i128::MIN <= value <= i128::MAX
}

/// The sum of `values`.
pub open spec fn sum_of(values: Seq<i128>) -> int
    decreases values.len(),
{
    if values.len() == 0 {
        0
    } else {
        sum_of(values.drop_last()) + values.last()
    }
}

/// The sum of the squares of `values`.
pub open spec fn sum_of_squares(values: Seq<i128>) -> int
    decreases values.len(),
{
    if values.len() == 0 {
        0
    } else {
        sum_of_squares(values.drop_last()) + values.last() * values.last()
    }
}

/// Whether `values` can be added up one after the other in 128 bits: the sum
/// of every first part of them fits.
pub open spec fn running_sums_fit(values: Seq<i128>) -> bool {
    forall|k: int| 0 <= k <= values.len() ==> fits(sum_of(#[trigger] values.take(k)))
}

/// The order of whole numbers, as a relation.
pub open spec fn at_most() -> spec_fn(i128, i128) -> bool {
    |a: i128, b: i128| a <= b
}

/// `values` in ascending order.
pub open spec fn ascending(values: Seq<i128>) -> Seq<i128> {
    values.sort_by(at_most())
}

/// The mean of `values`: their sum over their number. `None` where they
/// cannot be added up in 128 bits.
pub open spec fn mean_of(values: Seq<i128>) -> Option<Fraction> {
    if values.len() == 0 {
        Some(zero_fraction())
    } else if running_sums_fit(values) {
        Some(Fraction { numerator: sum_of(values) as i128, denominator: values.len() as i128 })
    } else {
        None
    }
}

/// The median of `values`: the middle one of them in ascending order, or
/// the two middle ones over two where their number is even. `None` where the
/// sum of the two middle ones cannot be held in 128 bits.
pub open spec fn median_of(values: Seq<i128>) -> Option<Fraction> {
    let sorted = ascending(values);
    let half = (values.len() / 2) as int;
    if values.len() == 0 {
        Some(zero_fraction())
    } else if values.len() % 2 == 1 {
        Some(Fraction { numerator: sorted[half], denominator: 1 })
    } else if fits(sorted[half - 1] + sorted[half]) {
        Some(Fraction { numerator: (sorted[half - 1] + sorted[half]) as i128, denominator: 2 })
    } else {
        None
    }
}

/// The numerator of the population variance of `values` over the square of
/// their number: the number times the sum of squares, less the square of the
/// sum.
pub open spec fn variance_numerator(values: Seq<i128>) -> int {
    values.len() * sum_of_squares(values) - sum_of(values) * sum_of(values)
}

/// Whether the population variance of `values` can be held as a fraction of
/// two 128-bit integers, each term of its numerator included.
pub open spec fn variance_fits(values: Seq<i128>) -> bool {
    &&& running_sums_fit(values)
    &&& values.len() * sum_of_squares(values) <= i128::MAX
    &&& sum_of(values) * sum_of(values) <= i128::MAX
    &&& values.len() * values.len() <= i128::MAX
}

/// The population variance of `values`: the mean of the squared deviations
/// from the mean, which is [`variance_numerator`] over the square of their
/// number. `None` where it cannot be held: see [`variance_fits`].
pub open spec fn variance_of(values: Seq<i128>) -> Option<Fraction> {
    if values.len() == 0 {
        Some(zero_fraction())
    } else if variance_fits(values) {
        Some(
            Fraction {
                numerator: variance_numerator(values) as i128,
                denominator: (values.len() * values.len()) as i128,
            },
        )
    } else {
        None
    }
}

/// The sum of squares is not negative and grows with every value added.
pub proof fn lemma_sum_of_squares_grows(values: Seq<i128>, n: int)
    requires
        0 <= n <= values.len(),
    ensures
        0 <= sum_of_squares(values.take(n)) <= sum_of_squares(values),
    decreases values.len() - n,
{
    if n == values.len() {
        assert(values.take(n) =~= values);
        lemma_squares_are_not_negative(values);
    } else {
        lemma_sum_of_squares_grows(values, n + 1);
        let longer = values.take(n + 1);
        assert(longer.drop_last() =~= values.take(n));
        assert(longer.last() * longer.last() >= 0) by (nonlinear_arith);
        lemma_squares_are_not_negative(values.take(n));
    }
}

/// The sum of squares is not negative.
pub proof fn lemma_squares_are_not_negative(values: Seq<i128>)
    ensures
        0 <= sum_of_squares(values),
    decreases values.len(),
{
    if values.len() > 0 {
        lemma_squares_are_not_negative(values.drop_last());
        assert(values.last() * values.last() >= 0) by (nonlinear_arith);
    }
}

/// Values that each lie within `bound` of zero add up to within their number
/// times `bound`.
pub proof fn lemma_sum_within_bound(values: Seq<i128>, bound: int)
    requires
        0 <= bound,
        forall|i: int| 0 <= i < values.len() ==> -bound <= #[trigger] values[i] <= bound,
    ensures
        -(values.len() * bound) <= sum_of(values) <= values.len() * bound,
    decreases values.len(),
{
    if values.len() > 0 {
        let front = values.drop_last();
        assert forall|i: int| 0 <= i < front.len() implies -bound <= #[trigger] front[i]
            <= bound by {
            assert(front[i] == values[i]);
        }
        lemma_sum_within_bound(front, bound);
        assert(values.len() * bound == front.len() * bound + bound) by (nonlinear_arith)
            requires
                values.len() == front.len() + 1,
        ;
    } else {
        assert(values.len() * bound == 0) by (nonlinear_arith)
            requires
                values.len() == 0,
        ;
    }
}

/// Values that each lie within `bound` of zero can be added up in 128 bits
/// where their number times `bound` fits.
pub proof fn lemma_bounded_values_add_up(values: Seq<i128>, bound: int)
    requires
        0 <= bound,
        forall|i: int| 0 <= i < values.len() ==> -bound <= #[trigger] values[i] <= bound,
        values.len() * bound <= i128::MAX,
    ensures
        running_sums_fit(values),
{
    assert forall|k: int| 0 <= k <= values.len() implies fits(sum_of(#[trigger] values.take(k))) by {
        let part = values.take(k);
        assert forall|i: int| 0 <= i < part.len() implies -bound <= #[trigger] part[i] <= bound by {
            assert(part[i] == values[i]);
        }
        lemma_sum_within_bound(part, bound);
        assert(part.len() * bound <= values.len() * bound) by (nonlinear_arith)
            requires
                part.len() <= values.len(),
                0 <= bound,
        ;
    }
}

/// Sorting keeps every value within the bounds that all values lie in.
pub proof fn lemma_ascending_keeps_bounds(values: Seq<i128>, low: int, high: int)
    requires
        forall|i: int| 0 <= i < values.len() ==> low <= #[trigger] values[i] <= high,
    ensures
        ascending(values).len() == values.len(),
        forall|i: int| 0 <= i < values.len() ==> low <= #[trigger] ascending(values)[i] <= high,
{
    broadcast use vstd::seq_lib::group_to_multiset_ensures;

    lemma_at_most_is_total_order();
    values.lemma_sort_by_ensures(at_most());
    let sorted = ascending(values);
    assert(sorted.len() == sorted.to_multiset().len());
    assert(values.len() == values.to_multiset().len());
    assert forall|i: int| 0 <= i < values.len() implies low <= #[trigger] sorted[i] <= high by {
        assert(sorted.contains(sorted[i]));
        assert(sorted.to_multiset().count(sorted[i]) > 0);
        assert(values.to_multiset().count(sorted[i]) > 0);
        assert(values.contains(sorted[i]));
        let j = choose|j: int| 0 <= j < values.len() && values[j] == sorted[i];
        assert(low <= values[j] <= high);
    }
}

/// The order of whole numbers is a total order.
pub proof fn lemma_at_most_is_total_order()
    ensures
        total_ordering(at_most()),
{
    let leq = at_most();
    assert(vstd::relations::reflexive(leq));
    assert(vstd::relations::antisymmetric(leq));
    assert(vstd::relations::transitive(leq));
    assert(vstd::relations::strongly_connected(leq));
}

/// The sum of `values`, or `None` where they cannot be added up in 128
/// bits.
fn sum(values: &Vec<i128>) -> (total: Option<i128>)
    ensures
        match total {
            Some(total) => running_sums_fit(values@) && total == sum_of(values@),
            None => !running_sums_fit(values@),
        },
{
    let mut total: i128 = 0;
    let mut i: usize = 0;
    proof {
        assert(values@.take(0) =~= Seq::<i128>::empty());
    }
    while i < values.len()
        invariant
            i <= values.len(),
            total == sum_of(values@.take(i as int)),
            forall|k: int| 0 <= k <= i ==> fits(sum_of(#[trigger] values@.take(k))),
        decreases values.len() - i,
    {
        proof {
            assert(values@.take(i + 1).drop_last() =~= values@.take(i as int));
        }
        match total.checked_add(values[i]) {
            Some(more) => {
                total = more;
            },
            None => {
                assert(!fits(sum_of(values@.take(i + 1))));
                return None;
            },
        }
        i += 1;
    }
    proof {
        assert(values@.take(i as int) =~= values@);
    }
    Some(total)
}

/// The mean of `values`, or zero where there are none. `None` where the
/// values cannot be added up in 128 bits.
pub fn mean(values: &Vec<i128>) -> (average: Option<Fraction>)
    ensures
        average == mean_of(values@),
        average matches Some(fraction) ==> fraction.wf() && fraction.denominator
            <= 0xffff_ffff_ffff_ffff,
        average matches Some(fraction) ==> values@.len() > 0 ==> fraction.numerator == sum_of(
            values@,
        ) && fraction.denominator == values@.len(),
{
    let count: usize = values.len();
    if count == 0 {
        return Some(Fraction { numerator: 0, denominator: 1 });
    }
    match sum(values) {
        Some(total) => Some(Fraction { numerator: total, denominator: count as i128 }),
        None => None,
    }
}

/// A copy of `values` in ascending order.
fn ascending_copy(values: &Vec<i128>) -> (sorted: Vec<i128>)
    ensures
        sorted@ == ascending(values@),
        sorted@.len() == values@.len(),
{
    let mut sorted: Vec<i128> = Vec::new();
    let mut k: usize = 0;
    proof {
        assert(values@.take(0) =~= sorted@);
    }
    while k < values.len()
        invariant
            k <= values.len(),
            sorted@.len() == k,
            sorted_by(sorted@, at_most()),
            sorted@.to_multiset() == values@.take(k as int).to_multiset(),
        decreases values.len() - k,
    {
        let value: i128 = values[k];
        let mut p: usize = k;
        while p > 0 && sorted[p - 1] > value
            invariant
                p <= k,
                sorted@.len() == k,
                forall|i: int| p <= i < k ==> sorted@[i] > value,
            decreases p,
        {
            p -= 1;
        }
        let ghost before = sorted@;
        sorted.insert(p, value);
        proof {
            let after = sorted@;
            to_multiset_insert(before, p as int, value);
            assert(values@.take(k + 1) =~= values@.take(k as int).push(value));
            to_multiset_build(values@.take(k as int), value);
            assert forall|i: int, j: int| 0 <= i < j < after.len() implies #[trigger] at_most()(
                after[i],
                after[j],
            ) by {
                if j < p {
                    assert(at_most()(before[i], before[j]));
                } else if j == p {
                    if i < p - 1 {
                        assert(at_most()(before[i], before[p - 1]));
                    }
                } else if i == p {
                    assert(before[j - 1] > value);
                } else if i < p {
                    assert(at_most()(before[i], before[j - 1]));
                } else {
                    assert(at_most()(before[i - 1], before[j - 1]));
                }
            }
        }
        k += 1;
    }
    proof {
        assert(values@.take(k as int) =~= values@);
        lemma_at_most_is_total_order();
        values@.lemma_sort_by_ensures(at_most());
        lemma_sorted_unique(sorted@, values@.sort_by(at_most()), at_most());
    }
    sorted
}

/// The median of `values`, or zero where there are none. `None` where the
/// sum of the two middle values cannot be held in 128 bits.
pub fn median(values: &Vec<i128>) -> (middle: Option<Fraction>)
    ensures
        middle == median_of(values@),
        middle matches Some(fraction) ==> fraction.wf() && fraction.denominator <= 2,
{
    let count: usize = values.len();
    if count == 0 {
        return Some(Fraction { numerator: 0, denominator: 1 });
    }
    let sorted = ascending_copy(values);
    let half: usize = count / 2;
    if count % 2 == 1 {
        Some(Fraction { numerator: sorted[half], denominator: 1 })
    } else {
        match sorted[half - 1].checked_add(sorted[half]) {
            Some(both) => Some(Fraction { numerator: both, denominator: 2 }),
            None => None,
        }
    }
}

/// The population variance of `values`, or zero where there are none.
///
/// Returns `None` exactly where the variance cannot be held as a fraction of
/// two 128-bit integers.
pub fn variance(values: &Vec<i128>) -> (spread: Option<Fraction>)
    ensures
        spread == variance_of(values@),
        spread matches Some(fraction) ==> fraction.wf(),
{
    let count: usize = values.len();
    if count == 0 {
        return Some(Fraction { numerator: 0, denominator: 1 });
    }
    let total: i128 = match sum(values) {
        Some(total) => total,
        None => {
            return None;
        },
    };
    let mut squares: i128 = 0;
    let mut i: usize = 0;
    proof {
        assert(values@.take(0) =~= Seq::<i128>::empty());
    }
    while i < count
        invariant
            count == values.len(),
            count >= 1,
            i <= count,
            squares == sum_of_squares(values@.take(i as int)),
        decreases count - i,
    {
        let value: i128 = values[i];
        proof {
            assert(values@.take(i + 1).drop_last() =~= values@.take(i as int));
            assert(value * value >= 0) by (nonlinear_arith);
            lemma_sum_of_squares_grows(values@, i + 1);
            lemma_squares_are_not_negative(values@.take(i as int));
        }
        let more = match value.checked_mul(value) {
            Some(square) => squares.checked_add(square),
            None => None,
        };
        match more {
            Some(more) => {
                squares = more;
            },
            None => {
                proof {
                    assert(sum_of_squares(values@) > i128::MAX);
                    assert(count * sum_of_squares(values@) >= sum_of_squares(values@)) by (nonlinear_arith)
                        requires
                            count >= 1,
                            sum_of_squares(values@) >= 0,
                    ;
                }
                return None;
            },
        }
        i += 1;
    }
    proof {
        assert(values@.take(i as int) =~= values@);
        lemma_squares_are_not_negative(values@);
    }
    let size: i128 = count as i128;
    let scaled = match size.checked_mul(squares) {
        Some(scaled) => scaled,
        None => {
            proof {
                assert(size * squares >= 0) by (nonlinear_arith)
                    requires
                        size >= 1,
                        squares >= 0,
                ;
            }
            return None;
        },
    };
    let squared_total = match total.checked_mul(total) {
        Some(squared_total) => squared_total,
        None => {
            proof {
                assert(total * total >= 0) by (nonlinear_arith);
            }
            return None;
        },
    };
    let squared_size = match size.checked_mul(size) {
        Some(squared_size) => squared_size,
        None => {
            proof {
                assert(size * size >= 0) by (nonlinear_arith);
            }
            return None;
        },
    };
    proof {
        assert(squared_total >= 0) by (nonlinear_arith)
            requires
                squared_total == total * total,
        ;
        assert(squared_size > 0) by (nonlinear_arith)
            requires
                squared_size == size * size,
                size >= 1,
        ;
    }
    Some(Fraction { numerator: scaled - squared_total, denominator: squared_size })
}

} // verus!
