use vstd::prelude::*;

use crate::decimal::{decimal_digits, push_decimal};
use crate::errors::{is_eval_error, RuntimeError};
use crate::text::{push_str_chars, string_from_chars};

verus! {

/// The whole numbers from `start` up to, but not including, `end`: what `first..last`
/// denotes, with `end` one past `last`.
#[derive(Clone, Copy, Debug, PartialEq, Eq, Structural)]
pub struct IntegerRange {
    pub start: i64,
    pub end: i64,
}

impl IntegerRange {
    /// How many numbers the range holds.
    pub open spec fn spec_len(self) -> int {
        if self.end > self.start {
            self.end - self.start
        } else {
            0
        }
    }
}

/// The range written `first..last`, which holds both bounds.
pub fn range_from_bounds(first: i64, last: i64) -> (res: IntegerRange)
    requires
        last < i64::MAX,
    ensures
        res == (IntegerRange { start: first, end: (last + 1) as i64 }),
{
    IntegerRange { start: first, end: last + 1 }
}

/// The numbers of `r`, in increasing order, as a loop over the range visits them.
pub fn range_values(r: &IntegerRange) -> (res: Vec<i64>)
    ensures
        res@.len() == r.spec_len(),
        forall|i: int| 0 <= i < res@.len() ==> #[trigger] res@[i] == r.start + i,
{
    let mut out: Vec<i64> = Vec::new();
    let mut x = r.start;
    while x < r.end
        invariant
            r.start <= x,
            x <= r.end || r.end <= r.start,
            r.end <= r.start ==> x == r.start,
            out@.len() == x - r.start,
            forall|i: int| 0 <= i < out@.len() ==> #[trigger] out@[i] == r.start + i,
        decreases r.end - x,
    {
        out.push(x);
        x = x + 1;
    }
    out
}

/// How many numbers `r` holds, as `count` gives it.
pub fn range_count(r: &IntegerRange) -> (res: u64)
    ensures
        res == r.spec_len(),
{
    if r.end > r.start {
        (r.end as i128 - r.start as i128) as u64
    } else {
        0
    }
}

/// The smallest number of `r`, as `min` gives it; an empty range is an error.
pub fn range_min(r: &IntegerRange) -> (res: Result<i64, RuntimeError>)
    ensures
        r.spec_len() > 0 ==> res == Ok::<i64, RuntimeError>(r.start),
        r.spec_len() == 0 ==> res is Err && is_eval_error(
            res->Err_0,
            "Min is not implemented for this particular range"@,
        ),
{
    if r.start < r.end {
        Ok(r.start)
    } else {
        Err(RuntimeError::eval_error(String::from_str("Min is not implemented for this particular range")))
    }
}

/// The largest number of `r`, as `max` gives it; an empty range is an error.
pub fn range_max(r: &IntegerRange) -> (res: Result<i64, RuntimeError>)
    ensures
        r.spec_len() > 0 ==> res == Ok::<i64, RuntimeError>((r.end - 1) as i64),
        r.spec_len() == 0 ==> res is Err && is_eval_error(
            res->Err_0,
            "Max is not implemented for this particular range"@,
        ),
{
    if r.start < r.end {
        Ok(r.end - 1)
    } else {
        Err(RuntimeError::eval_error(String::from_str("Max is not implemented for this particular range")))
    }
}

/// The sum of the first `count` numbers from `start` on.
pub open spec fn spec_range_sum(start: int, count: nat) -> int
    decreases count,
{
    if count == 0 {
        0
    } else {
        spec_range_sum(start, (count - 1) as nat) + start + count - 1
    }
}

/// Every running sum of `r`, from its first number on, fits in 64 bits.
pub open spec fn spec_running_sums_fit(r: IntegerRange) -> bool {
    forall|m: nat| m <= r.spec_len() ==> i64::MIN <= #[trigger] spec_range_sum(r.start as int, m) <= i64::MAX
}

/// The sum of the numbers of `r`, as `sum` gives it.
pub fn range_sum(r: &IntegerRange) -> (res: i64)
    requires
        spec_running_sums_fit(*r),
    ensures
        res == spec_range_sum(r.start as int, r.spec_len() as nat),
{
    let n = range_count(r);
    let mut total: i64 = 0;
    let mut k: u64 = 0;
    while k < n
        invariant
            n == r.spec_len(),
            k <= n,
            spec_running_sums_fit(*r),
            total == spec_range_sum(r.start as int, k as nat),
        decreases n - k,
    {
        assert(i64::MIN <= spec_range_sum(r.start as int, (k + 1) as nat) <= i64::MAX);
        let x: i64 = (r.start as i128 + k as i128) as i64;
        total = total + x;
        k = k + 1;
    }
    total
}

/// How a whole number is written in decimal, with a leading `-` when negative.
pub open spec fn spec_signed_decimal(n: int) -> Seq<char> {
    if n < 0 {
        seq!['-'] + decimal_digits((-n) as nat)
    } else {
        decimal_digits(n as nat)
    }
}

/// Appends how the whole number `n` is written.
pub(crate) fn push_signed(out: &mut Vec<char>, n: i64)
    ensures
        final(out)@ == old(out)@ + spec_signed_decimal(n as int),
{
    if n < 0 {
        out.push('-');
        push_decimal(out, -(n as i128));
        assert(final(out)@ =~= old(out)@ + spec_signed_decimal(n as int));
    } else {
        push_decimal(out, n as i128);
    }
}

/// How the range `r` is shown: its first and last numbers around `..`.
pub open spec fn spec_range_code(r: IntegerRange) -> Seq<char> {
    spec_signed_decimal(r.start as int) + ".."@ + spec_signed_decimal(r.end - 1)
}

/// How the range `r` is shown.
pub fn range_to_code(r: &IntegerRange) -> (res: String)
    requires
        r.end > i64::MIN,
    ensures
        res@ == spec_range_code(*r),
{
    let mut out: Vec<char> = Vec::new();
    push_signed(&mut out, r.start);
    push_str_chars(&mut out, "..");
    push_signed(&mut out, r.end - 1);
    assert(out@ =~= spec_range_code(*r));
    string_from_chars(out.as_slice())
}

/// The range `first..last` holds `last - first + 1` numbers, from `first` to `last`, when
/// `first <= last`, and none otherwise.
pub proof fn lemma_range_bounds(first: i64, last: i64)
    requires
        last < i64::MAX,
    ensures
        ({
            let r = IntegerRange { start: first, end: (last + 1) as i64 };
            &&& first <= last ==> r.spec_len() == last - first + 1 && r.end - 1 == last
            &&& first > last ==> r.spec_len() == 0
        }),
{
}

/// The numbers of a range add up to its count times the mean of its first and last
/// numbers.
pub proof fn lemma_range_sum_formula(start: int, count: nat)
    ensures
        2 * spec_range_sum(start, count) == count * (2 * start + count - 1),
    decreases count,
{
    if count > 0 {
        let p = (count - 1) as nat;
        lemma_range_sum_formula(start, p);
        assert(2 * spec_range_sum(start, p) == p * (2 * start + p - 1));
        assert(2 * spec_range_sum(start, count) == 2 * spec_range_sum(start, p) + 2 * (start + count
            - 1));
        assert(p * (2 * start + p - 1) + 2 * (start + count - 1) == count * (2 * start + count - 1))
            by (nonlinear_arith)
            requires
                p == count - 1,
        ;
    } else {
        assert(count * (2 * start + count - 1) == 0) by (nonlinear_arith)
            requires
                count == 0,
        ;
    }
}

} // verus!
