use vstd::prelude::*;

use std::cmp::Ordering;

use crate::errors::{is_eval_error, RuntimeError};
use crate::operators::ComparatorEnum;
use crate::ranges::{push_signed, spec_signed_decimal};
use crate::text::{push_str_chars, string_from_chars};
use crate::types::{spec_special_value_name, SpecialValueEnum};

verus! {

/// A number of the language held exactly: a whole number, a fraction (numerator and
/// denominator), or the special value that stands where a number is not there. Numbers
/// with a fractional part written in decimals are floating-point numbers and are handled
/// outside this library.
#[derive(Clone, Copy, Debug, PartialEq, Eq, Structural)]
pub enum ExactNumber {
    Int(i64),
    Fraction(i64, i64),
    SV(SpecialValueEnum),
}

/// `n` with its sign flipped; special values stay.
pub open spec fn spec_negate(n: ExactNumber) -> ExactNumber {
    match n {
        ExactNumber::Int(v) => ExactNumber::Int((-v) as i64),
        ExactNumber::Fraction(a, b) => ExactNumber::Fraction((-a) as i64, b),
        other => other,
    }
}

/// Flipping the sign of `n` stays within 64 bits.
pub open spec fn spec_negate_fits(n: ExactNumber) -> bool {
    match n {
        ExactNumber::Int(v) => v != i64::MIN,
        ExactNumber::Fraction(a, _) => a != i64::MIN,
        _ => true,
    }
}

/// How a special value decides an operation on `left` and `right` once both are not whole
/// numbers: a missing value gives way to the other side (`missing_left` is what a missing
/// left side gives), any other special value wins, the left one first, and anything else,
/// a fraction meeting a number, is not found.
pub open spec fn spec_special_rule(left: ExactNumber, right: ExactNumber, missing_left: ExactNumber) -> ExactNumber {
    if left == ExactNumber::SV(SpecialValueEnum::Missing) {
        missing_left
    } else if right == ExactNumber::SV(SpecialValueEnum::Missing) {
        left
    } else if left is SV {
        left
    } else if right is SV {
        right
    } else {
        ExactNumber::SV(SpecialValueEnum::NotFound)
    }
}

/// `left + right`: whole numbers add; a missing side gives way to the other.
pub open spec fn spec_add(left: ExactNumber, right: ExactNumber) -> ExactNumber {
    match (left, right) {
        (ExactNumber::Int(a), ExactNumber::Int(b)) => ExactNumber::Int((a + b) as i64),
        _ => spec_special_rule(left, right, right),
    }
}

/// `left - right`: whole numbers subtract; a missing right side gives the left one, a
/// missing left side gives the right one negated.
pub open spec fn spec_sub(left: ExactNumber, right: ExactNumber) -> ExactNumber {
    match (left, right) {
        (ExactNumber::Int(a), ExactNumber::Int(b)) => ExactNumber::Int((a - b) as i64),
        _ => spec_special_rule(left, right, spec_negate(right)),
    }
}

/// `left * right`: whole numbers multiply; a missing side gives way to the other.
pub open spec fn spec_mul(left: ExactNumber, right: ExactNumber) -> ExactNumber {
    match (left, right) {
        (ExactNumber::Int(a), ExactNumber::Int(b)) => ExactNumber::Int((a * b) as i64),
        _ => spec_special_rule(left, right, right),
    }
}

/// The remainder of `a` divided by `b`, with the sign of `a`.
pub open spec fn spec_truncated_rem(a: int, b: int) -> int {
    if a >= 0 {
        a % b
    } else {
        -((-a) % b)
    }
}

/// `left % right`: the remainder of whole numbers, with the sign of the left one; a missing
/// left side stays missing, a missing right side gives the left one.
pub open spec fn spec_rem(left: ExactNumber, right: ExactNumber) -> ExactNumber {
    match (left, right) {
        (ExactNumber::Int(a), ExactNumber::Int(b)) => ExactNumber::Int(
            spec_truncated_rem(a as int, b as int) as i64,
        ),
        _ => spec_special_rule(left, right, ExactNumber::SV(SpecialValueEnum::Missing)),
    }
}

/// The two whole numbers, where both sides are whole numbers.
pub open spec fn spec_int_operands(left: ExactNumber, right: ExactNumber) -> Option<(int, int)> {
    match (left, right) {
        (ExactNumber::Int(a), ExactNumber::Int(b)) => Some((a as int, b as int)),
        _ => None,
    }
}

impl ExactNumber {
    /// The number with its sign flipped; special values stay.
    pub fn negate(&self) -> (res: ExactNumber)
        requires
            spec_negate_fits(*self),
        ensures
            res == spec_negate(*self),
    {
        match *self {
            ExactNumber::Int(v) => ExactNumber::Int(-v),
            ExactNumber::Fraction(a, b) => ExactNumber::Fraction(-a, b),
            other => other,
        }
    }

    /// Whether the number has a part after the point: a fraction with a denominator that is
    /// not zero.
    pub fn has_remaining(&self) -> (res: bool)
        ensures
            res == (match *self {
                ExactNumber::Fraction(_, b) => b != 0,
                _ => false,
            }),
    {
        match self {
            ExactNumber::Fraction(_, b) => *b != 0,
            _ => false,
        }
    }

    /// How the number is shown: the digits of a whole number, `a/b` for a fraction,
    /// `number.` and the name of a special value.
    pub fn to_code(&self) -> (res: String)
        ensures
            res@ == spec_number_code(*self),
    {
        let mut out: Vec<char> = Vec::new();
        match self {
            ExactNumber::Int(v) => push_signed(&mut out, *v),
            ExactNumber::Fraction(a, b) => {
                push_signed(&mut out, *a);
                out.push('/');
                push_signed(&mut out, *b);
            },
            ExactNumber::SV(sv) => {
                push_str_chars(&mut out, "number.");
                push_str_chars(&mut out, sv.as_str());
            },
        }
        assert(out@ =~= spec_number_code(*self));
        string_from_chars(out.as_slice())
    }
}

/// How a number is shown.
pub open spec fn spec_number_code(n: ExactNumber) -> Seq<char> {
    match n {
        ExactNumber::Int(v) => spec_signed_decimal(v as int),
        ExactNumber::Fraction(a, b) => spec_signed_decimal(a as int) + seq!['/']
            + spec_signed_decimal(b as int),
        ExactNumber::SV(sv) => "number."@ + spec_special_value_name(sv),
    }
}

/// How a special value decides an operation once the two sides are not both whole numbers.
fn special_rule(left: ExactNumber, right: ExactNumber, missing_left: ExactNumber) -> (res: ExactNumber)
    ensures
        res == spec_special_rule(left, right, missing_left),
{
    match (left, right) {
        (ExactNumber::SV(SpecialValueEnum::Missing), _) => missing_left,
        (_, ExactNumber::SV(SpecialValueEnum::Missing)) => left,
        (ExactNumber::SV(_), _) => left,
        (_, ExactNumber::SV(_)) => right,
        _ => ExactNumber::SV(SpecialValueEnum::NotFound),
    }
}

/// `left + right`.
pub fn add_numbers(left: ExactNumber, right: ExactNumber) -> (res: ExactNumber)
    requires
        spec_int_operands(left, right) matches Some((a, b)) ==> i64::MIN <= a + b <= i64::MAX,
    ensures
        res == spec_add(left, right),
{
    match (left, right) {
        (ExactNumber::Int(a), ExactNumber::Int(b)) => ExactNumber::Int(a + b),
        _ => special_rule(left, right, right),
    }
}

/// `left - right`.
pub fn sub_numbers(left: ExactNumber, right: ExactNumber) -> (res: ExactNumber)
    requires
        spec_int_operands(left, right) matches Some((a, b)) ==> i64::MIN <= a - b <= i64::MAX,
        left == ExactNumber::SV(SpecialValueEnum::Missing) ==> spec_negate_fits(right),
    ensures
        res == spec_sub(left, right),
{
    match (left, right) {
        (ExactNumber::Int(a), ExactNumber::Int(b)) => ExactNumber::Int(a - b),
        _ => {
            let negated = if left == ExactNumber::SV(SpecialValueEnum::Missing) {
                right.negate()
            } else {
                right
            };
            let res = special_rule(left, right, negated);
            res
        },
    }
}

/// `left * right`.
pub fn mul_numbers(left: ExactNumber, right: ExactNumber) -> (res: ExactNumber)
    requires
        spec_int_operands(left, right) matches Some((a, b)) ==> i64::MIN <= a * b <= i64::MAX,
    ensures
        res == spec_mul(left, right),
{
    match (left, right) {
        (ExactNumber::Int(a), ExactNumber::Int(b)) => ExactNumber::Int(a * b),
        _ => special_rule(left, right, right),
    }
}

/// `left % right`.
pub fn rem_numbers(left: ExactNumber, right: ExactNumber) -> (res: ExactNumber)
    requires
        spec_int_operands(left, right) matches Some((a, b)) ==> b != 0 && !(a == i64::MIN && b
            == -1),
    ensures
        res == spec_rem(left, right),
{
    match (left, right) {
        (ExactNumber::Int(a), ExactNumber::Int(b)) => ExactNumber::Int(a % b),
        _ => special_rule(left, right, ExactNumber::SV(SpecialValueEnum::Missing)),
    }
}

/// A missing number gives way in sums and products: adding or multiplying it to any number,
/// on either side, gives that number; subtracting it gives the left side, and subtracting
/// from it gives the right side negated.
pub proof fn lemma_missing_gives_way(n: ExactNumber)
    ensures
        spec_add(ExactNumber::SV(SpecialValueEnum::Missing), n) == n,
        spec_add(n, ExactNumber::SV(SpecialValueEnum::Missing)) == n,
        spec_mul(ExactNumber::SV(SpecialValueEnum::Missing), n) == n,
        spec_mul(n, ExactNumber::SV(SpecialValueEnum::Missing)) == n,
        spec_sub(n, ExactNumber::SV(SpecialValueEnum::Missing)) == n,
        spec_sub(ExactNumber::SV(SpecialValueEnum::Missing), n) == spec_negate(n),
{
}

/// A special value other than missing wins over any number it meets that is not missing,
/// in sums, differences, products and remainders, on the left.
pub proof fn lemma_special_value_wins(sv: SpecialValueEnum, n: ExactNumber)
    requires
        sv != SpecialValueEnum::Missing,
        n != ExactNumber::SV(SpecialValueEnum::Missing),
    ensures
        spec_add(ExactNumber::SV(sv), n) == ExactNumber::SV(sv),
        spec_sub(ExactNumber::SV(sv), n) == ExactNumber::SV(sv),
        spec_mul(ExactNumber::SV(sv), n) == ExactNumber::SV(sv),
        spec_rem(ExactNumber::SV(sv), n) == ExactNumber::SV(sv),
{
}

/// How `left` orders against `right`: whole numbers by value; a missing number comes
/// before anything, itself included, and anything else comes after a missing number; there
/// is no order otherwise.
pub open spec fn number_order(left: ExactNumber, right: ExactNumber) -> Option<Ordering> {
    match (left, right) {
        (ExactNumber::Int(a), ExactNumber::Int(b)) => Some(
            if a < b {
                Ordering::Less
            } else if a == b {
                Ordering::Equal
            } else {
                Ordering::Greater
            },
        ),
        (ExactNumber::SV(SpecialValueEnum::Missing), _) => Some(Ordering::Less),
        (_, ExactNumber::SV(SpecialValueEnum::Missing)) => Some(Ordering::Greater),
        _ => None,
    }
}

/// How `left` orders against `right`.
pub fn compare_numbers(left: &ExactNumber, right: &ExactNumber) -> (res: Option<Ordering>)
    ensures
        res == number_order(*left, *right),
{
    match (left, right) {
        (ExactNumber::Int(a), ExactNumber::Int(b)) => Some(
            if *a < *b {
                Ordering::Less
            } else if *a == *b {
                Ordering::Equal
            } else {
                Ordering::Greater
            },
        ),
        (ExactNumber::SV(SpecialValueEnum::Missing), _) => Some(Ordering::Less),
        (_, ExactNumber::SV(SpecialValueEnum::Missing)) => Some(Ordering::Greater),
        _ => None,
    }
}

/// `left comparator right` on numbers: `=` and `<>` compare the numbers as they are, the
/// other comparators go by how they order, and hold only where there is an order.
pub open spec fn numbers_compare(left: ExactNumber, comparator: ComparatorEnum, right: ExactNumber) -> bool {
    let order = number_order(left, right);
    match comparator {
        ComparatorEnum::Equals => left == right,
        ComparatorEnum::NotEquals => left != right,
        ComparatorEnum::Less => order == Some(Ordering::Less),
        ComparatorEnum::Greater => order == Some(Ordering::Greater),
        ComparatorEnum::LessEquals => order == Some(Ordering::Less) || order == Some(
            Ordering::Equal,
        ),
        ComparatorEnum::GreaterEquals => order == Some(Ordering::Greater) || order == Some(
            Ordering::Equal,
        ),
    }
}

/// `left comparator right` on numbers.
pub fn compare_exact_numbers(left: &ExactNumber, comparator: ComparatorEnum, right: &ExactNumber) -> (res: bool)
    ensures
        res == numbers_compare(*left, comparator, *right),
{
    let order = compare_numbers(left, right);
    match comparator {
        ComparatorEnum::Equals => *left == *right,
        ComparatorEnum::NotEquals => *left != *right,
        ComparatorEnum::Less => matches!(order, Some(Ordering::Less)),
        ComparatorEnum::Greater => matches!(order, Some(Ordering::Greater)),
        ComparatorEnum::LessEquals => matches!(order, Some(Ordering::Less) | Some(Ordering::Equal)),
        ComparatorEnum::GreaterEquals => matches!(
            order,
            Some(Ordering::Greater) | Some(Ordering::Equal)
        ),
    }
}

/// Adding up `values` from the left: nothing for no values, the first value, then each
/// next value added to the running total.
pub open spec fn spec_sum_upto(values: Seq<ExactNumber>, k: int) -> Option<ExactNumber>
    decreases k,
{
    if k <= 0 {
        None
    } else {
        match spec_sum_upto(values, k - 1) {
            None => Some(values[k - 1]),
            Some(total) => Some(spec_add(total, values[k - 1])),
        }
    }
}

/// Every whole-number addition made while adding up `values` stays within 64 bits.
pub open spec fn spec_sums_fit(values: Seq<ExactNumber>) -> bool {
    forall|k: int|
        1 <= k < values.len() ==> (#[trigger] spec_sum_upto(values, k) matches Some(total) ==> (
        spec_int_operands(total, values[k]) matches Some((a, b)) ==> i64::MIN <= a + b
            <= i64::MAX))
}

/// The `sum` function on a list of numbers: the values added up from the left, or a missing
/// number for no values.
pub fn eval_sum_numbers(values: &Vec<ExactNumber>) -> (res: ExactNumber)
    requires
        spec_sums_fit(values@),
    ensures
        res == (match spec_sum_upto(values@, values@.len() as int) {
            Some(total) => total,
            None => ExactNumber::SV(SpecialValueEnum::Missing),
        }),
{
    let mut acc: Option<ExactNumber> = None;
    let mut i: usize = 0;
    while i < values.len()
        invariant
            i <= values@.len(),
            spec_sums_fit(values@),
            acc == spec_sum_upto(values@, i as int),
        decreases values@.len() - i,
    {
        acc = match acc {
            None => Some(values[i]),
            Some(total) => {
                assert(i >= 1) by {
                    if i == 0 {
                        assert(spec_sum_upto(values@, 0) is None);
                    }
                }
                assert(spec_sum_upto(values@, i as int) matches Some(t) ==> (spec_int_operands(
                    t,
                    values@[i as int],
                ) matches Some((a, b)) ==> i64::MIN <= a + b <= i64::MAX));
                Some(add_numbers(total, values[i]))
            },
        };
        i = i + 1;
    }
    match acc {
        Some(total) => total,
        None => ExactNumber::SV(SpecialValueEnum::Missing),
    }
}

/// Whether `a` orders before `b`.
pub open spec fn spec_orders_before(a: ExactNumber, b: ExactNumber) -> bool {
    number_order(a, b) == Some(Ordering::Less)
}

/// Whether `a` orders before `b`.
pub fn orders_before(a: &ExactNumber, b: &ExactNumber) -> (res: bool)
    ensures
        res == spec_orders_before(*a, *b),
{
    matches!(compare_numbers(a, b), Some(Ordering::Less))
}

/// The largest of `values` from the left: the first value, replaced by each next value that
/// it orders before.
pub open spec fn spec_max_upto(values: Seq<ExactNumber>, k: int) -> Option<ExactNumber>
    decreases k,
{
    if k <= 0 {
        None
    } else {
        match spec_max_upto(values, k - 1) {
            None => Some(values[k - 1]),
            Some(m) => Some(
                if spec_orders_before(m, values[k - 1]) {
                    values[k - 1]
                } else {
                    m
                },
            ),
        }
    }
}

/// The smallest of `values` from the left: the first value, replaced by each next value
/// that orders before it.
pub open spec fn spec_min_upto(values: Seq<ExactNumber>, k: int) -> Option<ExactNumber>
    decreases k,
{
    if k <= 0 {
        None
    } else {
        match spec_min_upto(values, k - 1) {
            None => Some(values[k - 1]),
            Some(m) => Some(
                if spec_orders_before(values[k - 1], m) {
                    values[k - 1]
                } else {
                    m
                },
            ),
        }
    }
}

/// The `max` function on a list of numbers, or a missing number for no values.
pub fn eval_max_numbers(values: &Vec<ExactNumber>) -> (res: ExactNumber)
    ensures
        res == (match spec_max_upto(values@, values@.len() as int) {
            Some(m) => m,
            None => ExactNumber::SV(SpecialValueEnum::Missing),
        }),
{
    let mut best: Option<ExactNumber> = None;
    let mut i: usize = 0;
    while i < values.len()
        invariant
            i <= values@.len(),
            best == spec_max_upto(values@, i as int),
        decreases values@.len() - i,
    {
        let n = values[i];
        best = match best {
            None => Some(n),
            Some(m) => Some(
                if orders_before(&m, &n) {
                    n
                } else {
                    m
                },
            ),
        };
        i = i + 1;
    }
    match best {
        Some(m) => m,
        None => ExactNumber::SV(SpecialValueEnum::Missing),
    }
}

/// The `min` function on a list of numbers, or a missing number for no values.
pub fn eval_min_numbers(values: &Vec<ExactNumber>) -> (res: ExactNumber)
    ensures
        res == (match spec_min_upto(values@, values@.len() as int) {
            Some(m) => m,
            None => ExactNumber::SV(SpecialValueEnum::Missing),
        }),
{
    let mut best: Option<ExactNumber> = None;
    let mut i: usize = 0;
    while i < values.len()
        invariant
            i <= values@.len(),
            best == spec_min_upto(values@, i as int),
        decreases values@.len() - i,
    {
        let n = values[i];
        best = match best {
            None => Some(n),
            Some(m) => Some(
                if orders_before(&n, &m) {
                    n
                } else {
                    m
                },
            ),
        };
        i = i + 1;
    }
    match best {
        Some(m) => m,
        None => ExactNumber::SV(SpecialValueEnum::Missing),
    }
}

/// Multiplying `values` from the left: nothing for no values, the first value, then each
/// next value multiplied into the running product.
pub open spec fn spec_product_upto(values: Seq<ExactNumber>, k: int) -> Option<ExactNumber>
    decreases k,
{
    if k <= 0 {
        None
    } else {
        match spec_product_upto(values, k - 1) {
            None => Some(values[k - 1]),
            Some(total) => Some(spec_mul(total, values[k - 1])),
        }
    }
}

/// Every whole-number multiplication made while multiplying `values` stays within 64 bits.
pub open spec fn spec_products_fit(values: Seq<ExactNumber>) -> bool {
    forall|k: int|
        1 <= k < values.len() ==> (#[trigger] spec_product_upto(values, k) matches Some(total) ==> (
        spec_int_operands(total, values[k]) matches Some((a, b)) ==> i64::MIN <= a * b
            <= i64::MAX))
}

/// The `product` function on a list of numbers: the values multiplied from the left, or a
/// missing number for no values.
pub fn eval_product_numbers(values: &Vec<ExactNumber>) -> (res: ExactNumber)
    requires
        spec_products_fit(values@),
    ensures
        res == (match spec_product_upto(values@, values@.len() as int) {
            Some(total) => total,
            None => ExactNumber::SV(SpecialValueEnum::Missing),
        }),
{
    let mut acc: Option<ExactNumber> = None;
    let mut i: usize = 0;
    while i < values.len()
        invariant
            i <= values@.len(),
            spec_products_fit(values@),
            acc == spec_product_upto(values@, i as int),
        decreases values@.len() - i,
    {
        acc = match acc {
            None => Some(values[i]),
            Some(total) => {
                assert(i >= 1) by {
                    if i == 0 {
                        assert(spec_product_upto(values@, 0) is None);
                    }
                }
                assert(spec_product_upto(values@, i as int) matches Some(t) ==> (spec_int_operands(
                    t,
                    values@[i as int],
                ) matches Some((a, b)) ==> i64::MIN <= a * b <= i64::MAX));
                Some(mul_numbers(total, values[i]))
            },
        };
        i = i + 1;
    }
    match acc {
        Some(total) => total,
        None => ExactNumber::SV(SpecialValueEnum::Missing),
    }
}

/// `a` raised to the power `n`.
pub open spec fn spec_power(a: int, n: nat) -> int
    decreases n,
{
    if n == 0 {
        1
    } else {
        a * spec_power(a, (n - 1) as nat)
    }
}

/// The size of a power of a number other than zero does not shrink as the exponent grows.
proof fn lemma_power_grows(a: int, k: nat, n: nat)
    requires
        a <= -1 || a >= 1,
        k <= n,
    ensures
        abs_of(spec_power(a, k)) <= abs_of(spec_power(a, n)),
    decreases n - k,
{
    if k < n {
        lemma_power_grows(a, k, (n - 1) as nat);
        let p = spec_power(a, (n - 1) as nat);
        assert(spec_power(a, n) == a * p);
        assert(abs_of(a * p) == abs_of(a) * abs_of(p)) by (nonlinear_arith);
        assert(abs_of(a) * abs_of(p) >= abs_of(p)) by (nonlinear_arith)
            requires
                abs_of(a) >= 1,
                abs_of(p) >= 0,
        ;
    }
}

/// The size of a whole number.
pub open spec fn abs_of(x: int) -> int {
    if x < 0 {
        -x
    } else {
        x
    }
}

/// The message for raising `left` to the power `right` where one of them is not a whole
/// number.
pub open spec fn spec_power_message(left: ExactNumber, right: ExactNumber) -> Seq<char> {
    "Operator '^' is not implemented for '"@ + spec_number_code(left) + " ^ "@ + spec_number_code(
        right,
    ) + "'"@
}

/// `left ^ right`: a whole number raised to a whole number, the exponent taken as an
/// unsigned 32-bit number; anything else is an error naming both sides.
pub fn pow_numbers(left: ExactNumber, right: ExactNumber) -> (res: Result<ExactNumber, RuntimeError>)
    requires
        spec_int_operands(left, right) matches Some((a, b)) ==> i64::MIN <= spec_power(
            a,
            ((b as i64) as u32) as nat,
        ) <= i64::MAX,
    ensures
        match (left, right) {
            (ExactNumber::Int(a), ExactNumber::Int(b)) => res == Ok::<ExactNumber, RuntimeError>(
                ExactNumber::Int(spec_power(a as int, (b as u32) as nat) as i64),
            ),
            _ => res is Err && is_eval_error(res->Err_0, spec_power_message(left, right)),
        },
{
    match (left, right) {
        (ExactNumber::Int(a), ExactNumber::Int(b)) => {
            let e: u32 = b as u32;
            let ghost target = spec_power(a as int, e as nat);
            if a == 0 {
                proof {
                    lemma_power_of_small(a as int, e as nat);
                }
                return Ok(ExactNumber::Int(if e == 0 { 1 } else { 0 }));
            }
            if a == 1 || a == -1 {
                proof {
                    lemma_power_of_unit_parity(a as int, e as nat);
                }
                return Ok(ExactNumber::Int(if a == 1 || e % 2 == 0 { 1 } else { -1 }));
            }
            let mut acc: i64 = 1;
            let mut k: u32 = 0;
            while k < e
                invariant
                    a != 0 && a != 1 && a != -1,
                    k <= e,
                    acc == spec_power(a as int, k as nat),
                    target == spec_power(a as int, e as nat),
                    i64::MIN <= target <= i64::MAX,
                decreases e - k,
            {
                proof {
                    let next = spec_power(a as int, (k + 1) as nat);
                    assert(next == a * spec_power(a as int, k as nat));
                    assert(acc * a == next) by (nonlinear_arith)
                        requires
                            next == a * acc,
                    ;
                    if k + 1 < e {
                        lemma_power_grows(a as int, (k + 1) as nat, (e - 1) as nat);
                        let q = spec_power(a as int, (e - 1) as nat);
                        assert(target == a * q);
                        assert(abs_of(a * q) == abs_of(a as int) * abs_of(q)) by (nonlinear_arith);
                        assert(abs_of(q) * 2 <= abs_of(a as int) * abs_of(q)) by (nonlinear_arith)
                            requires
                                abs_of(a as int) >= 2,
                                abs_of(q) >= 0,
                        ;
                        assert(abs_of(next) <= abs_of(q));
                        assert(abs_of(target) == abs_of(a as int) * abs_of(q));
                    }
                }
                acc = acc * a;
                k = k + 1;
            }
            Ok(ExactNumber::Int(acc))
        },
        _ => {
            let mut out: Vec<char> = Vec::new();
            push_str_chars(&mut out, "Operator '^' is not implemented for '");
            let l = left.to_code();
            push_str_chars(&mut out, l.as_str());
            push_str_chars(&mut out, " ^ ");
            let r = right.to_code();
            push_str_chars(&mut out, r.as_str());
            push_str_chars(&mut out, "'");
            assert(out@ =~= spec_power_message(left, right));
            Err(RuntimeError::eval_error(string_from_chars(out.as_slice())))
        },
    }
}

/// Powers of one are one; powers of minus one are one for even exponents and minus one for
/// odd ones.
proof fn lemma_power_of_unit_parity(a: int, n: nat)
    requires
        a == 1 || a == -1,
    ensures
        spec_power(a, n) == (if a == 1 || n % 2 == 0 {
            1int
        } else {
            -1int
        }),
    decreases n,
{
    if n > 0 {
        lemma_power_of_unit_parity(a, (n - 1) as nat);
    }
}

/// Powers of zero: one for the exponent zero, zero otherwise.
proof fn lemma_power_of_small(a: int, n: nat)
    requires
        a == 0,
    ensures
        spec_power(a, n) == (if n == 0 {
            1int
        } else {
            0int
        }),
{
    if n > 0 {
        assert(spec_power(a, n) == a * spec_power(a, (n - 1) as nat));
    }
}

/// Whole numbers compare by their value: `<`, `>`, `<=`, `>=`, `=` and `<>` mean what they
/// mean on integers.
pub proof fn lemma_whole_numbers_compare(a: i64, b: i64)
    ensures
        numbers_compare(ExactNumber::Int(a), ComparatorEnum::Less, ExactNumber::Int(b)) == (a < b),
        numbers_compare(ExactNumber::Int(a), ComparatorEnum::Greater, ExactNumber::Int(b)) == (a
            > b),
        numbers_compare(ExactNumber::Int(a), ComparatorEnum::LessEquals, ExactNumber::Int(b)) == (a
            <= b),
        numbers_compare(ExactNumber::Int(a), ComparatorEnum::GreaterEquals, ExactNumber::Int(b))
            == (a >= b),
        numbers_compare(ExactNumber::Int(a), ComparatorEnum::Equals, ExactNumber::Int(b)) == (a
            == b),
        numbers_compare(ExactNumber::Int(a), ComparatorEnum::NotEquals, ExactNumber::Int(b)) == (a
            != b),
{
}

} // verus!
