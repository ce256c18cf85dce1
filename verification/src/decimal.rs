use vstd::prelude::*;

verus! {

/// Whether `c` is one of the ASCII digits `0` to `9`.
pub open spec fn is_digit(c: char) -> bool {
    '0' <= c && c <= '9'
}

/// The value of an ASCII digit.
pub open spec fn digit_value(c: char) -> int {
    (c as int) - ('0' as int)
}

/// The ASCII digit of a value from 0 to 9.
pub open spec fn digit_char(d: int) -> char {
    if d == 0 {
        '0'
    } else if d == 1 {
        '1'
    } else if d == 2 {
        '2'
    } else if d == 3 {
        '3'
    } else if d == 4 {
        '4'
    } else if d == 5 {
        '5'
    } else if d == 6 {
        '6'
    } else if d == 7 {
        '7'
    } else if d == 8 {
        '8'
    } else {
        '9'
    }
}

/// The decimal notation of `n`, without sign or leading zeros (`0` for zero).
pub open spec fn decimal_digits(n: nat) -> Seq<char>
    decreases n,
{
    if n < 10 {
        seq![digit_char(n as int)]
    } else {
        decimal_digits(n / 10).push(digit_char((n % 10) as int))
    }
}

/// Whether every character of `s` is an ASCII digit.
pub open spec fn all_digits(s: Seq<char>) -> bool {
    forall|i: int| 0 <= i < s.len() ==> #[trigger] is_digit(s[i])
}

/// The value of a run of ASCII digits, read in base ten (zero when empty).
pub open spec fn digits_value(s: Seq<char>) -> int
    decreases s.len(),
{
    if s.len() == 0 {
        0
    } else {
        digits_value(s.drop_last()) * 10 + digit_value(s.last())
    }
}

/// The integer written by `s` in the notation `str::parse` reads for integers: an
/// optional `+` or `-` followed by at least one ASCII digit.
pub open spec fn spec_parse_integer(s: Seq<char>) -> Option<int> {
    if s.len() == 0 {
        None
    } else {
        let negative = s[0] == '-';
        let body = spec_digits_part(s);
        if body.len() == 0 || !all_digits(body) {
            None
        } else if negative {
            Some(-digits_value(body))
        } else {
            Some(digits_value(body))
        }
    }
}

/// The text after an optional leading sign.
pub open spec fn spec_digits_part(s: Seq<char>) -> Seq<char> {
    if s.len() > 0 && (s[0] == '-' || s[0] == '+') {
        s.drop_first()
    } else {
        s
    }
}

/// `spec_parse_integer`, kept only when the value lies in `lo..=hi`.
pub open spec fn spec_parse_in_range(s: Seq<char>, lo: int, hi: int) -> Option<int> {
    match spec_parse_integer(s) {
        Some(v) => if lo <= v && v <= hi {
            Some(v)
        } else {
            None
        },
        None => None,
    }
}

pub proof fn lemma_digit_char_value(d: int)
    requires
        0 <= d < 10,
    ensures
        is_digit(digit_char(d)),
        digit_value(digit_char(d)) == d,
{
}

pub proof fn lemma_decimal_digits_shape(n: nat)
    ensures
        decimal_digits(n).len() >= 1,
        all_digits(decimal_digits(n)),
        digits_value(decimal_digits(n)) == n,
    decreases n,
{
    lemma_digit_char_value((n % 10) as int);
    if n >= 10 {
        lemma_decimal_digits_shape(n / 10);
        let s = decimal_digits(n);
        assert(s.drop_last() =~= decimal_digits(n / 10));
        assert(s.last() == digit_char((n % 10) as int));
        assert(digits_value(s) == digits_value(s.drop_last()) * 10 + digit_value(s.last()));
        assert forall|i: int| 0 <= i < s.len() implies #[trigger] is_digit(s[i]) by {
            if i < s.len() - 1 {
                assert(s[i] == decimal_digits(n / 10)[i]);
            }
        }
    } else {
        let s = decimal_digits(n);
        assert(s.drop_last() =~= Seq::<char>::empty());
        assert(digits_value(s.drop_last()) == 0);
        assert(s.last() == digit_char(n as int));
        assert(n % 10 == n);
    }
}

pub proof fn lemma_digits_value_nonneg(s: Seq<char>)
    requires
        all_digits(s),
    ensures
        digits_value(s) >= 0,
    decreases s.len(),
{
    if s.len() > 0 {
        assert(all_digits(s.drop_last())) by {
            assert forall|i: int| 0 <= i < s.drop_last().len() implies #[trigger] is_digit(
                s.drop_last()[i],
            ) by {
                assert(s.drop_last()[i] == s[i]);
            }
        }
        lemma_digits_value_nonneg(s.drop_last());
        assert(is_digit(s[s.len() - 1]));
    }
}

/// The ASCII digit of `d`.
fn digit_to_char(d: u8) -> (res: char)
    requires
        d < 10,
    ensures
        res == digit_char(d as int),
{
    match d {
        0 => '0',
        1 => '1',
        2 => '2',
        3 => '3',
        4 => '4',
        5 => '5',
        6 => '6',
        7 => '7',
        8 => '8',
        _ => '9',
    }
}

/// Appends the decimal notation of `n` to `out`.
pub fn push_decimal(out: &mut Vec<char>, n: i128)
    requires
        n >= 0,
    ensures
        final(out)@ == old(out)@ + decimal_digits(n as nat),
    decreases n,
{
    if n >= 10 {
        push_decimal(out, n / 10);
    }
    let d: u8 = (n % 10) as u8;
    let c = digit_to_char(d);
    let ghost before = out@;
    out.push(c);
    proof {
        if n < 10 {
            assert(n % 10 == n);
            assert(out@ =~= old(out)@ + decimal_digits(n as nat));
        } else {
            assert(decimal_digits(n as nat) == decimal_digits((n / 10) as nat).push(
                digit_char((n % 10) as int),
            ));
            assert(out@ =~= old(out)@ + decimal_digits(n as nat));
        }
    }
}

/// The value of the digit `c`, for an ASCII digit.
fn char_to_digit(c: char) -> (res: u8)
    requires
        is_digit(c),
    ensures
        res as int == digit_value(c),
        res < 10,
{
    match c {
        '0' => 0,
        '1' => 1,
        '2' => 2,
        '3' => 3,
        '4' => 4,
        '5' => 5,
        '6' => 6,
        '7' => 7,
        '8' => 8,
        _ => 9,
    }
}

proof fn lemma_digits_value_prefix_grows(s: Seq<char>, k: int)
    requires
        all_digits(s),
        0 <= k <= s.len(),
    ensures
        digits_value(s.take(k)) <= digits_value(s),
    decreases s.len() - k,
{
    if k < s.len() {
        lemma_digits_value_prefix_grows(s, k + 1);
        let t = s.take(k + 1);
        assert(t.drop_last() =~= s.take(k));
        assert(all_digits(s.take(k))) by {
            assert forall|i: int| 0 <= i < s.take(k).len() implies #[trigger] is_digit(
                s.take(k)[i],
            ) by {
                assert(s.take(k)[i] == s[i]);
            }
        }
        lemma_digits_value_nonneg(s.take(k));
        assert(is_digit(s[k]));
        assert(t.last() == s[k]);
    } else {
        assert(s.take(k) =~= s);
    }
}

/// Reads `chars[lo..hi]` as an integer the way `str::parse` does for an integer type
/// whose range is `min..=max`; `None` when the text is no integer or leaves the range.
pub fn parse_integer_in_range(chars: &[char], lo: usize, hi: usize, min: i128, max: i128) -> (res:
    Option<i128>)
    requires
        lo <= hi <= chars@.len(),
        -0x1_0000_0000_0000_0000 <= min <= 0,
        0 <= max <= 0x1_0000_0000_0000_0000,
    ensures
        res == (match spec_parse_in_range(chars@.subrange(lo as int, hi as int), min as int, max as int) {
            Some(v) => Some(v as i128),
            None => None,
        }),
{
    let ghost s = chars@.subrange(lo as int, hi as int);
    if lo == hi {
        return None;
    }
    assert(s[0] == chars@[lo as int]);
    let negative = chars[lo] == '-';
    let start = if chars[lo] == '-' || chars[lo] == '+' {
        lo + 1
    } else {
        lo
    };
    let ghost body = chars@.subrange(start as int, hi as int);
    assert(body =~= spec_digits_part(s));
    if start == hi {
        return None;
    }
    let bound: i128 = if negative {
        -min
    } else {
        max
    };
    let mut value: i128 = 0;
    let mut i = start;
    while i < hi
        invariant
            lo <= start <= i <= hi <= chars@.len(),
            body == chars@.subrange(start as int, hi as int),
            s == chars@.subrange(lo as int, hi as int),
            s.len() > 0,
            negative == (s[0] == '-'),
            body == spec_digits_part(s),
            body.len() > 0,
            bound == (if negative {
                -min
            } else {
                max as int
            }),
            -0x1_0000_0000_0000_0000 <= min <= 0,
            0 <= max <= 0x1_0000_0000_0000_0000,
            0 <= bound <= 0x1_0000_0000_0000_0000,
            all_digits(chars@.subrange(start as int, i as int)),
            value as int == digits_value(chars@.subrange(start as int, i as int)),
            0 <= value <= bound,
        decreases hi - i,
    {
        let c = chars[i];
        if !('0' <= c && c <= '9') {
            assert(body[i - start] == c);
            assert(!is_digit(body[i - start]));
            assert(!all_digits(body));
            return None;
        }
        let d = char_to_digit(c);
        let ghost prefix = chars@.subrange(start as int, i as int);
        let ghost next = chars@.subrange(start as int, i + 1);
        assert(next.drop_last() =~= prefix);
        assert(all_digits(next)) by {
            assert forall|k: int| 0 <= k < next.len() implies #[trigger] is_digit(next[k]) by {
                if k < next.len() - 1 {
                    assert(next[k] == prefix[k]);
                }
            }
        }
        value = value * 10 + (d as i128);
        if value > bound {
            proof {
                // the full body keeps digits, so its value is at least this prefix's
                if all_digits(body) {
                    assert(body.take((i + 1 - start) as int) =~= next);
                    lemma_digits_value_prefix_grows(body, (i + 1 - start) as int);
                    assert(digits_value(body) > bound);
                    assert(spec_parse_integer(s) == (if negative {
                        Some(-digits_value(body))
                    } else {
                        Some(digits_value(body))
                    }));
                }
            }
            return None;
        }
        i = i + 1;
    }
    assert(chars@.subrange(start as int, hi as int) =~= body);
    if negative {
        Some(-value)
    } else {
        Some(value)
    }
}

} // verus!
