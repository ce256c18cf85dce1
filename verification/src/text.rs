use vstd::prelude::*;

verus! {

/// The characters of `s`, in order.
pub fn chars_of(s: &str) -> (res: Vec<char>)
    ensures
        res@ == s@,
{
    let n = s.unicode_len();
    let mut out: Vec<char> = Vec::new();
    let mut i: usize = 0;
    while i < n
        invariant
            n == s@.len(),
            i <= n,
            out@ == s@.take(i as int),
        decreases n - i,
    {
        out.push(s.get_char(i));
        i = i + 1;
        assert(out@ =~= s@.take(i as int));
    }
    assert(out@ =~= s@);
    out
}

/// Whether `chars` spells exactly `text`.
pub fn chars_equal_str(chars: &[char], text: &str) -> (res: bool)
    ensures
        res == (chars@ == text@),
{
    let n = text.unicode_len();
    if chars.len() != n {
        return false;
    }
    let mut i: usize = 0;
    while i < n
        invariant
            n == text@.len(),
            n == chars@.len(),
            i <= n,
            chars@.take(i as int) == text@.take(i as int),
        decreases n - i,
    {
        if chars[i] != text.get_char(i) {
            assert(chars@[i as int] != text@[i as int]);
            return false;
        }
        i = i + 1;
        assert(chars@.take(i as int) =~= text@.take(i as int));
    }
    assert(chars@ =~= chars@.take(n as int));
    assert(text@ =~= text@.take(n as int));
    true
}

/// Appends the characters of `text` to `out`.
pub fn push_str_chars(out: &mut Vec<char>, text: &str)
    ensures
        final(out)@ == old(out)@ + text@,
{
    let n = text.unicode_len();
    let mut i: usize = 0;
    let ghost start = out@;
    while i < n
        invariant
            n == text@.len(),
            i <= n,
            out@ == start + text@.take(i as int),
        decreases n - i,
    {
        out.push(text.get_char(i));
        i = i + 1;
        assert(out@ =~= start + text@.take(i as int));
    }
    assert(text@.take(n as int) =~= text@);
}

/// Appends the characters of `chars` to `out`.
pub fn push_chars(out: &mut Vec<char>, chars: &[char])
    ensures
        final(out)@ == old(out)@ + chars@,
{
    let n = chars.len();
    let mut i: usize = 0;
    let ghost start = out@;
    while i < n
        invariant
            n == chars@.len(),
            i <= n,
            out@ == start + chars@.take(i as int),
        decreases n - i,
    {
        out.push(chars[i]);
        i = i + 1;
        assert(out@ =~= start + chars@.take(i as int));
    }
    assert(chars@.take(n as int) =~= chars@);
}

/// A string holding `chars`, calling `FromIterator<char>` for `String`.
#[verifier::external_body]
pub(crate) fn string_from_chars(chars: &[char]) -> (res: String)
    ensures
        res@ == chars@,
{
    chars.iter().collect::<String>()
}

} // verus!
