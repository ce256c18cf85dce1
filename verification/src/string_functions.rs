use vstd::prelude::*;

use crate::portable::{spec_trim, trim_chars};
use crate::text::{chars_of, push_chars, string_from_chars};
use crate::utils::slice_chars;

verus! {

/// Whether `p` occurs in `s` starting at position `i`.
pub open spec fn spec_occurs_at(s: Seq<char>, p: Seq<char>, i: int) -> bool {
    0 <= i && i + p.len() <= s.len() && s.subrange(i, i + p.len()) == p
}

/// The first position at or after `i` where `p` occurs in `s`.
pub open spec fn spec_find_from(s: Seq<char>, p: Seq<char>, i: int) -> Option<int>
    decreases s.len() + 1 - i,
{
    if i < 0 || i + p.len() > s.len() {
        None
    } else if s.subrange(i, i + p.len()) == p {
        Some(i)
    } else {
        spec_find_from(s, p, i + 1)
    }
}

/// The first position where `p` occurs in `s`.
pub open spec fn spec_find(s: Seq<char>, p: Seq<char>) -> Option<int> {
    spec_find_from(s, p, 0)
}

/// The last position at or before `i` where `p` occurs in `s`.
pub open spec fn spec_rfind_upto(s: Seq<char>, p: Seq<char>, i: int) -> Option<int>
    decreases i + 1,
{
    if i < 0 {
        None
    } else if spec_occurs_at(s, p, i) {
        Some(i)
    } else {
        spec_rfind_upto(s, p, i - 1)
    }
}

/// The last position where `p` occurs in `s`.
pub open spec fn spec_rfind(s: Seq<char>, p: Seq<char>) -> Option<int> {
    spec_rfind_upto(s, p, s.len() - p.len())
}

pub proof fn lemma_find_from_facts(s: Seq<char>, p: Seq<char>, i: int)
    requires
        0 <= i,
    ensures
        spec_find_from(s, p, i) matches Some(k) ==> i <= k && spec_occurs_at(s, p, k) && forall|
            j: int,
        | i <= j < k ==> !spec_occurs_at(s, p, j),
        spec_find_from(s, p, i) is None ==> forall|j: int| i <= j ==> !spec_occurs_at(s, p, j),
    decreases s.len() + 1 - i,
{
    if i + p.len() <= s.len() && s.subrange(i, i + p.len()) != p {
        lemma_find_from_facts(s, p, i + 1);
    }
}

pub proof fn lemma_rfind_upto_facts(s: Seq<char>, p: Seq<char>, i: int)
    ensures
        spec_rfind_upto(s, p, i) matches Some(k) ==> k <= i && spec_occurs_at(s, p, k) && forall|
            j: int,
        | k < j <= i ==> !spec_occurs_at(s, p, j),
        spec_rfind_upto(s, p, i) is None ==> forall|j: int| j <= i ==> !spec_occurs_at(s, p, j),
    decreases i + 1,
{
    if i >= 0 && !spec_occurs_at(s, p, i) {
        lemma_rfind_upto_facts(s, p, i - 1);
    }
}

/// Whether `p` occurs in `s` at position `i`.
fn occurs_at(s: &Vec<char>, p: &Vec<char>, i: usize) -> (res: bool)
    ensures
        res == spec_occurs_at(s@, p@, i as int),
{
    if p.len() > s.len() || i > s.len() - p.len() {
        return false;
    }
    let mut k: usize = 0;
    while k < p.len()
        invariant
            i + p@.len() <= s@.len(),
            s@.len() == s.len(),
            k <= p@.len(),
            forall|j: int| 0 <= j < k ==> s@[i + j] == p@[j],
        decreases p@.len() - k,
    {
        assert(i + k < s@.len());
        if s[i + k] != p[k] {
            assert(s@.subrange(i as int, i + p@.len())[k as int] != p@[k as int]);
            return false;
        }
        k = k + 1;
    }
    assert(s@.subrange(i as int, i + p@.len()) =~= p@);
    true
}

/// The first position where `p` occurs in `s`.
fn find_chars(s: &Vec<char>, p: &Vec<char>) -> (res: Option<usize>)
    ensures
        match res {
            Some(k) => spec_find(s@, p@) == Some(k as int),
            None => spec_find(s@, p@) is None,
        },
{
    if p.len() > s.len() {
        return None;
    }
    let last = s.len() - p.len();
    let mut i: usize = 0;
    loop
        invariant
            last + p@.len() == s@.len(),
            i <= last,
            spec_find(s@, p@) == spec_find_from(s@, p@, i as int),
        decreases last - i,
    {
        if occurs_at(s, p, i) {
            return Some(i);
        }
        if i == last {
            assert(spec_find_from(s@, p@, i + 1) is None);
            return None;
        }
        i = i + 1;
    }
}

/// The last position where `p` occurs in `s`.
fn rfind_chars(s: &Vec<char>, p: &Vec<char>) -> (res: Option<usize>)
    ensures
        match res {
            Some(k) => spec_rfind(s@, p@) == Some(k as int),
            None => spec_rfind(s@, p@) is None,
        },
{
    if p.len() > s.len() {
        return None;
    }
    let mut i: usize = s.len() - p.len();
    loop
        invariant
            i <= s@.len() - p@.len(),
            p@.len() <= s@.len(),
            spec_rfind(s@, p@) == spec_rfind_upto(s@, p@, i as int),
        decreases i,
    {
        if occurs_at(s, p, i) {
            return Some(i);
        }
        if i == 0 {
            assert(spec_rfind_upto(s@, p@, -1) is None);
            return None;
        }
        i = i - 1;
    }
}

/// The number of characters of `s`.
pub fn length(s: &str) -> (res: i64)
    requires
        s@.len() <= i64::MAX,
    ensures
        res == s@.len(),
{
    s.unicode_len() as i64
}

/// `s` written backwards.
pub fn reverse(s: &str) -> (res: String)
    ensures
        res@ == s@.reverse(),
{
    let chars = chars_of(s);
    let mut out: Vec<char> = Vec::new();
    let mut i: usize = chars.len();
    while i > 0
        invariant
            i <= chars@.len(),
            out@ == chars@.subrange(i as int, chars@.len() as int).reverse(),
        decreases i,
    {
        i = i - 1;
        out.push(chars[i]);
        assert(out@ =~= chars@.subrange(i as int, chars@.len() as int).reverse());
    }
    assert(chars@.subrange(0, chars@.len() as int) =~= chars@);
    string_from_chars(out.as_slice())
}

/// Whether `c` cannot stand in a file name: `/ \ : * ? " < > |`.
pub open spec fn spec_forbidden_in_filename(c: char) -> bool {
    c == '/' || c == '\\' || c == ':' || c == '*' || c == '?' || c == '"' || c == '<' || c
        == '>' || c == '|'
}

/// `s` without the characters that cannot stand in a file name.
pub fn sanitize_filename(s: &str) -> (res: String)
    ensures
        res@ == s@.filter(|c: char| !spec_forbidden_in_filename(c)),
{
    let chars = chars_of(s);
    let mut out: Vec<char> = Vec::new();
    let mut i: usize = 0;
    while i < chars.len()
        invariant
            i <= chars@.len(),
            out@ == chars@.take(i as int).filter(|c: char| !spec_forbidden_in_filename(c)),
        decreases chars@.len() - i,
    {
        let c = chars[i];
        proof {
            reveal(Seq::filter);
            assert(chars@.take(i + 1).drop_last() =~= chars@.take(i as int));
        }
        if !(c == '/' || c == '\\' || c == ':' || c == '*' || c == '?' || c == '"' || c == '<' || c
            == '>' || c == '|') {
            out.push(c);
        }
        i = i + 1;
    }
    assert(chars@.take(chars@.len() as int) =~= chars@);
    string_from_chars(out.as_slice())
}

/// Whether `needle` occurs in `haystack` (an empty needle always does).
pub fn contains(haystack: &str, needle: &str) -> (res: bool)
    ensures
        res == (exists|i: int| spec_occurs_at(haystack@, needle@, i)),
{
    let h = chars_of(haystack);
    let n = chars_of(needle);
    let found = find_chars(&h, &n);
    proof {
        lemma_find_from_facts(h@, n@, 0);
    }
    found.is_some()
}

/// Whether `haystack` begins with `prefix`.
pub fn starts_with(haystack: &str, prefix: &str) -> (res: bool)
    ensures
        res == spec_occurs_at(haystack@, prefix@, 0),
{
    let h = chars_of(haystack);
    let p = chars_of(prefix);
    occurs_at(&h, &p, 0)
}

/// Whether `haystack` ends with `suffix`.
pub fn ends_with(haystack: &str, suffix: &str) -> (res: bool)
    ensures
        res == spec_occurs_at(haystack@, suffix@, haystack@.len() - suffix@.len()),
{
    let h = chars_of(haystack);
    let p = chars_of(suffix);
    if p.len() > h.len() {
        return false;
    }
    occurs_at(&h, &p, h.len() - p.len())
}

/// The character at position `index` as a one-character text; empty when there is none or
/// when it is the character with code zero.
pub open spec fn spec_char_at(s: Seq<char>, index: int) -> Seq<char> {
    if 0 <= index < s.len() && s[index] != '\0' {
        seq![s[index]]
    } else {
        Seq::empty()
    }
}

/// The `charAt` function.
pub fn char_at(s: &str, index: i64) -> (res: String)
    ensures
        res@ == spec_char_at(s@, index as int),
{
    let chars = chars_of(s);
    if index < 0 || index as u64 >= chars.len() as u64 || chars[index as usize] == '\0' {
        return String::new();
    }
    let out = vec![chars[index as usize]];
    string_from_chars(out.as_slice())
}

/// The `charCodeAt` function: the code of the character at position `index`, zero when there
/// is none.
pub fn char_code_at(s: &str, index: i64) -> (res: i64)
    ensures
        res == (if 0 <= index < s@.len() {
            (s@[index as int] as u32) as int
        } else {
            0
        }),
{
    let chars = chars_of(s);
    if index < 0 || index as u64 >= chars.len() as u64 {
        return 0;
    }
    let c = chars[index as usize];
    c as u32 as i64
}

/// Where a substring starts for `start` in a text of `n` characters: counted from 1, from the
/// end when negative, and kept within the text.
pub open spec fn spec_substring_start(n: int, start: int) -> int {
    let idx = if start > 0 {
        start - 1
    } else if start < 0 {
        n + start
    } else {
        0
    };
    if idx < 0 {
        0
    } else if idx > n {
        n
    } else {
        idx
    }
}

/// Where a substring of `length` characters from `idx` ends in a text of `n` characters; a
/// negative length counts backwards; no length runs to the end.
pub open spec fn spec_substring_end(n: int, idx: int, length: Option<i64>) -> int {
    match length {
        Some(l) => if l >= 0 {
            if idx + l < n {
                idx + l
            } else {
                n
            }
        } else {
            if idx + l > 0 {
                idx + l
            } else {
                0
            }
        },
        None => n,
    }
}

/// The `substring` function: the characters between the start and the end position, in the
/// text's order whichever comes first.
pub open spec fn spec_substring(s: Seq<char>, start: int, length: Option<i64>) -> Seq<char> {
    let n = s.len() as int;
    let i = spec_substring_start(n, start);
    let j = spec_substring_end(n, i, length);
    if j >= i {
        s.subrange(i, j)
    } else {
        s.subrange(j, i)
    }
}

/// The `substring` function.
pub fn substring(s: &str, start: i64, length: Option<i64>) -> (res: String)
    requires
        s@.len() <= i64::MAX,
        length matches Some(l) ==> (l >= 0 ==> spec_substring_start(s@.len() as int, start as int)
            + l <= i64::MAX),
    ensures
        res@ == spec_substring(s@, start as int, length),
{
    let chars = chars_of(s);
    let n = chars.len() as i64;
    let mut idx: i64 = if start > 0 {
        start - 1
    } else if start < 0 {
        n + start
    } else {
        0
    };
    if idx < 0 {
        idx = 0;
    }
    if idx > n {
        idx = n;
    }
    let end: i64 = match length {
        Some(l) => {
            if l >= 0 {
                if idx + l < n {
                    idx + l
                } else {
                    n
                }
            } else {
                if idx + l > 0 {
                    idx + l
                } else {
                    0
                }
            }
        },
        None => n,
    };
    let (i, j) = (idx as usize, end as usize);
    let out = if j >= i {
        slice_chars(&chars, i, j)
    } else {
        slice_chars(&chars, j, i)
    };
    string_from_chars(out.as_slice())
}

/// The text before the first occurrence of `p` in `s`; empty when `p` does not occur.
pub open spec fn spec_substring_before(s: Seq<char>, p: Seq<char>) -> Seq<char> {
    match spec_find(s, p) {
        Some(k) => s.take(k),
        None => Seq::empty(),
    }
}

/// The text after the first occurrence of `p` in `s`; empty when `p` does not occur.
pub open spec fn spec_substring_after(s: Seq<char>, p: Seq<char>) -> Seq<char> {
    match spec_find(s, p) {
        Some(k) => s.skip(k + p.len()),
        None => Seq::empty(),
    }
}

/// The `substringBefore` function.
pub fn substring_before(haystack: &str, pattern: &str) -> (res: String)
    ensures
        res@ == spec_substring_before(haystack@, pattern@),
{
    let h = chars_of(haystack);
    let p = chars_of(pattern);
    match find_chars(&h, &p) {
        Some(k) => {
            proof {
                lemma_find_from_facts(h@, p@, 0);
            }
            let out = slice_chars(&h, 0, k);
            assert(out@ =~= h@.take(k as int));
            string_from_chars(out.as_slice())
        },
        None => {
            let out: Vec<char> = Vec::new();
            assert(out@ =~= Seq::<char>::empty());
            string_from_chars(out.as_slice())
        },
    }
}

/// The `substringAfter` function.
pub fn substring_after(haystack: &str, pattern: &str) -> (res: String)
    ensures
        res@ == spec_substring_after(haystack@, pattern@),
{
    let h = chars_of(haystack);
    let p = chars_of(pattern);
    match find_chars(&h, &p) {
        Some(k) => {
            proof {
                lemma_find_from_facts(h@, p@, 0);
            }
            let n = h.len();
            let out = slice_chars(&h, k + p.len(), n);
            assert(out@ =~= h@.skip(k + p@.len()));
            string_from_chars(out.as_slice())
        },
        None => String::new(),
    }
}

/// The number of bytes `c` takes in UTF-8.
pub open spec fn spec_utf8_len(c: char) -> int {
    let code = c as u32;
    if code < 0x80 {
        1
    } else if code < 0x800 {
        2
    } else if code < 0x10000 {
        3
    } else {
        4
    }
}

/// The number of bytes `s` takes in UTF-8.
pub open spec fn spec_utf8_width(s: Seq<char>) -> int
    decreases s.len(),
{
    if s.len() == 0 {
        0
    } else {
        spec_utf8_width(s.drop_last()) + spec_utf8_len(s.last())
    }
}

proof fn lemma_utf8_width_prefix(s: Seq<char>, k: int)
    requires
        0 <= k <= s.len(),
    ensures
        0 <= spec_utf8_width(s.take(k)) <= spec_utf8_width(s),
    decreases s.len() - k,
{
    if k < s.len() {
        lemma_utf8_width_prefix(s, k + 1);
        assert(s.take(k + 1).drop_last() =~= s.take(k));
    } else {
        assert(s.take(k) =~= s);
    }
    lemma_utf8_width_nonnegative(s.take(k));
}

proof fn lemma_utf8_width_nonnegative(s: Seq<char>)
    ensures
        spec_utf8_width(s) >= 0,
    decreases s.len(),
{
    if s.len() > 0 {
        lemma_utf8_width_nonnegative(s.drop_last());
    }
}

/// The byte offset in UTF-8 of character position `k` of `chars`.
fn byte_offset(chars: &Vec<char>, k: usize) -> (res: i64)
    requires
        k <= chars@.len(),
        spec_utf8_width(chars@) <= i64::MAX,
    ensures
        res == spec_utf8_width(chars@.take(k as int)),
{
    let mut total: i64 = 0;
    let mut i: usize = 0;
    while i < k
        invariant
            k <= chars@.len(),
            i <= k,
            spec_utf8_width(chars@) <= i64::MAX,
            total == spec_utf8_width(chars@.take(i as int)),
        decreases k - i,
    {
        let code = chars[i] as u32;
        let width: i64 = if code < 0x80 {
            1
        } else if code < 0x800 {
            2
        } else if code < 0x10000 {
            3
        } else {
            4
        };
        proof {
            assert(chars@.take(i + 1).drop_last() =~= chars@.take(i as int));
            lemma_utf8_width_prefix(chars@, i + 1);
        }
        total = total + width;
        i = i + 1;
    }
    total
}

/// The `indexOf` function: the byte offset of the first occurrence of `needle`, -1 when
/// there is none.
pub fn index_of(haystack: &str, needle: &str) -> (res: i64)
    requires
        spec_utf8_width(haystack@) <= i64::MAX,
    ensures
        res == match spec_find(haystack@, needle@) {
            Some(k) => spec_utf8_width(haystack@.take(k)),
            None => -1,
        },
{
    let h = chars_of(haystack);
    let n = chars_of(needle);
    match find_chars(&h, &n) {
        Some(k) => {
            proof {
                lemma_find_from_facts(h@, n@, 0);
            }
            byte_offset(&h, k)
        },
        None => -1,
    }
}

/// The `lastIndexOf` function: the byte offset of the last occurrence of `needle`, -1 when
/// there is none.
pub fn last_index_of(haystack: &str, needle: &str) -> (res: i64)
    requires
        spec_utf8_width(haystack@) <= i64::MAX,
    ensures
        res == match spec_rfind(haystack@, needle@) {
            Some(k) => spec_utf8_width(haystack@.take(k)),
            None => -1,
        },
{
    let h = chars_of(haystack);
    let n = chars_of(needle);
    match rfind_chars(&h, &n) {
        Some(k) => {
            proof {
                lemma_rfind_upto_facts(h@, n@, h@.len() - n@.len());
            }
            byte_offset(&h, k)
        },
        None => -1,
    }
}

/// `s` with its first occurrence of `p` replaced by `r`; with `r` in front for an empty `p`.
pub open spec fn spec_replace_first(s: Seq<char>, p: Seq<char>, r: Seq<char>) -> Seq<char> {
    if p.len() == 0 {
        r + s
    } else {
        match spec_find(s, p) {
            Some(k) => s.take(k) + r + s.skip(k + p.len()),
            None => s,
        }
    }
}

/// `s` with its last occurrence of `p` replaced by `r`; with `r` at the end for an empty `p`.
pub open spec fn spec_replace_last(s: Seq<char>, p: Seq<char>, r: Seq<char>) -> Seq<char> {
    if p.len() == 0 {
        s + r
    } else {
        match spec_rfind(s, p) {
            Some(k) => s.take(k) + r + s.skip(k + p.len()),
            None => s,
        }
    }
}

/// `s` with the occurrence of `p` at `k` replaced by `r`.
fn replace_at(s: &Vec<char>, p_len: usize, k: usize, r: &Vec<char>) -> (res: Vec<char>)
    requires
        k + p_len <= s@.len(),
    ensures
        res@ == s@.take(k as int) + r@ + s@.skip(k + p_len),
{
    let n = s.len();
    let mut out = slice_chars(s, 0, k);
    push_chars(&mut out, r.as_slice());
    let tail = slice_chars(s, k + p_len, n);
    push_chars(&mut out, tail.as_slice());
    assert(s@.subrange(0, k as int) =~= s@.take(k as int));
    assert(s@.subrange(k + p_len, s@.len() as int) =~= s@.skip(k + p_len));
    out
}

/// The `replaceFirst` function.
pub fn replace_first(s: &str, pattern: &str, replacement: &str) -> (res: String)
    ensures
        res@ == spec_replace_first(s@, pattern@, replacement@),
{
    let text = chars_of(s);
    let p = chars_of(pattern);
    let r = chars_of(replacement);
    if p.len() == 0 {
        let mut out = r;
        push_chars(&mut out, text.as_slice());
        return string_from_chars(out.as_slice());
    }
    match find_chars(&text, &p) {
        Some(k) => {
            proof {
                lemma_find_from_facts(text@, p@, 0);
            }
            let out = replace_at(&text, p.len(), k, &r);
            string_from_chars(out.as_slice())
        },
        None => string_from_chars(text.as_slice()),
    }
}

/// The `replaceLast` function.
pub fn replace_last(s: &str, pattern: &str, replacement: &str) -> (res: String)
    ensures
        res@ == spec_replace_last(s@, pattern@, replacement@),
{
    let text = chars_of(s);
    let p = chars_of(pattern);
    let r = chars_of(replacement);
    if p.len() == 0 {
        let mut out = text;
        push_chars(&mut out, r.as_slice());
        return string_from_chars(out.as_slice());
    }
    match rfind_chars(&text, &p) {
        Some(k) => {
            proof {
                lemma_rfind_upto_facts(text@, p@, text@.len() - p@.len());
            }
            let out = replace_at(&text, p.len(), k, &r);
            string_from_chars(out.as_slice())
        },
        None => string_from_chars(text.as_slice()),
    }
}

/// `r` before, between and after the characters of `s`, as replacing an empty pattern does.
pub open spec fn spec_interleave(s: Seq<char>, r: Seq<char>) -> Seq<char>
    decreases s.len(),
{
    if s.len() == 0 {
        r
    } else {
        spec_interleave(s.drop_last(), r) + seq![s.last()] + r
    }
}

/// `s` with every occurrence of `p`, taken from the left without overlaps, replaced by `r`,
/// as `str::replace` does.
pub open spec fn spec_replace_all(s: Seq<char>, p: Seq<char>, r: Seq<char>) -> Seq<char>
    decreases s.len(),
{
    if p.len() == 0 {
        spec_interleave(s, r)
    } else {
        match spec_find(s, p) {
            Some(k) => if 0 <= k && k + p.len() <= s.len() {
                s.take(k) + r + spec_replace_all(s.skip(k + p.len()), p, r)
            } else {
                s
            },
            None => s,
        }
    }
}

/// `c` in lower case when it is an ASCII upper case letter.
pub open spec fn spec_ascii_lower(c: char) -> char {
    if 'A' <= c <= 'Z' {
        ((c as u32) + 32) as char
    } else {
        c
    }
}

/// `s` with its ASCII upper case letters in lower case.
pub open spec fn spec_ascii_lower_text(s: Seq<char>) -> Seq<char> {
    s.map_values(|c: char| spec_ascii_lower(c))
}

/// `s` with every occurrence of `p` replaced by `r`, letters compared without regard to
/// ASCII case.
pub open spec fn spec_replace_ascii_ci(s: Seq<char>, p: Seq<char>, r: Seq<char>) -> Seq<char>
    decreases s.len(),
{
    if p.len() == 0 {
        spec_replace_all(s, p, r)
    } else {
        match spec_find(spec_ascii_lower_text(s), spec_ascii_lower_text(p)) {
            Some(k) => if 0 <= k && k + p.len() <= s.len() {
                s.take(k) + r + spec_replace_ascii_ci(s.skip(k + p.len()), p, r)
            } else {
                s
            },
            None => s,
        }
    }
}

/// The `replace` function: every occurrence of `pattern` replaced by `replacement`; with
/// flags holding `i`, letters are compared without regard to ASCII case.
pub open spec fn spec_replace(
    s: Seq<char>,
    pattern: Seq<char>,
    replacement: Seq<char>,
    flags: Option<Seq<char>>,
) -> Seq<char> {
    match flags {
        Some(f) => if pattern.len() > 0 && f.contains('i') {
            spec_replace_ascii_ci(s, pattern, replacement)
        } else {
            spec_replace_all(s, pattern, replacement)
        },
        None => spec_replace_all(s, pattern, replacement),
    }
}

/// `s` with the ASCII upper case letters in lower case.
fn ascii_lower_chars(s: &Vec<char>) -> (res: Vec<char>)
    ensures
        res@ == spec_ascii_lower_text(s@),
{
    let mut out: Vec<char> = Vec::new();
    let mut i: usize = 0;
    while i < s.len()
        invariant
            i <= s@.len(),
            out@ == spec_ascii_lower_text(s@.take(i as int)),
        decreases s@.len() - i,
    {
        let c = s[i];
        let lower = if 'A' <= c && c <= 'Z' {
            ((c as u8) + 32) as char
        } else {
            c
        };
        proof {
            if 'A' <= c && c <= 'Z' {
                assert((c as u8) as int == (c as u32) as int);
            }
        }
        out.push(lower);
        assert(spec_ascii_lower_text(s@.take(i + 1)) =~= spec_ascii_lower_text(s@.take(i as int)).push(lower));
        i = i + 1;
    }
    assert(s@.take(s@.len() as int) =~= s@);
    out
}

proof fn lemma_interleave_step(s: Seq<char>, i: int, r: Seq<char>)
    requires
        0 <= i < s.len(),
    ensures
        spec_interleave(s.take(i + 1), r) == spec_interleave(s.take(i), r) + seq![s[i]] + r,
{
    assert(s.take(i + 1).drop_last() =~= s.take(i));
}

/// `r` before, between and after the characters of `s`.
fn interleave(s: &Vec<char>, r: &Vec<char>) -> (res: Vec<char>)
    ensures
        res@ == spec_interleave(s@, r@),
{
    let mut out: Vec<char> = Vec::new();
    push_chars(&mut out, r.as_slice());
    let mut i: usize = 0;
    assert(s@.take(0) =~= Seq::<char>::empty());
    while i < s.len()
        invariant
            i <= s@.len(),
            out@ == spec_interleave(s@.take(i as int), r@),
        decreases s@.len() - i,
    {
        out.push(s[i]);
        push_chars(&mut out, r.as_slice());
        proof {
            lemma_interleave_step(s@, i as int, r@);
        }
        i = i + 1;
    }
    assert(s@.take(s@.len() as int) =~= s@);
    out
}

/// Every occurrence of `p` in `s` replaced by `r`, found by comparing `key_of(s)` with
/// `key_p`, where `key_of` is the identity or ASCII lower casing.
fn replace_occurrences(s: &Vec<char>, p: &Vec<char>, r: &Vec<char>, ignore_case: bool) -> (res: Vec<
    char,
>)
    requires
        p@.len() > 0,
    ensures
        !ignore_case ==> res@ == spec_replace_all(s@, p@, r@),
        ignore_case ==> res@ == spec_replace_ascii_ci(s@, p@, r@),
    decreases s@.len(),
{
    let n = s.len();
    let found = if ignore_case {
        let s_key = ascii_lower_chars(s);
        let p_key = ascii_lower_chars(p);
        find_chars(&s_key, &p_key)
    } else {
        find_chars(s, p)
    };
    proof {
        lemma_find_from_facts(s@, p@, 0);
        lemma_find_from_facts(spec_ascii_lower_text(s@), spec_ascii_lower_text(p@), 0);
    }
    match found {
        Some(k) => {
            let rest = slice_chars(s, k + p.len(), n);
            assert(rest@ =~= s@.skip(k + p@.len()));
            let tail = replace_occurrences(&rest, p, r, ignore_case);
            let mut out = slice_chars(s, 0, k);
            assert(out@ =~= s@.take(k as int));
            push_chars(&mut out, r.as_slice());
            push_chars(&mut out, tail.as_slice());
            out
        },
        None => slice_chars(s, 0, n),
    }
}

/// The `replace` function; `flags` is the fourth argument when it is a string.
pub fn replace(s: &str, pattern: &str, replacement: &str, flags: Option<&str>) -> (res: String)
    ensures
        res@ == spec_replace(
            s@,
            pattern@,
            replacement@,
            match flags {
                Some(f) => Some(f@),
                None => None,
            },
        ),
{
    let text = chars_of(s);
    let p = chars_of(pattern);
    let r = chars_of(replacement);
    if p.len() == 0 {
        let out = interleave(&text, &r);
        return string_from_chars(out.as_slice());
    }
    let ignore_case = match flags {
        Some(f) => {
            let f_chars = chars_of(f);
            let i_pattern = vec!['i'];
            let has_i = find_chars(&f_chars, &i_pattern).is_some();
            proof {
                lemma_find_from_facts(f_chars@, i_pattern@, 0);
                if f@.contains('i') {
                    let j = choose|j: int| 0 <= j < f@.len() && f@[j] == 'i';
                    assert(f_chars@.subrange(j, j + 1) =~= i_pattern@);
                    assert(spec_occurs_at(f_chars@, i_pattern@, j));
                }
                if has_i {
                    let k = spec_find(f_chars@, i_pattern@)->Some_0;
                    assert(f@[k] == f_chars@.subrange(k, k + 1)[0]);
                }
            }
            has_i
        },
        None => false,
    };
    let out = replace_occurrences(&text, &p, &r, ignore_case);
    string_from_chars(out.as_slice())
}

/// The pieces of `s` between the occurrences of `p`, as `str::split` gives them: for an
/// empty `p`, an empty piece, each character, and an empty piece.
pub open spec fn spec_split_text(s: Seq<char>, p: Seq<char>) -> Seq<Seq<char>>
    decreases s.len(),
{
    if p.len() == 0 {
        seq![Seq::<char>::empty()] + s.map_values(|c: char| seq![c]) + seq![Seq::<char>::empty()]
    } else {
        match spec_find(s, p) {
            Some(k) => if 0 <= k && k + p.len() <= s.len() {
                seq![s.take(k)] + spec_split_text(s.skip(k + p.len()), p)
            } else {
                seq![s]
            },
            None => seq![s],
        }
    }
}

/// The pieces of `s` between the occurrences of a non-empty `p`.
fn split_pieces(s: &Vec<char>, p: &Vec<char>) -> (res: Vec<Vec<char>>)
    requires
        p@.len() > 0,
    ensures
        res@.map_values(|v: Vec<char>| v@) == spec_split_text(s@, p@),
    decreases s@.len(),
{
    let n = s.len();
    let found = find_chars(s, p);
    proof {
        lemma_find_from_facts(s@, p@, 0);
    }
    match found {
        Some(k) => {
            let head = slice_chars(s, 0, k);
            let rest = slice_chars(s, k + p.len(), n);
            assert(rest@ =~= s@.skip(k + p@.len()));
            assert(head@ =~= s@.take(k as int));
            let tail = split_pieces(&rest, p);
            let mut out: Vec<Vec<char>> = Vec::new();
            out.push(head);
            let mut i: usize = 0;
            while i < tail.len()
                invariant
                    i <= tail@.len(),
                    out@.len() == i + 1,
                    out@[0]@ == s@.take(k as int),
                    forall|j: int| 0 <= j < i ==> #[trigger] out@[j + 1]@ == tail@[j]@,
                decreases tail@.len() - i,
            {
                out.push(slice_chars(&tail[i], 0, tail[i].len()));
                assert(tail@[i as int]@.subrange(0, tail@[i as int]@.len() as int) =~= tail@[i as int]@);
                i = i + 1;
            }
            let ghost expected = seq![s@.take(k as int)] + tail@.map_values(|v: Vec<char>| v@);
            assert forall|j: int| 0 <= j < out@.len() implies out@.map_values(|v: Vec<char>| v@)[j]
                == expected[j] by {
                if j > 0 {
                    assert(out@[(j - 1) + 1]@ == tail@[j - 1]@);
                }
            }
            assert(out@.map_values(|v: Vec<char>| v@) =~= expected);
            out
        },
        None => {
            let whole = slice_chars(s, 0, n);
            let out = vec![whole];
            assert(whole@ =~= s@);
            assert(out@.map_values(|v: Vec<char>| v@) =~= seq![s@]);
            out
        },
    }
}

/// The `split` function.
pub fn split(s: &str, pattern: &str) -> (res: Vec<String>)
    ensures
        res@.map_values(|t: String| t@) == spec_split_text(s@, pattern@),
{
    let text = chars_of(s);
    let p = chars_of(pattern);
    let mut out: Vec<String> = Vec::new();
    if p.len() == 0 {
        out.push(String::new());
        let mut i: usize = 0;
        while i < text.len()
            invariant
                i <= text@.len(),
                out@.len() == i + 1,
                out@[0]@ == Seq::<char>::empty(),
                forall|j: int| 0 <= j < i ==> #[trigger] out@[j + 1]@ == seq![text@[j]],
            decreases text@.len() - i,
        {
            let one = vec![text[i]];
            out.push(string_from_chars(one.as_slice()));
            i = i + 1;
        }
        out.push(String::new());
        let ghost expected = seq![Seq::<char>::empty()] + text@.map_values(|c: char| seq![c])
            + seq![Seq::<char>::empty()];
        assert forall|j: int| 0 <= j < out@.len() implies out@.map_values(|t: String| t@)[j]
            == expected[j] by {
            if 0 < j < out@.len() - 1 {
                assert(out@[(j - 1) + 1]@ == seq![text@[j - 1]]);
            }
        }
        assert(out@.map_values(|t: String| t@) =~= expected);
        return out;
    }
    let pieces = split_pieces(&text, &p);
    let mut i: usize = 0;
    while i < pieces.len()
        invariant
            i <= pieces@.len(),
            out@.len() == i,
            forall|j: int| 0 <= j < i ==> #[trigger] out@[j]@ == pieces@[j]@,
        decreases pieces@.len() - i,
    {
        out.push(string_from_chars(pieces[i].as_slice()));
        i = i + 1;
    }
    assert(out@.map_values(|t: String| t@) =~= pieces@.map_values(|v: Vec<char>| v@));
    out
}

/// The character used for padding: the first of `pad`, a space when there is none.
pub open spec fn spec_pad_char(pad: Option<Seq<char>>) -> char {
    match pad {
        Some(p) => if p.len() > 0 {
            p[0]
        } else {
            ' '
        },
        None => ' ',
    }
}

/// `count` copies of `c`.
pub open spec fn spec_copies(c: char, count: nat) -> Seq<char> {
    Seq::new(count, |i: int| c)
}

/// `count` copies of `c`.
fn copies(c: char, count: usize) -> (res: Vec<char>)
    ensures
        res@ == spec_copies(c, count as nat),
{
    let mut out: Vec<char> = Vec::new();
    let mut i: usize = 0;
    while i < count
        invariant
            i <= count,
            out@ == spec_copies(c, i as nat),
        decreases count - i,
    {
        out.push(c);
        i = i + 1;
        assert(out@ =~= spec_copies(c, i as nat));
    }
    out
}

/// The padding character of the `padStart` and `padEnd` functions: the first character of
/// the pad text when it is a non-empty string.
fn pad_char(pad: Option<&str>) -> (res: char)
    ensures
        res == spec_pad_char(
            match pad {
                Some(p) => Some(p@),
                None => None,
            },
        ),
{
    match pad {
        Some(p) => {
            let chars = chars_of(p);
            if chars.len() > 0 {
                chars[0]
            } else {
                ' '
            }
        },
        None => ' ',
    }
}

/// The `padStart` function: `s` with the pad character in front until it is `target`
/// characters long.
pub fn pad_start(s: &str, target: i64, pad: Option<&str>) -> (res: String)
    requires
        0 <= target <= usize::MAX,
    ensures
        res@ == (if target > s@.len() {
            spec_copies(
                spec_pad_char(
                    match pad {
                        Some(p) => Some(p@),
                        None => None,
                    },
                ),
                (target - s@.len()) as nat,
            ) + s@
        } else {
            s@
        }),
{
    let text = chars_of(s);
    let target_len = target as usize;
    if target_len > text.len() {
        let c = pad_char(pad);
        let mut out = copies(c, target_len - text.len());
        push_chars(&mut out, text.as_slice());
        string_from_chars(out.as_slice())
    } else {
        string_from_chars(text.as_slice())
    }
}

/// The `padEnd` function: `s` with the pad character after it until it is `target`
/// characters long.
pub fn pad_end(s: &str, target: i64, pad: Option<&str>) -> (res: String)
    requires
        0 <= target <= usize::MAX,
    ensures
        res@ == (if target > s@.len() {
            s@ + spec_copies(
                spec_pad_char(
                    match pad {
                        Some(p) => Some(p@),
                        None => None,
                    },
                ),
                (target - s@.len()) as nat,
            )
        } else {
            s@
        }),
{
    let text = chars_of(s);
    let target_len = target as usize;
    if target_len > text.len() {
        let c = pad_char(pad);
        let tail = copies(c, target_len - text.len());
        let mut out = text;
        push_chars(&mut out, tail.as_slice());
        string_from_chars(out.as_slice())
    } else {
        string_from_chars(text.as_slice())
    }
}

/// `s` written `count` times.
pub open spec fn spec_repeat(s: Seq<char>, count: nat) -> Seq<char>
    decreases count,
{
    if count == 0 {
        Seq::empty()
    } else {
        spec_repeat(s, (count - 1) as nat) + s
    }
}

/// The `repeat` function: `s` written `times` times, not at all for a negative count.
pub fn repeat(s: &str, times: i64) -> (res: String)
    requires
        times <= usize::MAX,
    ensures
        res@ == spec_repeat(s@, if times < 0 {
            0
        } else {
            times as nat
        }),
{
    let text = chars_of(s);
    let count: usize = if times < 0 {
        0
    } else {
        times as usize
    };
    let mut out: Vec<char> = Vec::new();
    let mut i: usize = 0;
    while i < count
        invariant
            i <= count,
            out@ == spec_repeat(text@, i as nat),
        decreases count - i,
    {
        push_chars(&mut out, text.as_slice());
        i = i + 1;
    }
    string_from_chars(out.as_slice())
}

/// Whether `code` is the code of a character: at most 0x10FFFF and not a surrogate.
pub open spec fn spec_is_char_code(code: u32) -> bool {
    code <= 0x10FFFF && !(0xD800 <= code <= 0xDFFF)
}

/// `char::from_u32`: the character with code `code` when `code` is a Unicode scalar value
/// (at most 0x10FFFF and not a surrogate), nothing otherwise.
#[verifier::external_body]
fn char_from_code(code: u32) -> (res: Option<char>)
    ensures
        res == (if spec_is_char_code(code) {
            Some(code as char)
        } else {
            None::<char>
        }),
{
    char::from_u32(code)
}

/// The characters whose codes are given, each code cut to its low 32 bits; codes that are
/// no character are left out.
pub open spec fn spec_from_char_codes(codes: Seq<i64>) -> Seq<char>
    decreases codes.len(),
{
    if codes.len() == 0 {
        Seq::empty()
    } else {
        let code = codes.last() as u32;
        spec_from_char_codes(codes.drop_last()) + if spec_is_char_code(code) {
            seq![code as char]
        } else {
            Seq::<char>::empty()
        }
    }
}

/// The `fromCharCode` function.
pub fn from_char_code(codes: &[i64]) -> (res: String)
    ensures
        res@ == spec_from_char_codes(codes@),
{
    let mut out: Vec<char> = Vec::new();
    let mut i: usize = 0;
    while i < codes.len()
        invariant
            i <= codes@.len(),
            out@ == spec_from_char_codes(codes@.take(i as int)),
        decreases codes@.len() - i,
    {
        #[verifier::truncate]
        let code: u32 = codes[i] as u32;
        let ghost before = out@;
        match char_from_code(code) {
            Some(c) => out.push(c),
            None => {},
        }
        proof {
            assert(codes@.take(i + 1).drop_last() =~= codes@.take(i as int));
            assert(codes@.take(i + 1).last() == codes@[i as int]);
            if spec_is_char_code(code) {
                assert(out@ =~= before + seq![code as char]);
            } else {
                assert(out@ =~= before + Seq::<char>::empty());
            }
        }
        i = i + 1;
    }
    assert(codes@.take(codes@.len() as int) =~= codes@);
    string_from_chars(out.as_slice())
}

/// What `str::to_uppercase` gives for `s`.
pub uninterp spec fn str_uppercase(s: Seq<char>) -> Seq<char>;

/// What `str::to_lowercase` gives for `s`.
pub uninterp spec fn str_lowercase(s: Seq<char>) -> Seq<char>;

/// `str::to_uppercase`: `s` in upper case by the Unicode case tables, which this contract
/// leaves unsaid.
#[verifier::external_body]
fn str_to_uppercase(s: &str) -> (res: String)
    ensures
        res@ == str_uppercase(s@),
{
    s.to_uppercase()
}

/// `str::to_lowercase`: `s` in lower case by the Unicode case tables, which this contract
/// leaves unsaid.
#[verifier::external_body]
fn str_to_lowercase(s: &str) -> (res: String)
    ensures
        res@ == str_lowercase(s@),
{
    s.to_lowercase()
}

/// The `toUpperCase` function.
pub fn to_upper(s: &str) -> (res: String)
    ensures
        res@ == str_uppercase(s@),
{
    str_to_uppercase(s)
}

/// The `toLowerCase` function.
pub fn to_lower(s: &str) -> (res: String)
    ensures
        res@ == str_lowercase(s@),
{
    str_to_lowercase(s)
}

/// The `trim` function: `s` without white space at either end.
pub fn trim(s: &str) -> (res: String)
    ensures
        res@ == spec_trim(s@),
{
    let chars = chars_of(s);
    let out = trim_chars(&chars);
    string_from_chars(out.as_slice())
}

} // verus!
