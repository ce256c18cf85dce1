use vstd::prelude::*;

use crate::string_functions::{
    lemma_find_from_facts, spec_ascii_lower, spec_ascii_lower_text, spec_find, spec_occurs_at,
    spec_replace, spec_replace_all, spec_replace_ascii_ci, spec_split_text,
    spec_substring_after, spec_substring_before,
};
use crate::utils::spec_join;

verus! {

/// Reversing a text twice gives it back.
pub proof fn lemma_reverse_twice(s: Seq<char>)
    ensures
        s.reverse().reverse() == s,
{
    assert(s.reverse().reverse() =~= s);
}

/// When a pattern occurs in a text, the text before its first occurrence, the pattern and
/// the text after it make up the whole text again.
pub proof fn lemma_before_pattern_after(s: Seq<char>, p: Seq<char>)
    requires
        spec_find(s, p) is Some,
    ensures
        spec_substring_before(s, p) + p + spec_substring_after(s, p) == s,
{
    lemma_find_from_facts(s, p, 0);
    let k = spec_find(s, p)->Some_0;
    assert(s.subrange(k, k + p.len()) == p);
    assert(s.take(k) + p + s.skip(k + p.len()) =~= s);
}

proof fn lemma_join_front(first: Seq<char>, rest: Seq<Seq<char>>, sep: Seq<char>)
    requires
        rest.len() > 0,
    ensures
        spec_join(seq![first] + rest, sep) == first + sep + spec_join(rest, sep),
    decreases rest.len(),
{
    let all = seq![first] + rest;
    if rest.len() == 1 {
        assert(all.drop_last() =~= seq![first]);
        assert(all.last() == rest[0]);
        assert(spec_join(seq![first], sep) == first);
        assert(spec_join(all, sep) == spec_join(all.drop_last(), sep) + sep + all.last());
    } else {
        lemma_join_front(first, rest.drop_last(), sep);
        assert(all.drop_last() =~= seq![first] + rest.drop_last());
        assert(all.last() == rest.last());
        assert(spec_join(all, sep) == spec_join(all.drop_last(), sep) + sep + all.last());
        assert(spec_join(rest, sep) == spec_join(rest.drop_last(), sep) + sep + rest.last());
        assert(spec_join(all, sep) =~= first + sep + spec_join(rest, sep));
    }
}

/// Splitting a text at a non-empty pattern and joining the pieces with that pattern gives
/// the text back.
pub proof fn lemma_split_then_join(s: Seq<char>, p: Seq<char>)
    requires
        p.len() > 0,
    ensures
        spec_join(spec_split_text(s, p), p) == s,
    decreases s.len(),
{
    lemma_find_from_facts(s, p, 0);
    match spec_find(s, p) {
        Some(k) => {
            let rest = s.skip(k + p.len());
            lemma_split_then_join(rest, p);
            let tail = spec_split_text(rest, p);
            assert(tail.len() > 0) by {
                lemma_split_nonempty(rest, p);
            }
            lemma_join_front(s.take(k), tail, p);
            assert(s.subrange(k, k + p.len()) == p);
            assert(s.take(k) + p + rest =~= s);
        },
        None => {},
    }
}

proof fn lemma_split_nonempty(s: Seq<char>, p: Seq<char>)
    requires
        p.len() > 0,
    ensures
        spec_split_text(s, p).len() > 0,
    decreases s.len(),
{
    lemma_find_from_facts(s, p, 0);
    if let Some(k) = spec_find(s, p) {
        lemma_split_nonempty(s.skip(k + p.len()), p);
    }
}

/// Replacing a non-empty pattern that does not occur changes nothing.
pub proof fn lemma_replace_without_match(s: Seq<char>, p: Seq<char>, r: Seq<char>)
    requires
        p.len() > 0,
        forall|i: int| !spec_occurs_at(s, p, i),
    ensures
        spec_replace_all(s, p, r) == s,
{
    lemma_find_from_facts(s, p, 0);
}

/// Replacing a non-empty pattern by itself changes nothing.
pub proof fn lemma_replace_by_itself(s: Seq<char>, p: Seq<char>)
    requires
        p.len() > 0,
    ensures
        spec_replace_all(s, p, p) == s,
    decreases s.len(),
{
    lemma_find_from_facts(s, p, 0);
    if let Some(k) = spec_find(s, p) {
        let rest = s.skip(k + p.len());
        lemma_replace_by_itself(rest, p);
        assert(s.subrange(k, k + p.len()) == p);
        assert(s.take(k) + p + rest =~= s);
    }
}

/// The flags of `replace` matter only through whether they hold the letter `i`, wherever it
/// stands among them: two flag texts that both hold it, or both do not, replace alike.
pub proof fn lemma_replace_flags_only_i(
    s: Seq<char>,
    p: Seq<char>,
    r: Seq<char>,
    f1: Seq<char>,
    f2: Seq<char>,
)
    requires
        f1.contains('i') == f2.contains('i'),
    ensures
        spec_replace(s, p, r, Some(f1)) == spec_replace(s, p, r, Some(f2)),
{
}

/// Flags without `i` replace exactly as no flags do.
pub proof fn lemma_replace_without_i(s: Seq<char>, p: Seq<char>, r: Seq<char>, f: Seq<char>)
    requires
        !f.contains('i'),
    ensures
        spec_replace(s, p, r, Some(f)) == spec_replace(s, p, r, None),
{
}

/// With flags holding `i`, replacing ignores the ASCII case of the pattern's letters: the
/// pattern and the pattern in lower case replace alike.
pub proof fn lemma_replace_ignores_pattern_case(s: Seq<char>, p: Seq<char>, r: Seq<char>, f: Seq<char>)
    requires
        f.contains('i'),
        p.len() > 0,
    ensures
        spec_replace(s, p, r, Some(f)) == spec_replace(s, spec_ascii_lower_text(p), r, Some(f)),
{
    assert(spec_ascii_lower_text(spec_ascii_lower_text(p)) =~= spec_ascii_lower_text(p)) by {
        assert forall|j: int| 0 <= j < p.len() implies spec_ascii_lower(spec_ascii_lower(p[j]))
            == spec_ascii_lower(p[j]) by {
            let c = p[j];
            if 'A' <= c <= 'Z' {
                assert(((c as u32) + 32) as char as u32 == (c as u32) + 32);
            }
        }
    }
    lemma_ci_replace_lowered(s, p, r);
}

/// Case-insensitive replacing with a pattern and with its lower case form agree.
proof fn lemma_ci_replace_lowered(s: Seq<char>, p: Seq<char>, r: Seq<char>)
    requires
        p.len() > 0,
        spec_ascii_lower_text(spec_ascii_lower_text(p)) == spec_ascii_lower_text(p),
    ensures
        spec_replace_ascii_ci(s, p, r) == spec_replace_ascii_ci(s, spec_ascii_lower_text(p), r),
    decreases s.len(),
{
    let lp = spec_ascii_lower_text(p);
    assert(lp.len() == p.len());
    match spec_find(spec_ascii_lower_text(s), lp) {
        Some(k) => if 0 <= k && k + p.len() <= s.len() {
            lemma_ci_replace_lowered(s.skip(k + p.len()), p, r);
        },
        None => {},
    }
}

/// Where neither the text nor the pattern holds an ASCII upper case letter, replacing with
/// flags holding `i` gives what replacing with no flags gives.
pub proof fn lemma_replace_ci_on_lower_text(s: Seq<char>, p: Seq<char>, r: Seq<char>, f: Seq<char>)
    requires
        f.contains('i'),
        spec_ascii_lower_text(s) == s,
        spec_ascii_lower_text(p) == p,
    ensures
        spec_replace(s, p, r, Some(f)) == spec_replace(s, p, r, None),
{
    if p.len() > 0 {
        lemma_ci_on_lower(s, p, r);
    }
}

/// Case-insensitive and plain replacing agree on texts and patterns in lower case.
proof fn lemma_ci_on_lower(s: Seq<char>, p: Seq<char>, r: Seq<char>)
    requires
        p.len() > 0,
        spec_ascii_lower_text(s) == s,
        spec_ascii_lower_text(p) == p,
    ensures
        spec_replace_ascii_ci(s, p, r) == spec_replace_all(s, p, r),
    decreases s.len(),
{
    match spec_find(s, p) {
        Some(k) => if 0 <= k && k + p.len() <= s.len() {
            let rest = s.skip(k + p.len());
            assert(spec_ascii_lower_text(rest) =~= rest) by {
                assert forall|j: int| 0 <= j < rest.len() implies spec_ascii_lower(rest[j])
                    == rest[j] by {
                    assert(rest[j] == s[j + k + p.len()]);
                    assert(spec_ascii_lower_text(s)[j + k + p.len()] == s[j + k + p.len()]);
                }
            }
            lemma_ci_on_lower(rest, p, r);
        },
        None => {},
    }
}

} // verus!
