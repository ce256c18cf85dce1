use vstd::prelude::*;
use vstd::string::StringSliceAdditionalSpecFns;

use crate::text::{push_str_chars, string_from_chars};

verus! {

/// The position of the first `}` in `b` at or after `from`.
pub open spec fn spec_closing_brace(b: Seq<u8>, from: int) -> Option<int>
    decreases b.len() - from,
{
    if from < 0 || from >= b.len() {
        None
    } else if b[from] == 0x7du8 {
        Some(from)
    } else {
        spec_closing_brace(b, from + 1)
    }
}

/// A `}` found from `from` on lies at or after `from`, within `b`.
pub proof fn lemma_closing_brace_within(b: Seq<u8>, from: int)
    ensures
        spec_closing_brace(b, from) matches Some(j) ==> from <= j < b.len() && b[j] == 0x7du8,
    decreases b.len() - from,
{
    if from >= 0 && from < b.len() && b[from] != 0x7du8 {
        lemma_closing_brace_within(b, from + 1);
    }
}

/// Whether a placeholder `${...}` opens at position `i` of `b` and is closed.
pub open spec fn spec_placeholder_at(b: Seq<u8>, i: int) -> bool {
    &&& 0 <= i
    &&& i + 1 < b.len()
    &&& b[i] == 0x24u8
    &&& b[i + 1] == 0x7bu8
    &&& spec_closing_brace(b, i + 2) is Some
}

/// The keys of the placeholders `${key}` of the template bytes `b` from position `i` on,
/// in order.
pub open spec fn spec_template_keys(b: Seq<u8>, i: int) -> Seq<Seq<u8>>
    decreases b.len() - i,
{
    if i < 0 || i >= b.len() {
        Seq::empty()
    } else if spec_placeholder_at(b, i) {
        let j = spec_closing_brace(b, i + 2)->Some_0;
        proof {
            lemma_closing_brace_within(b, i + 2);
        }
        seq![b.subrange(i + 2, j)] + spec_template_keys(b, j + 1)
    } else {
        spec_template_keys(b, i + 1)
    }
}

/// The text standing for the `k`-th placeholder: the `k`-th of `values`, nothing past them.
pub open spec fn spec_value_at(values: Seq<Seq<char>>, k: int) -> Seq<char> {
    if 0 <= k < values.len() {
        values[k]
    } else {
        Seq::empty()
    }
}

/// The template bytes `b` from position `i` on with the placeholders, counted from `k`,
/// replaced by `values`; every other byte is taken as the character of that number.
pub open spec fn spec_filled(b: Seq<u8>, i: int, values: Seq<Seq<char>>, k: int) -> Seq<char>
    decreases b.len() - i,
{
    if i < 0 || i >= b.len() {
        Seq::empty()
    } else if spec_placeholder_at(b, i) {
        let j = spec_closing_brace(b, i + 2)->Some_0;
        proof {
            lemma_closing_brace_within(b, i + 2);
        }
        spec_value_at(values, k) + spec_filled(b, j + 1, values, k + 1)
    } else {
        seq![b[i] as char] + spec_filled(b, i + 1, values, k)
    }
}

/// The views of a list of byte strings.
pub open spec fn spec_byte_views(v: Seq<Vec<u8>>) -> Seq<Seq<u8>> {
    v.map_values(|x: Vec<u8>| x@)
}

/// The views of a list of strings.
pub open spec fn spec_string_views(v: Seq<String>) -> Seq<Seq<char>> {
    v.map_values(|x: String| x@)
}

/// The first position from `from` on where `b` holds a `}`.
fn closing_brace(b: &[u8], from: usize) -> (res: Option<usize>)
    ensures
        match spec_closing_brace(b@, from as int) {
            Some(j) => res == Some(j as usize),
            None => res is None,
        },
{
    let mut j = from;
    while j < b.len()
        invariant
            from <= j,
            spec_closing_brace(b@, from as int) == spec_closing_brace(b@, j as int),
        decreases b@.len() - j,
    {
        if b[j] == 0x7du8 {
            return Some(j);
        }
        j = j + 1;
    }
    None
}

/// The end of the placeholder that opens at position `i` of `b`, if one does.
fn placeholder_end(b: &[u8], i: usize) -> (res: Option<usize>)
    requires
        i < b@.len(),
    ensures
        spec_placeholder_at(b@, i as int) ==> res is Some && res->Some_0 as int == spec_closing_brace(
            b@,
            i + 2,
        )->Some_0,
        !spec_placeholder_at(b@, i as int) ==> res is None,
        res matches Some(j) ==> i + 2 <= j < b@.len(),
{
    proof {
        lemma_closing_brace_within(b@, i + 2);
    }
    if b.len() - 1 > i && b[i] == 0x24u8 && b[i + 1] == 0x7bu8 {
        closing_brace(b, i + 2)
    } else {
        None
    }
}

/// The keys of the placeholders `${key}` of `template`, in order, as bytes of the
/// template; a `${` that is never closed is no placeholder.
pub fn template_keys(template: &str) -> (res: Vec<Vec<u8>>)
    ensures
        spec_byte_views(res@) == spec_template_keys(template.spec_bytes(), 0),
{
    let b = template.as_bytes();
    let mut keys: Vec<Vec<u8>> = Vec::new();
    let mut i: usize = 0;
    while i < b.len()
        invariant
            b@ == template.spec_bytes(),
            i <= b@.len(),
            spec_template_keys(b@, 0) == spec_byte_views(keys@) + spec_template_keys(b@, i as int),
        decreases b@.len() - i,
    {
        match placeholder_end(b, i) {
            Some(j) => {
                let mut key: Vec<u8> = Vec::new();
                let mut p = i + 2;
                while p < j
                    invariant
                        i + 2 <= p <= j,
                        j < b@.len(),
                        key@ == b@.subrange(i + 2, p as int),
                    decreases j - p,
                {
                    key.push(b[p]);
                    p = p + 1;
                    assert(key@ =~= b@.subrange(i + 2, p as int));
                }
                let ghost before = keys@;
                keys.push(key);
                assert(spec_byte_views(keys@) =~= spec_byte_views(before).push(
                    b@.subrange(i + 2, j as int),
                ));
                assert(spec_byte_views(keys@) + spec_template_keys(b@, j + 1) =~= spec_byte_views(
                    before,
                ) + (seq![b@.subrange(i + 2, j as int)] + spec_template_keys(b@, j + 1)));
                i = j + 1;
            },
            None => {
                i = i + 1;
            },
        }
    }
    assert(spec_template_keys(b@, i as int) =~= Seq::<Seq<u8>>::empty());
    assert(spec_byte_views(keys@) + Seq::<Seq<u8>>::empty() =~= spec_byte_views(keys@));
    keys
}

/// The `interpolate` function once the placeholders are resolved: `template` with its
/// `k`-th placeholder `${key}` replaced by `values[k]` (by nothing where there are fewer
/// values), and every other byte of the template taken as the character of that number.
pub fn fill_template(template: &str, values: &Vec<String>) -> (res: String)
    ensures
        res@ == spec_filled(template.spec_bytes(), 0, spec_string_views(values@), 0),
{
    let b = template.as_bytes();
    let ghost vs = spec_string_views(values@);
    let mut out: Vec<char> = Vec::new();
    let mut i: usize = 0;
    let mut k: usize = 0;
    while i < b.len()
        invariant
            b@ == template.spec_bytes(),
            vs == spec_string_views(values@),
            i <= b@.len(),
            k <= i,
            spec_filled(b@, 0, vs, 0) == out@ + spec_filled(b@, i as int, vs, k as int),
        decreases b@.len() - i,
    {
        let ghost before = out@;
        match placeholder_end(b, i) {
            Some(j) => {
                if k < values.len() {
                    push_str_chars(&mut out, values[k].as_str());
                    assert(values@[k as int]@ == vs[k as int]);
                }
                assert(out@ =~= before + spec_value_at(vs, k as int));
                assert(before + (spec_value_at(vs, k as int) + spec_filled(
                    b@,
                    j + 1,
                    vs,
                    k + 1,
                )) =~= out@ + spec_filled(b@, j + 1, vs, k + 1));
                i = j + 1;
                k = k + 1;
            },
            None => {
                out.push(b[i] as char);
                assert(before + (seq![b@[i as int] as char] + spec_filled(b@, i + 1, vs, k as int))
                    =~= out@ + spec_filled(b@, i + 1, vs, k as int));
                i = i + 1;
            },
        }
    }
    assert(spec_filled(b@, i as int, vs, k as int) =~= Seq::<char>::empty());
    assert(out@ + Seq::<char>::empty() =~= out@);
    string_from_chars(out.as_slice())
}

} // verus!
