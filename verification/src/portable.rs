use vstd::prelude::*;

use crate::text::{chars_equal_str, chars_of, push_chars, push_str_chars, string_from_chars};
use crate::type_parse::{parse_type, spec_strip_list_suffixes, spec_type_ref_is};
use crate::types::ComplexTypeRef;
use crate::utils::{slice_chars, strings_view};

verus! {

/// An error of the portable model interface, carried as its message.
#[derive(Debug)]
pub struct PortableError {
    message: String,
}

impl PortableError {
    /// The message the error carries.
    pub closed spec fn spec_message(&self) -> Seq<char> {
        self.message@
    }

    /// An error carrying `message`.
    pub fn new(message: String) -> (res: Self)
        ensures
            res.spec_message() == message@,
    {
        PortableError { message }
    }

    /// The message the error carries.
    pub fn into_message(self) -> (res: String)
        ensures
            res@ == self.spec_message(),
    {
        self.message
    }

    /// The message the error carries, as it is shown.
    pub fn to_message(&self) -> (res: String)
        ensures
            res@ == self.spec_message(),
    {
        let chars = chars_of(self.message.as_str());
        string_from_chars(chars.as_slice())
    }
}

/// Whether `c` has the Unicode `White_Space` property, as `char::is_whitespace` tells.
pub open spec fn is_unicode_whitespace(c: char) -> bool {
    ('\u{9}' <= c && c <= '\u{d}') || c == ' ' || c == '\u{85}' || c == '\u{a0}' || c == '\u{1680}'
        || ('\u{2000}' <= c && c <= '\u{200a}') || c == '\u{2028}' || c == '\u{2029}' || c
        == '\u{202f}' || c == '\u{205f}' || c == '\u{3000}'
}

/// The number of white space characters at the start of `s`.
pub open spec fn leading_whitespace(s: Seq<char>) -> nat
    decreases s.len(),
{
    if s.len() == 0 || !is_unicode_whitespace(s[0]) {
        0
    } else {
        1 + leading_whitespace(s.drop_first())
    }
}

/// The number of white space characters at the end of `s`.
pub open spec fn trailing_whitespace(s: Seq<char>) -> nat
    decreases s.len(),
{
    if s.len() == 0 || !is_unicode_whitespace(s.last()) {
        0
    } else {
        1 + trailing_whitespace(s.drop_last())
    }
}

/// `s` without white space at either end, as `str::trim` gives it.
pub open spec fn spec_trim(s: Seq<char>) -> Seq<char> {
    if leading_whitespace(s) >= s.len() {
        Seq::empty()
    } else {
        s.subrange(leading_whitespace(s) as int, s.len() - trailing_whitespace(s))
    }
}

/// The pieces of `s` between the occurrences of `sep`, as `str::split` gives them.
pub open spec fn spec_split(s: Seq<char>, sep: char) -> Seq<Seq<char>>
    decreases s.len(),
{
    if s.len() == 0 {
        seq![Seq::empty()]
    } else {
        let pieces = spec_split(s.drop_last(), sep);
        if s.last() == sep {
            pieces.push(Seq::empty())
        } else {
            pieces.update(pieces.len() - 1, pieces.last().push(s.last()))
        }
    }
}

/// The path `path` read as dot-separated names: the enclosing names, if any, and the
/// last name; or the text of the error.
pub open spec fn spec_split_path(path: Seq<char>) -> Result<
    (Option<Seq<Seq<char>>>, Seq<char>),
    Seq<char>,
> {
    let trimmed = spec_trim(path);
    if trimmed.len() == 0 {
        Err("Path cannot be empty"@)
    } else {
        let segments = spec_split(trimmed, '.').map_values(|p: Seq<char>| spec_trim(p));
        if exists|i: int| 0 <= i < segments.len() && segments[i].len() == 0 {
            Err("Invalid path '"@ + path + "'"@)
        } else if segments.len() == 1 {
            Ok((None, segments.last()))
        } else {
            Ok((Some(segments.drop_last()), segments.last()))
        }
    }
}

proof fn lemma_spec_split_nonempty(s: Seq<char>, sep: char)
    ensures
        spec_split(s, sep).len() >= 1,
    decreases s.len(),
{
    if s.len() > 0 {
        lemma_spec_split_nonempty(s.drop_last(), sep);
    }
}

/// Whether `c` has the Unicode `White_Space` property.
fn is_whitespace_char(c: char) -> (res: bool)
    ensures
        res == is_unicode_whitespace(c),
{
    ('\u{9}' <= c && c <= '\u{d}') || c == ' ' || c == '\u{85}' || c == '\u{a0}' || c == '\u{1680}'
        || ('\u{2000}' <= c && c <= '\u{200a}') || c == '\u{2028}' || c == '\u{2029}' || c
        == '\u{202f}' || c == '\u{205f}' || c == '\u{3000}'
}

proof fn lemma_leading_whitespace_run(s: Seq<char>, k: int)
    requires
        0 <= k <= s.len(),
        forall|i: int| 0 <= i < k ==> is_unicode_whitespace(#[trigger] s[i]),
        k == s.len() || !is_unicode_whitespace(s[k]),
    ensures
        leading_whitespace(s) == k,
    decreases k,
{
    if k > 0 {
        let t = s.drop_first();
        assert forall|i: int| 0 <= i < k - 1 implies is_unicode_whitespace(#[trigger] t[i]) by {
            assert(t[i] == s[i + 1]);
        }
        if k < s.len() {
            assert(t[k - 1] == s[k]);
        }
        lemma_leading_whitespace_run(t, k - 1);
        assert(is_unicode_whitespace(s[0]));
    }
}

proof fn lemma_trailing_whitespace_run(s: Seq<char>, k: int)
    requires
        0 <= k <= s.len(),
        forall|i: int| s.len() - k <= i < s.len() ==> is_unicode_whitespace(#[trigger] s[i]),
        k == s.len() || !is_unicode_whitespace(s[s.len() - k - 1]),
    ensures
        trailing_whitespace(s) == k,
    decreases k,
{
    if k > 0 {
        let t = s.drop_last();
        assert forall|i: int| t.len() - (k - 1) <= i < t.len() implies is_unicode_whitespace(
            #[trigger] t[i],
        ) by {
            assert(t[i] == s[i]);
        }
        if k < s.len() {
            assert(t[t.len() - (k - 1) - 1] == s[s.len() - k - 1]);
        }
        lemma_trailing_whitespace_run(t, k - 1);
        assert(is_unicode_whitespace(s[s.len() - 1]));
    }
}

/// `chars` without white space at either end.
pub fn trim_chars(chars: &Vec<char>) -> (res: Vec<char>)
    ensures
        res@ == spec_trim(chars@),
{
    let n = chars.len();
    let mut start: usize = 0;
    while start < n && is_whitespace_char(chars[start])
        invariant
            n == chars@.len(),
            start <= n,
            forall|i: int| 0 <= i < start ==> is_unicode_whitespace(#[trigger] chars@[i]),
        decreases n - start,
    {
        start = start + 1;
    }
    proof {
        lemma_leading_whitespace_run(chars@, start as int);
    }
    if start == n {
        return Vec::new();
    }
    let mut end: usize = n;
    while end > start && is_whitespace_char(chars[end - 1])
        invariant
            n == chars@.len(),
            start < n,
            !is_unicode_whitespace(chars@[start as int]),
            start <= end <= n,
            forall|i: int| end <= i < n ==> is_unicode_whitespace(#[trigger] chars@[i]),
        decreases end,
    {
        end = end - 1;
    }
    proof {
        if end == start {
            assert(false);
        }
        lemma_trailing_whitespace_run(chars@, (n - end) as int);
    }
    slice_chars(chars, start, end)
}

/// The pieces of `chars` between the occurrences of `sep`.
pub fn split_chars(chars: &Vec<char>, sep: char) -> (res: Vec<Vec<char>>)
    ensures
        res@.map_values(|p: Vec<char>| p@) == spec_split(chars@, sep),
{
    let mut pieces: Vec<Vec<char>> = Vec::new();
    let mut current: Vec<char> = Vec::new();
    let mut i: usize = 0;
    while i < chars.len()
        invariant
            i <= chars@.len(),
            pieces@.map_values(|p: Vec<char>| p@).push(current@) == spec_split(
                chars@.take(i as int),
                sep,
            ),
        decreases chars@.len() - i,
    {
        let ghost prefix = chars@.take(i + 1);
        assert(prefix.drop_last() =~= chars@.take(i as int));
        let c = chars[i];
        if c == sep {
            let done = current;
            pieces.push(done);
            current = Vec::new();
            assert(pieces@.map_values(|p: Vec<char>| p@).push(current@) =~= spec_split(prefix, sep));
        } else {
            current.push(c);
            assert(pieces@.map_values(|p: Vec<char>| p@).push(current@) =~= spec_split(prefix, sep));
        }
        i = i + 1;
    }
    assert(chars@.take(chars@.len() as int) =~= chars@);
    pieces.push(current);
    pieces
}

/// What an entry of a portable model is: a function, a user type, a context, or an
/// expression.
#[derive(Clone, Copy, Debug, PartialEq, Eq, Structural)]
pub enum PortableKind {
    Function,
    Type,
    Context,
    Expression,
}

/// What a portable entry is, from whether it is an object and, for an object, the text of
/// its `@type` member when that member is a string: `function` and `type` name their kinds,
/// any other object is a context, and anything else is an expression.
pub fn classify_entry(is_object: bool, type_tag: Option<&str>) -> (res: PortableKind)
    ensures
        !is_object ==> res == PortableKind::Expression,
        is_object ==> res == (match type_tag {
            Some(t) => if t@ == "function"@ {
                PortableKind::Function
            } else if t@ == "type"@ {
                PortableKind::Type
            } else {
                PortableKind::Context
            },
            None => PortableKind::Context,
        }),
{
    if !is_object {
        return PortableKind::Expression;
    }
    match type_tag {
        Some(t) => {
            let chars = chars_of(t);
            if chars_equal_str(chars.as_slice(), "function") {
                PortableKind::Function
            } else if chars_equal_str(chars.as_slice(), "type") {
                PortableKind::Type
            } else {
                PortableKind::Context
            }
        },
        None => PortableKind::Context,
    }
}

/// `s` is written between `<` and `>`.
pub open spec fn spec_in_angles(s: Seq<char>) -> bool {
    s.len() >= 2 && s[0] == '<' && s[s.len() - 1] == '>'
}

/// The message for a type reference `text` that is not written between `<` and `>`.
pub open spec fn spec_angle_type_message(text: Seq<char>) -> Seq<char> {
    "Type reference '"@ + text + "' must use <...> notation"@
}

/// Reads a type reference written `<type>`, blanks around it and inside the brackets
/// allowed, as `parse_type` reads `type`; any other text is an error.
pub fn parse_angle_type(text: &str) -> (res: Result<ComplexTypeRef, PortableError>)
    ensures
        spec_in_angles(spec_trim(text@)) ==> res is Ok && ({
            let inner = spec_trim(spec_trim(text@).subrange(1, spec_trim(text@).len() - 1));
            spec_type_ref_is(
                res->Ok_0,
                spec_strip_list_suffixes(inner).1,
                spec_strip_list_suffixes(inner).0,
            )
        }),
        !spec_in_angles(spec_trim(text@)) ==> res is Err && res->Err_0.spec_message()
            == spec_angle_type_message(text@),
{
    let chars = chars_of(text);
    let trimmed = trim_chars(&chars);
    let n = trimmed.len();
    if n >= 2 && trimmed[0] == '<' && trimmed[n - 1] == '>' {
        let inner = slice_chars(&trimmed, 1, n - 1);
        let inner_trimmed = trim_chars(&inner);
        let name = string_from_chars(inner_trimmed.as_slice());
        Ok(parse_type(name.as_str()))
    } else {
        let mut out: Vec<char> = Vec::new();
        push_str_chars(&mut out, "Type reference '");
        push_chars(&mut out, chars.as_slice());
        push_str_chars(&mut out, "' must use <...> notation");
        assert(out@ =~= spec_angle_type_message(text@));
        Err(PortableError::new(string_from_chars(out.as_slice())))
    }
}

/// Splits a dot-separated path, such as `calendar.config.start`, into its enclosing names
/// and its last name; each name is trimmed. A blank path and a path with an empty name
/// are errors.
pub fn split_path(path: &str) -> (res: Result<(Option<Vec<String>>, String), PortableError>)
    ensures
        match spec_split_path(path@) {
            Ok((context, name)) => res is Ok && res->Ok_0.1@ == name && (match context {
                None => res->Ok_0.0 is None,
                Some(c) => res->Ok_0.0 is Some && strings_view(res->Ok_0.0->Some_0@) == c,
            }),
            Err(m) => res is Err && res->Err_0.spec_message() == m,
        },
{
    let chars = chars_of(path);
    let trimmed = trim_chars(&chars);
    if trimmed.len() == 0 {
        return Err(PortableError::new(String::from_str("Path cannot be empty")));
    }
    let pieces = split_chars(&trimmed, '.');
    let ghost pieces_view = pieces@.map_values(|p: Vec<char>| p@);
    let ghost segments_view = pieces_view.map_values(|p: Seq<char>| spec_trim(p));
    let mut segments: Vec<String> = Vec::new();
    let mut k: usize = 0;
    while k < pieces.len()
        invariant
            k <= pieces@.len(),
            pieces_view == pieces@.map_values(|p: Vec<char>| p@),
            segments_view == pieces_view.map_values(|p: Seq<char>| spec_trim(p)),
            strings_view(segments@) == segments_view.take(k as int),
            forall|i: int| 0 <= i < k ==> segments_view[i].len() > 0,
            chars@ == path@,
            trimmed@ == spec_trim(path@),
            trimmed@.len() > 0,
            pieces_view == spec_split(trimmed@, '.'),
        decreases pieces@.len() - k,
    {
        let segment = trim_chars(&pieces[k]);
        assert(segment@ == segments_view[k as int]);
        if segment.len() == 0 {
            let mut text: Vec<char> = Vec::new();
            push_str_chars(&mut text, "Invalid path '");
            push_chars(&mut text, chars.as_slice());
            push_str_chars(&mut text, "'");
            proof {
                assert(segments_view[k as int].len() == 0);
                assert(spec_split(spec_trim(path@), '.').map_values(|p: Seq<char>| spec_trim(p))
                    == segments_view);
            }
            return Err(PortableError::new(string_from_chars(text.as_slice())));
        }
        let text = string_from_chars(segment.as_slice());
        let ghost before = segments@;
        segments.push(text);
        assert(segments@ == before.push(text));
        assert(strings_view(segments@) =~= strings_view(before).push(text@));
        assert(strings_view(segments@) =~= segments_view.take(k + 1));
        k = k + 1;
    }
    proof {
        lemma_spec_split_nonempty(trimmed@, '.');
        assert(segments_view.take(k as int) =~= segments_view);
    }
    let name = segments.pop().unwrap();
    assert(strings_view(segments@) =~= segments_view.drop_last());
    if segments.len() == 0 {
        return Ok((None, name));
    }
    Ok((Some(segments), name))
}

} // verus!
