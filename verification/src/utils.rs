use vstd::prelude::*;

use std::collections::VecDeque;

use crate::text::{chars_of, push_chars, push_str_chars, string_from_chars};

verus! {

/// The texts of `parts` with `sep` between each two.
pub open spec fn spec_join(parts: Seq<Seq<char>>, sep: Seq<char>) -> Seq<char>
    decreases parts.len(),
{
    if parts.len() == 0 {
        Seq::empty()
    } else if parts.len() == 1 {
        parts[0]
    } else {
        spec_join(parts.drop_last(), sep) + sep + parts.last()
    }
}

/// The texts of `parts` one after another.
pub open spec fn spec_concat(parts: Seq<Seq<char>>) -> Seq<char>
    decreases parts.len(),
{
    if parts.len() == 0 {
        Seq::empty()
    } else {
        spec_concat(parts.drop_last()) + parts.last()
    }
}

/// The views of a sequence of strings.
pub open spec fn strings_view(parts: Seq<String>) -> Seq<Seq<char>> {
    parts.map_values(|s: String| s@)
}

/// The texts of `vec` with `sep` between each two.
pub fn to_display(vec: &[String], sep: &str) -> (res: String)
    ensures
        res@ == spec_join(strings_view(vec@), sep@),
{
    let mut out: Vec<char> = Vec::new();
    let mut i: usize = 0;
    while i < vec.len()
        invariant
            i <= vec@.len(),
            out@ == spec_join(strings_view(vec@.take(i as int)), sep@),
        decreases vec@.len() - i,
    {
        let part = chars_of(vec[i].as_str());
        let ghost before = strings_view(vec@.take(i as int));
        if i > 0 {
            push_str_chars(&mut out, sep);
        }
        push_chars(&mut out, part.as_slice());
        proof {
            let after = strings_view(vec@.take(i + 1));
            assert(after.drop_last() =~= before);
            assert(after.last() == vec@[i as int]@);
            if i == 0 {
                assert(after.len() == 1);
                assert(out@ =~= after[0]);
            }
        }
        i = i + 1;
    }
    assert(vec@.take(vec@.len() as int) =~= vec@);
    string_from_chars(out.as_slice())
}

/// The texts of `parts` with `sep` between each two.
pub fn array_to_code_sep(parts: Vec<String>, sep: &str) -> (res: String)
    ensures
        res@ == spec_join(strings_view(parts@), sep@),
{
    to_display(parts.as_slice(), sep)
}

/// The texts of `deque`, front to back, one after another.
pub fn to_string(deque: &VecDeque<String>) -> (res: String)
    ensures
        res@ == spec_concat(strings_view(deque@)),
{
    let mut out: Vec<char> = Vec::new();
    let mut i: usize = 0;
    while i < deque.len()
        invariant
            i <= deque@.len(),
            out@ == spec_concat(strings_view(deque@.take(i as int))),
        decreases deque@.len() - i,
    {
        let part = chars_of(deque[i].as_str());
        push_chars(&mut out, part.as_slice());
        proof {
            let after = strings_view(deque@.take(i + 1));
            assert(after.drop_last() =~= strings_view(deque@.take(i as int)));
        }
        i = i + 1;
    }
    assert(deque@.take(deque@.len() as int) =~= deque@);
    string_from_chars(out.as_slice())
}

/// `s` without its outer round brackets, when it starts with `(` and ends with `)`.
pub open spec fn spec_bracket_unwrap(s: Seq<char>) -> Seq<char> {
    if s.len() >= 2 && s[0] == '(' && s.last() == ')' {
        s.subrange(1, s.len() - 1)
    } else {
        s
    }
}

/// The name under which a function body's result is kept.
pub open spec fn return_expression_prefix() -> Seq<char> {
    "_return : "@
}

/// `s` without its outer braces, when it starts with `{` and ends with `}`; the inner text
/// then also loses a leading `_return : `.
pub open spec fn spec_context_unwrap(s: Seq<char>) -> Seq<char> {
    if s.len() >= 2 && s[0] == '{' && s.last() == '}' {
        let inner = s.subrange(1, s.len() - 1);
        let p = return_expression_prefix();
        if inner.len() >= p.len() && inner.take(p.len() as int) == p {
            inner.skip(p.len() as int)
        } else {
            inner
        }
    } else {
        s
    }
}

/// Removes the round brackets around the whole of `input`.
pub fn bracket_unwrap(input: String) -> (res: String)
    ensures
        res@ == spec_bracket_unwrap(input@),
{
    let chars = chars_of(input.as_str());
    let n = chars.len();
    if n >= 2 && chars[0] == '(' && chars[n - 1] == ')' {
        let inner = slice_chars(&chars, 1, n - 1);
        string_from_chars(inner.as_slice())
    } else {
        input
    }
}

/// Removes the braces around the whole of `input`, and a leading `_return : ` inside them.
pub fn context_unwrap(input: String) -> (res: String)
    ensures
        res@ == spec_context_unwrap(input@),
{
    let chars = chars_of(input.as_str());
    let n = chars.len();
    if n >= 2 && chars[0] == '{' && chars[n - 1] == '}' {
        let inner = slice_chars(&chars, 1, n - 1);
        let prefix = chars_of("_return : ");
        let p = prefix.len();
        if inner.len() >= p && starts_with_chars(&inner, &prefix) {
            let rest = slice_chars(&inner, p, inner.len());
            string_from_chars(rest.as_slice())
        } else {
            string_from_chars(inner.as_slice())
        }
    } else {
        input
    }
}

/// The characters `chars[from..to]`.
pub fn slice_chars(chars: &Vec<char>, from: usize, to: usize) -> (res: Vec<char>)
    requires
        from <= to <= chars@.len(),
    ensures
        res@ == chars@.subrange(from as int, to as int),
{
    let mut out: Vec<char> = Vec::new();
    let mut i = from;
    while i < to
        invariant
            from <= i <= to <= chars@.len(),
            out@ == chars@.subrange(from as int, i as int),
        decreases to - i,
    {
        out.push(chars[i]);
        i = i + 1;
        assert(out@ =~= chars@.subrange(from as int, i as int));
    }
    out
}

/// Whether `chars` begins with `prefix`.
pub fn starts_with_chars(chars: &Vec<char>, prefix: &Vec<char>) -> (res: bool)
    ensures
        res == (prefix@.len() <= chars@.len() && chars@.take(prefix@.len() as int) == prefix@),
{
    if prefix.len() > chars.len() {
        return false;
    }
    let mut i: usize = 0;
    while i < prefix.len()
        invariant
            prefix@.len() <= chars@.len(),
            i <= prefix@.len(),
            chars@.take(i as int) == prefix@.take(i as int),
        decreases prefix@.len() - i,
    {
        if chars[i] != prefix[i] {
            assert(chars@.take(prefix@.len() as int)[i as int] != prefix@[i as int]);
            return false;
        }
        i = i + 1;
        assert(chars@.take(i as int) =~= prefix@.take(i as int));
    }
    assert(prefix@.take(prefix@.len() as int) =~= prefix@);
    true
}

/// What `char::to_uppercase` gives for `c`.
pub uninterp spec fn char_uppercase(c: char) -> Seq<char>;

/// `char::to_uppercase` of `c`: the characters of its upper case form (one for an ASCII
/// lower case letter: the matching upper case letter). Which characters other letters map
/// to follows the Unicode tables and is left unsaid.
#[verifier::external_body]
fn char_to_uppercase(c: char) -> (res: Vec<char>)
    ensures
        res@ == char_uppercase(c),
        'a' <= c <= 'z' ==> res@.len() == 1 && res@[0] as int == c as int - 32,
{
    c.to_uppercase().collect::<Vec<char>>()
}

/// `s` with its first character in upper case.
pub open spec fn spec_capitalize(s: Seq<char>) -> Seq<char> {
    if s.len() == 0 {
        Seq::empty()
    } else {
        char_uppercase(s[0]) + s.drop_first()
    }
}

/// `s` with its first character put in upper case.
pub fn capitalize(s: String) -> (res: String)
    ensures
        res@ == spec_capitalize(s@),
{
    let chars = chars_of(s.as_str());
    if chars.len() == 0 {
        return String::new();
    }
    let mut out = char_to_uppercase(chars[0]);
    let rest = slice_chars(&chars, 1, chars.len());
    push_chars(&mut out, rest.as_slice());
    assert(rest@ =~= s@.drop_first());
    string_from_chars(out.as_slice())
}

/// Text made of lines, each indented by the current depth.
pub struct Lines {
    ident: usize,
    lines: Vec<String>,
}

/// One line under construction.
pub struct Line {
    text: String,
}

/// `n` spaces.
pub open spec fn spaces(n: nat) -> Seq<char> {
    Seq::new(n, |i: int| ' ')
}

/// The width of the indentation for depth `ident` past the fixed widths: blocks of fifteen
/// spaces while more than five are missing, then blocks of three, from width `len` on.
pub open spec fn tab_width_from(ident: nat, len: nat) -> nat
    decreases ident + 15 - len,
{
    if len >= ident {
        len
    } else if ident - len > 5 {
        tab_width_from(ident, len + 15)
    } else {
        tab_width_from(ident, len + 3)
    }
}

/// The indentation for depth `ident`: three spaces per level up to five levels.
pub open spec fn spec_tab(ident: nat) -> Seq<char> {
    if ident < 6 {
        spaces(3 * ident)
    } else {
        spaces(tab_width_from(ident, 0))
    }
}

/// `n` spaces.
fn push_spaces(out: &mut Vec<char>, n: usize)
    ensures
        final(out)@ == old(out)@ + spaces(n as nat),
{
    let mut i: usize = 0;
    let ghost start = out@;
    while i < n
        invariant
            i <= n,
            out@ == start + spaces(i as nat),
        decreases n - i,
    {
        out.push(' ');
        i = i + 1;
        assert(out@ =~= start + spaces(i as nat));
    }
}

impl Lines {
    /// The lines written so far.
    pub closed spec fn spec_lines(&self) -> Seq<Seq<char>> {
        strings_view(self.lines@)
    }

    /// The current indentation depth.
    pub closed spec fn spec_ident(&self) -> nat {
        self.ident as nat
    }

    /// No lines, no indentation.
    pub fn new() -> (res: Self)
        ensures
            res.spec_lines().len() == 0,
            res.spec_ident() == 0,
    {
        Lines { lines: Vec::new(), ident: 0 }
    }

    /// Adds the text of `line` as a new line.
    pub fn add(&mut self, line: Line) -> (res: &mut Self)
        ensures
            res.spec_lines() == old(self).spec_lines().push(
                spec_tab(old(self).spec_ident()) + line.spec_text(),
            ),
            res.spec_ident() == old(self).spec_ident(),
            *final(self) == *final(res),
    {
        self.add_str(line.text.as_str())
    }

    /// The indentation for the current depth.
    fn get_tab(&self) -> (res: Vec<char>)
        ensures
            res@ == spec_tab(self.ident as nat),
    {
        if self.ident < 6 {
            let mut out: Vec<char> = Vec::new();
            push_spaces(&mut out, 3 * self.ident);
            out
        } else {
            let mut out: Vec<char> = Vec::new();
            while out.len() < self.ident
                invariant
                    self.ident >= 6,
                    out@ == spaces(out@.len()),
                    tab_width_from(self.ident as nat, 0) == tab_width_from(
                        self.ident as nat,
                        out@.len(),
                    ),
                    out@.len() < self.ident + 15,
                decreases self.ident + 15 - out@.len(),
            {
                if self.ident - out.len() > 5 {
                    push_spaces(&mut out, 15);
                } else {
                    push_spaces(&mut out, 3);
                }
                assert(out@ =~= spaces(out@.len()));
            }
            out
        }
    }

    /// Adds `text_str`, indented, as a new line.
    pub fn add_str(&mut self, text_str: &str) -> (res: &mut Self)
        ensures
            res.spec_lines() == old(self).spec_lines().push(
                spec_tab(old(self).spec_ident()) + text_str@,
            ),
            res.spec_ident() == old(self).spec_ident(),
            *final(self) == *final(res),
    {
        let mut text = self.get_tab();
        push_str_chars(&mut text, text_str);
        self.lines.push(string_from_chars(text.as_slice()));
        assert(strings_view(self.lines@) =~= strings_view(old(self).lines@).push(
            spec_tab(old(self).ident as nat) + text_str@,
        ));
        self
    }

    /// Indents the following lines one level deeper.
    pub fn tab(&mut self) -> (res: &mut Self)
        requires
            old(self).spec_ident() < usize::MAX,
        ensures
            res.spec_lines() == old(self).spec_lines(),
            res.spec_ident() == old(self).spec_ident() + 1,
            *final(self) == *final(res),
    {
        self.ident = self.ident + 1;
        self
    }

    /// Indents the following lines one level less.
    pub fn back(&mut self) -> (res: &mut Self)
        requires
            old(self).spec_ident() > 0,
        ensures
            res.spec_lines() == old(self).spec_lines(),
            res.spec_ident() == old(self).spec_ident() - 1,
            *final(self) == *final(res),
    {
        self.ident = self.ident - 1;
        self
    }

    /// The text: every line followed by a line break.
    pub fn to_text(&self) -> (res: String)
        ensures
            res@ == spec_concat(self.spec_lines().map_values(|l: Seq<char>| l.push('\n'))),
    {
        let mut out: Vec<char> = Vec::new();
        let mut i: usize = 0;
        while i < self.lines.len()
            invariant
                i <= self.lines@.len(),
                out@ == spec_concat(
                    strings_view(self.lines@.take(i as int)).map_values(|l: Seq<char>| l.push('\n')),
                ),
            decreases self.lines@.len() - i,
        {
            let line = chars_of(self.lines[i].as_str());
            push_chars(&mut out, line.as_slice());
            out.push('\n');
            proof {
                let after = strings_view(self.lines@.take(i + 1)).map_values(
                    |l: Seq<char>| l.push('\n'),
                );
                let before = strings_view(self.lines@.take(i as int)).map_values(
                    |l: Seq<char>| l.push('\n'),
                );
                assert(after.drop_last() =~= before);
                assert(after.last() == self.lines@[i as int]@.push('\n'));
                assert(out@ =~= spec_concat(before) + after.last());
            }
            i = i + 1;
        }
        assert(self.lines@.take(self.lines@.len() as int) =~= self.lines@);
        string_from_chars(out.as_slice())
    }
}

impl Line {
    /// The text of the line.
    pub closed spec fn spec_text(&self) -> Seq<char> {
        self.text@
    }

    /// An empty line.
    pub fn new() -> (res: Line)
        ensures
            res.spec_text() == Seq::<char>::empty(),
    {
        Line { text: String::new() }
    }

    /// Adds `text` at the end of the line.
    pub fn add(&mut self, text: &str) -> (res: &mut Self)
        ensures
            res.spec_text() == old(self).spec_text() + text@,
            *final(self) == *final(res),
    {
        self.text.append(text);
        self
    }
}

impl Default for Lines {
    fn default() -> (res: Self)
        ensures
            res.spec_lines().len() == 0,
            res.spec_ident() == 0,
    {
        Self::new()
    }
}

impl Default for Line {
    fn default() -> (res: Self)
        ensures
            res.spec_text() == Seq::<char>::empty(),
    {
        Self::new()
    }
}

} // verus!
