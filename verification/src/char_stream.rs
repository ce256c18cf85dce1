use vstd::prelude::*;

use crate::text::{chars_of, string_from_chars};

verus! {

/// Source text read one character at a time.
pub struct CharStream {
    pub chars: Vec<char>,
    pub position: usize,
}

/// Whether `c` is a space, tab, line feed or carriage return.
pub open spec fn is_blank(c: char) -> bool {
    c == ' ' || c == '\t' || c == '\n' || c == '\r'
}

/// Whether `c` is an ASCII letter or digit.
pub open spec fn is_ascii_alphanumeric(c: char) -> bool {
    ('a' <= c && c <= 'z') || ('A' <= c && c <= 'Z') || ('0' <= c && c <= '9')
}

/// The length of the longest run of characters of `s`, from `start` on, that satisfy `p`.
pub open spec fn run_length(s: Seq<char>, start: int, p: spec_fn(char) -> bool) -> nat
    decreases s.len() - start,
{
    if start < 0 || start >= s.len() || !p(s[start]) {
        0
    } else {
        1 + run_length(s, start + 1, p)
    }
}

impl CharStream {
    /// The position lies within the text or just after it.
    pub open spec fn wf(&self) -> bool {
        self.position <= self.chars@.len()
    }

    /// A stream at the start of `text`.
    pub fn new(text: &str) -> (res: CharStream)
        ensures
            res.wf(),
            res.chars@ == text@,
            res.position == 0,
    {
        CharStream { chars: chars_of(text), position: 0 }
    }

    /// The character at the position, without moving.
    pub fn peek(&self) -> (res: Option<char>)
        requires
            self.wf(),
        ensures
            res == (if self.position < self.chars@.len() {
                Some(self.chars@[self.position as int])
            } else {
                None
            }),
    {
        if self.position < self.chars.len() {
            Some(self.chars[self.position])
        } else {
            None
        }
    }

    /// The character at the position, moving past it.
    pub fn next(&mut self) -> (res: Option<char>)
        requires
            old(self).wf(),
        ensures
            final(self).wf(),
            final(self).chars@ == old(self).chars@,
            res == (if old(self).position < old(self).chars@.len() {
                Some(old(self).chars@[old(self).position as int])
            } else {
                None
            }),
            final(self).position == (if old(self).position < old(self).chars@.len() {
                old(self).position + 1
            } else {
                old(self).position as int
            }),
    {
        if self.position < self.chars.len() {
            let c = self.chars[self.position];
            self.position = self.position + 1;
            Some(c)
        } else {
            None
        }
    }

    /// Moves past spaces, tabs and line breaks.
    pub fn skip_whitespace(&mut self)
        requires
            old(self).wf(),
        ensures
            final(self).wf(),
            final(self).chars@ == old(self).chars@,
            final(self).position == old(self).position + run_length(
                old(self).chars@,
                old(self).position as int,
                |c: char| is_blank(c),
            ),
    {
        let ghost start = self.position as int;
        let ghost s = self.chars@;
        while self.position < self.chars.len() && is_blank_char(self.chars[self.position])
            invariant
                self.wf(),
                self.chars@ == s,
                start <= self.position,
                run_length(s, start, |c: char| is_blank(c)) == (self.position - start)
                    + run_length(s, self.position as int, |c: char| is_blank(c)),
            decreases self.chars@.len() - self.position,
        {
            self.position = self.position + 1;
        }
    }

    /// Reads the ASCII letters and digits at the position.
    pub fn get_alphanumeric(&mut self) -> (res: String)
        requires
            old(self).wf(),
        ensures
            final(self).wf(),
            final(self).chars@ == old(self).chars@,
            final(self).position == old(self).position + run_length(
                old(self).chars@,
                old(self).position as int,
                |c: char| is_ascii_alphanumeric(c),
            ),
            res@ == old(self).chars@.subrange(
                old(self).position as int,
                final(self).position as int,
            ),
    {
        let ghost start = self.position as int;
        let ghost s = self.chars@;
        let mut word: Vec<char> = Vec::new();
        while self.position < self.chars.len() && is_alphanumeric_char(self.chars[self.position])
            invariant
                self.wf(),
                self.chars@ == s,
                start <= self.position,
                word@ == s.subrange(start, self.position as int),
                run_length(s, start, |c: char| is_ascii_alphanumeric(c)) == (self.position - start)
                    + run_length(s, self.position as int, |c: char| is_ascii_alphanumeric(c)),
            decreases self.chars@.len() - self.position,
        {
            word.push(self.chars[self.position]);
            self.position = self.position + 1;
            assert(word@ =~= s.subrange(start, self.position as int));
        }
        string_from_chars(word.as_slice())
    }
}

/// Whether `c` is a space, tab, line feed or carriage return.
fn is_blank_char(c: char) -> (res: bool)
    ensures
        res == is_blank(c),
{
    c == ' ' || c == '\t' || c == '\n' || c == '\r'
}

/// Whether `c` is an ASCII letter or digit.
fn is_alphanumeric_char(c: char) -> (res: bool)
    ensures
        res == is_ascii_alphanumeric(c),
{
    ('a' <= c && c <= 'z') || ('A' <= c && c <= 'Z') || ('0' <= c && c <= '9')
}

} // verus!
