use vstd::prelude::*;

use crate::char_stream::CharStream;
use crate::errors::ParseErrorEnum;
use crate::text::{chars_equal_str, chars_of, push_chars, push_str_chars, string_from_chars};

verus! {

/// A comparison between two values.
#[derive(Debug, Clone, Copy, PartialEq, Eq, Structural)]
pub enum ComparatorEnum {
    Equals,
    NotEquals,
    Less,
    Greater,
    LessEquals,
    GreaterEquals,
}

/// The notation of a comparator.
pub open spec fn spec_comparator_str(c: ComparatorEnum) -> Seq<char> {
    match c {
        ComparatorEnum::Equals => "="@,
        ComparatorEnum::NotEquals => "<>"@,
        ComparatorEnum::Less => "<"@,
        ComparatorEnum::Greater => ">"@,
        ComparatorEnum::LessEquals => "<="@,
        ComparatorEnum::GreaterEquals => ">="@,
    }
}

/// The comparator written `s`, if any.
pub open spec fn spec_comparator_from(s: Seq<char>) -> Option<ComparatorEnum> {
    if s == "="@ {
        Some(ComparatorEnum::Equals)
    } else if s == "<>"@ {
        Some(ComparatorEnum::NotEquals)
    } else if s == "<"@ {
        Some(ComparatorEnum::Less)
    } else if s == ">"@ {
        Some(ComparatorEnum::Greater)
    } else if s == "<="@ {
        Some(ComparatorEnum::LessEquals)
    } else if s == ">="@ {
        Some(ComparatorEnum::GreaterEquals)
    } else {
        None
    }
}

/// The comparator read from a first character `first` followed by `next`, and whether
/// `next` belongs to it.
pub open spec fn spec_comparator_chars(first: char, next: Option<char>) -> (Option<
    ComparatorEnum,
>, bool) {
    if first == '<' && next == Some('=') {
        (Some(ComparatorEnum::LessEquals), true)
    } else if first == '>' && next == Some('=') {
        (Some(ComparatorEnum::GreaterEquals), true)
    } else if first == '<' && next == Some('>') {
        (Some(ComparatorEnum::NotEquals), true)
    } else if first == '=' {
        (Some(ComparatorEnum::Equals), false)
    } else if first == '<' {
        (Some(ComparatorEnum::Less), false)
    } else if first == '>' {
        (Some(ComparatorEnum::Greater), false)
    } else {
        (None, false)
    }
}

/// An `UnknownParseError` whose text is `prefix` followed by `value`.
fn unknown_error(prefix: &str, value: &[char]) -> (res: ParseErrorEnum)
    ensures
        res is UnknownParseError,
        res->UnknownParseError_0@ == prefix@ + value@,
{
    let mut text: Vec<char> = Vec::new();
    push_str_chars(&mut text, prefix);
    push_chars(&mut text, value);
    ParseErrorEnum::UnknownParseError(string_from_chars(text.as_slice()))
}

impl ComparatorEnum {
    /// The notation of the comparator.
    pub fn as_str(&self) -> (res: &'static str)
        ensures
            res@ == spec_comparator_str(*self),
    {
        match self {
            ComparatorEnum::Equals => "=",
            ComparatorEnum::NotEquals => "<>",
            ComparatorEnum::Less => "<",
            ComparatorEnum::Greater => ">",
            ComparatorEnum::LessEquals => "<=",
            ComparatorEnum::GreaterEquals => ">=",
        }
    }

    /// The comparator written `value`; an unknown text is an `UnknownParseError`
    /// reading `Unknown comparator: ` and the text.
    pub fn try_from(value: &str) -> (res: Result<ComparatorEnum, ParseErrorEnum>)
        ensures
            spec_comparator_from(value@) matches Some(c) ==> res == Ok::<
                ComparatorEnum,
                ParseErrorEnum,
            >(c),
            spec_comparator_from(value@) is None ==> res is Err && res->Err_0 is UnknownParseError
                && res->Err_0->UnknownParseError_0@ == "Unknown comparator: "@ + value@,
    {
        let chars = chars_of(value);
        let v = chars.as_slice();
        if chars_equal_str(v, "=") {
            Ok(ComparatorEnum::Equals)
        } else if chars_equal_str(v, "<>") {
            Ok(ComparatorEnum::NotEquals)
        } else if chars_equal_str(v, "<") {
            Ok(ComparatorEnum::Less)
        } else if chars_equal_str(v, ">") {
            Ok(ComparatorEnum::Greater)
        } else if chars_equal_str(v, "<=") {
            Ok(ComparatorEnum::LessEquals)
        } else if chars_equal_str(v, ">=") {
            Ok(ComparatorEnum::GreaterEquals)
        } else {
            Err(unknown_error("Unknown comparator: ", v))
        }
    }

    /// Reads a comparator at the position of `iter`: its next character, and the one after
    /// it when that completes `<=`, `>=` or `<>`. Nothing is read past an unknown character.
    pub fn parse(iter: &mut CharStream) -> (res: Option<ComparatorEnum>)
        requires
            old(iter).wf(),
            old(iter).position < old(iter).chars@.len(),
        ensures
            final(iter).wf(),
            final(iter).chars@ == old(iter).chars@,
            ({
                let first = old(iter).chars@[old(iter).position as int];
                let next = if old(iter).position + 1 < old(iter).chars@.len() {
                    Some(old(iter).chars@[old(iter).position + 1])
                } else {
                    None
                };
                let (c, two) = spec_comparator_chars(first, next);
                &&& res == c
                &&& final(iter).position == old(iter).position + if two {
                    2int
                } else {
                    1int
                }
            }),
    {
        let first = iter.next();
        let next = iter.peek();
        match (first, next) {
            (Some('<'), Some('=')) => {
                iter.next();
                Some(ComparatorEnum::LessEquals)
            },
            (Some('>'), Some('=')) => {
                iter.next();
                Some(ComparatorEnum::GreaterEquals)
            },
            (Some('<'), Some('>')) => {
                iter.next();
                Some(ComparatorEnum::NotEquals)
            },
            (Some('='), _) => Some(ComparatorEnum::Equals),
            (Some('<'), _) => Some(ComparatorEnum::Less),
            (Some('>'), _) => Some(ComparatorEnum::Greater),
            _ => None,
        }
    }
}

/// An arithmetic operator.
#[derive(Debug, Clone, Copy, PartialEq, Eq, Structural)]
pub enum MathOperatorEnum {
    Addition,
    Subtraction,
    Multiplication,
    Division,
    Power,
    Modulus,
}

/// The notation of an arithmetic operator.
pub open spec fn spec_math_operator_str(op: MathOperatorEnum) -> Seq<char> {
    match op {
        MathOperatorEnum::Addition => "+"@,
        MathOperatorEnum::Subtraction => "-"@,
        MathOperatorEnum::Multiplication => "*"@,
        MathOperatorEnum::Division => "/"@,
        MathOperatorEnum::Power => "^"@,
        MathOperatorEnum::Modulus => "%"@,
    }
}

/// The arithmetic operator written `s`, if any; `×` and `÷` are accepted too.
pub open spec fn spec_math_operator_from(s: Seq<char>) -> Option<MathOperatorEnum> {
    if s == "+"@ {
        Some(MathOperatorEnum::Addition)
    } else if s == "-"@ {
        Some(MathOperatorEnum::Subtraction)
    } else if s == "*"@ || s == "×"@ {
        Some(MathOperatorEnum::Multiplication)
    } else if s == "/"@ || s == "÷"@ {
        Some(MathOperatorEnum::Division)
    } else if s == "^"@ {
        Some(MathOperatorEnum::Power)
    } else if s == "%"@ {
        Some(MathOperatorEnum::Modulus)
    } else {
        None
    }
}

impl MathOperatorEnum {
    /// The notation of the operator.
    pub fn as_str(&self) -> (res: &'static str)
        ensures
            res@ == spec_math_operator_str(*self),
    {
        match self {
            MathOperatorEnum::Addition => "+",
            MathOperatorEnum::Subtraction => "-",
            MathOperatorEnum::Multiplication => "*",
            MathOperatorEnum::Division => "/",
            MathOperatorEnum::Power => "^",
            MathOperatorEnum::Modulus => "%",
        }
    }

    /// The operator written `value`; an unknown text is an `UnknownParseError` reading
    /// `Unknown operator: ` and the text.
    pub fn try_from(value: &str) -> (res: Result<MathOperatorEnum, ParseErrorEnum>)
        ensures
            spec_math_operator_from(value@) matches Some(op) ==> res == Ok::<
                MathOperatorEnum,
                ParseErrorEnum,
            >(op),
            spec_math_operator_from(value@) is None ==> res is Err && res->Err_0 is UnknownParseError
                && res->Err_0->UnknownParseError_0@ == "Unknown operator: "@ + value@,
    {
        let chars = chars_of(value);
        let v = chars.as_slice();
        if chars_equal_str(v, "+") {
            Ok(MathOperatorEnum::Addition)
        } else if chars_equal_str(v, "-") {
            Ok(MathOperatorEnum::Subtraction)
        } else if chars_equal_str(v, "*") || chars_equal_str(v, "×") {
            Ok(MathOperatorEnum::Multiplication)
        } else if chars_equal_str(v, "/") || chars_equal_str(v, "÷") {
            Ok(MathOperatorEnum::Division)
        } else if chars_equal_str(v, "^") {
            Ok(MathOperatorEnum::Power)
        } else if chars_equal_str(v, "%") {
            Ok(MathOperatorEnum::Modulus)
        } else {
            Err(unknown_error("Unknown operator: ", v))
        }
    }
}

/// Reading the notation of a comparator gives the comparator back.
pub proof fn lemma_comparator_str_reads_back(c: ComparatorEnum)
    ensures
        spec_comparator_from(spec_comparator_str(c)) == Some(c),
{
    reveal_strlit("=");
    reveal_strlit("<>");
    reveal_strlit("<");
    reveal_strlit(">");
    reveal_strlit("<=");
    reveal_strlit(">=");
    let s = spec_comparator_str(c);
    if s != "="@ {
        assert(s.len() != 1 || s[0] != '=');
    }
    if s != "<>"@ {
        assert(s.len() != 2 || s[0] != '<' || s[1] != '>');
    }
    if s != "<"@ {
        assert(s.len() != 1 || s[0] != '<');
    }
    if s != ">"@ {
        assert(s.len() != 1 || s[0] != '>');
    }
    if s != "<="@ {
        assert(s.len() != 2 || s[0] != '<' || s[1] != '=');
    }
    match c {
        ComparatorEnum::Equals => {},
        ComparatorEnum::NotEquals => {
            assert(s != "="@);
        },
        ComparatorEnum::Less => {
            assert(s != "="@);
            assert(s != "<>"@);
        },
        ComparatorEnum::Greater => {
            assert(s != "="@);
            assert(s != "<>"@);
            assert(s != "<"@);
        },
        ComparatorEnum::LessEquals => {
            assert(s != "="@);
            assert(s != "<>"@);
            assert(s != "<"@);
            assert(s != ">"@);
        },
        ComparatorEnum::GreaterEquals => {
            assert(s != "="@);
            assert(s != "<>"@);
            assert(s != "<"@);
            assert(s != ">"@);
            assert(s != "<="@);
        },
    }
}

/// Reading the notation of an arithmetic operator gives the operator back.
pub proof fn lemma_math_operator_str_reads_back(op: MathOperatorEnum)
    ensures
        spec_math_operator_from(spec_math_operator_str(op)) == Some(op),
{
    reveal_strlit("+");
    reveal_strlit("-");
    reveal_strlit("*");
    reveal_strlit("×");
    reveal_strlit("/");
    reveal_strlit("÷");
    reveal_strlit("^");
    reveal_strlit("%");
    let s = spec_math_operator_str(op);
    assert(s.len() == 1);
    if s != "+"@ {
        assert(s[0] != '+');
    }
    if s != "-"@ {
        assert(s[0] != '-');
    }
    if s != "*"@ {
        assert(s[0] != '*');
    }
    if s != "×"@ {
        assert(s[0] != '×');
    }
    if s != "/"@ {
        assert(s[0] != '/');
    }
    if s != "÷"@ {
        assert(s[0] != '÷');
    }
    if s != "^"@ {
        assert(s[0] != '^');
    }
}

/// The binding strength of the parts of an expression: the higher, the sooner it is built.
#[derive(Debug, Clone, Copy, PartialEq, Eq, Structural)]
pub enum EPriorities {
    ContextPriority,
    Assign,
    RangePriority,
    ReservedWords,
    GateNot,
    GateAnd,
    GatesXor,
    GatesOr,
    ComparatorPriority,
    CastPriority,
    FilterArray,
    FieldSelectionPriority,
    Plus,
    Minus,
    DivideMultiply,
    PowerPriority,
    FunctionCallPriority,
    ErrorPriority,
}

/// The number of a priority.
pub open spec fn spec_priority_value(p: EPriorities) -> u32 {
    match p {
        EPriorities::ContextPriority => 1,
        EPriorities::Assign => 2,
        EPriorities::RangePriority => 3,
        EPriorities::ReservedWords => 5,
        EPriorities::GateNot => 14,
        EPriorities::GateAnd => 9,
        EPriorities::GatesXor => 11,
        EPriorities::GatesOr => 13,
        EPriorities::ComparatorPriority => 15,
        EPriorities::CastPriority => 16,
        EPriorities::FilterArray => 17,
        EPriorities::FieldSelectionPriority => 26,
        EPriorities::Plus => 21,
        EPriorities::Minus => 22,
        EPriorities::DivideMultiply => 23,
        EPriorities::PowerPriority => 25,
        EPriorities::FunctionCallPriority => 27,
        EPriorities::ErrorPriority => 99,
    }
}

impl EPriorities {
    /// The number of the priority: 1 is built last, 99 first.
    pub fn value(&self) -> (res: u32)
        ensures
            res == spec_priority_value(*self),
    {
        match self {
            EPriorities::ContextPriority => 1,
            EPriorities::Assign => 2,
            EPriorities::RangePriority => 3,
            EPriorities::ReservedWords => 5,
            EPriorities::GateNot => 14,
            EPriorities::GateAnd => 9,
            EPriorities::GatesXor => 11,
            EPriorities::GatesOr => 13,
            EPriorities::ComparatorPriority => 15,
            EPriorities::CastPriority => 16,
            EPriorities::FilterArray => 17,
            EPriorities::FieldSelectionPriority => 26,
            EPriorities::Plus => 21,
            EPriorities::Minus => 22,
            EPriorities::DivideMultiply => 23,
            EPriorities::PowerPriority => 25,
            EPriorities::FunctionCallPriority => 27,
            EPriorities::ErrorPriority => 99,
        }
    }
}

/// The building level of a part with `priority` at nesting depth `ctx`: each level of
/// nesting outranks every priority.
pub fn calc_level(priority: u32, ctx: u32) -> (res: u32)
    requires
        ctx * 100 + priority <= u32::MAX,
    ensures
        res == ctx * 100 + priority,
{
    ctx * 100 + priority
}

} // verus!
