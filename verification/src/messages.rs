use vstd::prelude::*;

use crate::builtins::EFunctionType;
use crate::decimal::{decimal_digits, push_decimal};
use crate::errors::{
    ErrorStack, GeneralStackedError, LinkingErrorEnum, ParseErrorEnum, RuntimeErrorEnum,
};
use crate::text::{chars_of, push_chars, push_str_chars, string_from_chars};
use crate::types::{spec_type_string, ValueType};
use crate::utils::spec_join;

verus! {

/// How a list of types is written: each type, with ` or ` between them.
pub open spec fn spec_types_or(types: Seq<ValueType>) -> Seq<char> {
    spec_join(types.map_values(|t: ValueType| spec_type_string(t)), " or "@)
}

/// The message of a linking error.
pub open spec fn spec_linking_message(e: LinkingErrorEnum) -> Seq<char> {
    match e {
        LinkingErrorEnum::TypesNotCompatible(subject, unexpected, expected) => {
            let clean = match subject {
                Some(s) => s@,
                None => "Unexpected"@,
            };
            match expected {
                Some(types) => "[link] "@ + clean + " type '"@ + spec_type_string(unexpected)
                    + "', expected '"@ + spec_types_or(types@) + "'"@,
                None => clean + " type '"@ + spec_type_string(unexpected) + "'"@,
            }
        },
        LinkingErrorEnum::DifferentTypesDetected(subject, left, right) => match subject {
            Some(s) => "[link] "@ + s@ + " types `"@ + spec_type_string(left) + "` and `"@
                + spec_type_string(right) + "` must match"@,
            None => "[link] Operation is not supported for different types: "@ + spec_type_string(
                left,
            ) + " and "@ + spec_type_string(right),
        },
        LinkingErrorEnum::FunctionNotFound(name) => "[link] Function '"@ + name@ + "' not found"@,
        LinkingErrorEnum::FieldNotFound(object, field) => "[link] Field '"@ + field@
            + "' not found in "@ + object@,
        LinkingErrorEnum::CyclicReference(object, field) => "[link] Field "@ + object@ + "."@
            + field@ + " appears in a cyclic reference loop"@,
        LinkingErrorEnum::OtherLinkingError(message) => "[link] "@ + message@,
        LinkingErrorEnum::NotLinkedYet => "[link] Not linked yet"@,
        LinkingErrorEnum::OperationNotSupported(op, left, right) => "[link] Operation '"@ + op@
            + "' not supported for types '"@ + spec_type_string(left) + "' and '"@
            + spec_type_string(right) + "'"@,
    }
}

/// The message of an evaluation error.
pub open spec fn spec_runtime_message(e: RuntimeErrorEnum) -> Seq<char> {
    match e {
        RuntimeErrorEnum::EvalError(message) => "[runtime] "@ + message@,
        RuntimeErrorEnum::TypeNotSupported(t) => "[runtime] Type '"@ + spec_type_string(t)
            + "' is not supported"@,
        RuntimeErrorEnum::RuntimeCyclicReference(first, second) => "[runtime] Field "@ + first@
            + "."@ + second@ + " appears in a cyclic reference loop"@,
        RuntimeErrorEnum::RuntimeFieldNotFound(first, second) => "[runtime] Field '"@ + second@
            + "' not found in "@ + first@,
        RuntimeErrorEnum::Unlinked => "[runtime] Unlinked"@,
    }
}

/// `message`, with `[parse] ` in front unless it already starts so.
pub open spec fn spec_prefix_parse(message: Seq<char>) -> Seq<char> {
    let p = "[parse]"@;
    if message.len() >= p.len() && message.take(p.len() as int) == p {
        message
    } else {
        "[parse] "@ + message
    }
}

/// The text after `Unexpected '<literal>'` in an unexpected-literal message.
pub open spec fn spec_expected_suffix(expected: Option<String>) -> Seq<char> {
    match expected {
        Some(x) => "', expected '"@ + x@ + "'"@,
        None => "'"@,
    }
}

/// The message of a parse error.
pub open spec fn spec_parse_message(e: ParseErrorEnum) -> Seq<char> {
    match e {
        ParseErrorEnum::UnknownType(t) => spec_prefix_parse(t@),
        ParseErrorEnum::UnknownParseError(m) => spec_prefix_parse(m@),
        ParseErrorEnum::Empty => "[parse] -Empty-"@,
        ParseErrorEnum::UnknownError(m) => spec_prefix_parse(m@),
        ParseErrorEnum::InvalidType(m) => spec_prefix_parse(m@),
        ParseErrorEnum::UnexpectedLiteral(literal, expected) => spec_prefix_parse(
            "Unexpected '"@ + literal@ + spec_expected_suffix(expected),
        ),
        ParseErrorEnum::MissingLiteral(literal) => spec_prefix_parse(
            "Missing '"@ + literal@ + "'"@,
        ),
        ParseErrorEnum::FunctionWrongNumberOfArguments(name, kind, got) => if got == 0 {
            spec_prefix_parse("Function '"@ + name@ + "' got no arguments"@)
        } else {
            spec_prefix_parse(
                match kind {
                    EFunctionType::Custom(expected) => "Function '"@ + name@ + "' expected "@
                        + decimal_digits(expected as nat) + " arguments, but got "@
                        + decimal_digits(got as nat),
                    EFunctionType::Binary => "Binary function '"@ + name@
                        + "' expected 2 arguments, but got "@ + decimal_digits(got as nat),
                    EFunctionType::Multi => "Function '"@ + name@
                        + "' expected 1 or more arguments, but got "@ + decimal_digits(got as nat),
                    EFunctionType::Unary => "Function '"@ + name@
                        + "' expected 1 argument, but got "@ + decimal_digits(got as nat),
                },
            )
        },
    }
}

/// The lines listing the contexts of a stacked error, numbered from `start + 1`.
pub open spec fn spec_context_lines(context: Seq<Seq<char>>, start: nat) -> Seq<char>
    decreases context.len(),
{
    if context.len() == 0 {
        Seq::empty()
    } else {
        spec_context_lines(context.drop_last(), start) + "  "@ + decimal_digits(
            (start + context.len()) as nat,
        ) + ". "@ + context.last() + "\n"@
    }
}

/// A stacked error as it is shown: the message of the error, then, when there are
/// contexts, `Context:` and the numbered contexts.
pub open spec fn spec_stacked_message(message: Seq<char>, context: Seq<Seq<char>>) -> Seq<char> {
    if context.len() == 0 {
        message
    } else {
        message + "\nContext:\n"@ + spec_context_lines(context, 0)
    }
}

/// Appends the characters of `s`.
fn push_string(out: &mut Vec<char>, s: &String)
    ensures
        final(out)@ == old(out)@ + s@,
{
    let chars = chars_of(s.as_str());
    push_chars(out, chars.as_slice());
}

/// Appends how `t` is written.
fn push_type(out: &mut Vec<char>, t: &ValueType)
    ensures
        final(out)@ == old(out)@ + spec_type_string(*t),
{
    let text = t.to_type_string();
    push_string(out, &text);
}

/// Appends how `types` are written, with ` or ` between them.
fn push_types_or(out: &mut Vec<char>, types: &Vec<ValueType>)
    ensures
        final(out)@ == old(out)@ + spec_types_or(types@),
{
    let ghost start = out@;
    let mut i: usize = 0;
    while i < types.len()
        invariant
            i <= types@.len(),
            out@ == start + spec_types_or(types@.take(i as int)),
        decreases types@.len() - i,
    {
        let ghost before = out@;
        if i > 0 {
            push_str_chars(out, " or ");
        }
        push_type(out, &types[i]);
        proof {
            let prev = types@.take(i as int).map_values(|t: ValueType| spec_type_string(t));
            let next = types@.take(i + 1).map_values(|t: ValueType| spec_type_string(t));
            assert(next.drop_last() =~= prev);
            assert(next.last() == spec_type_string(types@[i as int]));
            if i == 0 {
                assert(next.len() == 1);
                assert(out@ =~= start + next[0]);
            } else {
                assert(out@ =~= start + (spec_join(prev, " or "@) + " or "@ + next.last()));
            }
        }
        i = i + 1;
    }
    assert(types@.take(types@.len() as int) =~= types@);
}

impl LinkingErrorEnum {
    /// The message of the error.
    pub fn to_message(&self) -> (res: String)
        ensures
            res@ == spec_linking_message(*self),
    {
        let mut out: Vec<char> = Vec::new();
        match self {
            LinkingErrorEnum::TypesNotCompatible(subject, unexpected, expected) => {
                match expected {
                    Some(types) => {
                        push_str_chars(&mut out, "[link] ");
                        match subject {
                            Some(s) => push_string(&mut out, s),
                            None => push_str_chars(&mut out, "Unexpected"),
                        }
                        push_str_chars(&mut out, " type '");
                        push_type(&mut out, unexpected);
                        push_str_chars(&mut out, "', expected '");
                        push_types_or(&mut out, types);
                        push_str_chars(&mut out, "'");
                    },
                    None => {
                        match subject {
                            Some(s) => push_string(&mut out, s),
                            None => push_str_chars(&mut out, "Unexpected"),
                        }
                        push_str_chars(&mut out, " type '");
                        push_type(&mut out, unexpected);
                        push_str_chars(&mut out, "'");
                    },
                }
            },
            LinkingErrorEnum::DifferentTypesDetected(subject, left, right) => {
                match subject {
                    Some(s) => {
                        push_str_chars(&mut out, "[link] ");
                        push_string(&mut out, s);
                        push_str_chars(&mut out, " types `");
                        push_type(&mut out, left);
                        push_str_chars(&mut out, "` and `");
                        push_type(&mut out, right);
                        push_str_chars(&mut out, "` must match");
                    },
                    None => {
                        push_str_chars(
                            &mut out,
                            "[link] Operation is not supported for different types: ",
                        );
                        push_type(&mut out, left);
                        push_str_chars(&mut out, " and ");
                        push_type(&mut out, right);
                    },
                }
            },
            LinkingErrorEnum::FunctionNotFound(name) => {
                push_str_chars(&mut out, "[link] Function '");
                push_string(&mut out, name);
                push_str_chars(&mut out, "' not found");
            },
            LinkingErrorEnum::FieldNotFound(object, field) => {
                push_str_chars(&mut out, "[link] Field '");
                push_string(&mut out, field);
                push_str_chars(&mut out, "' not found in ");
                push_string(&mut out, object);
            },
            LinkingErrorEnum::CyclicReference(object, field) => {
                push_str_chars(&mut out, "[link] Field ");
                push_string(&mut out, object);
                push_str_chars(&mut out, ".");
                push_string(&mut out, field);
                push_str_chars(&mut out, " appears in a cyclic reference loop");
            },
            LinkingErrorEnum::OtherLinkingError(message) => {
                push_str_chars(&mut out, "[link] ");
                push_string(&mut out, message);
            },
            LinkingErrorEnum::NotLinkedYet => {
                push_str_chars(&mut out, "[link] Not linked yet");
            },
            LinkingErrorEnum::OperationNotSupported(op, left, right) => {
                push_str_chars(&mut out, "[link] Operation '");
                push_string(&mut out, op);
                push_str_chars(&mut out, "' not supported for types '");
                push_type(&mut out, left);
                push_str_chars(&mut out, "' and '");
                push_type(&mut out, right);
                push_str_chars(&mut out, "'");
            },
        }
        assert(out@ =~= spec_linking_message(*self));
        string_from_chars(out.as_slice())
    }
}

impl RuntimeErrorEnum {
    /// The message of the error.
    pub fn to_message(&self) -> (res: String)
        ensures
            res@ == spec_runtime_message(*self),
    {
        let mut out: Vec<char> = Vec::new();
        match self {
            RuntimeErrorEnum::EvalError(message) => {
                push_str_chars(&mut out, "[runtime] ");
                push_string(&mut out, message);
            },
            RuntimeErrorEnum::TypeNotSupported(t) => {
                push_str_chars(&mut out, "[runtime] Type '");
                push_type(&mut out, t);
                push_str_chars(&mut out, "' is not supported");
            },
            RuntimeErrorEnum::RuntimeCyclicReference(first, second) => {
                push_str_chars(&mut out, "[runtime] Field ");
                push_string(&mut out, first);
                push_str_chars(&mut out, ".");
                push_string(&mut out, second);
                push_str_chars(&mut out, " appears in a cyclic reference loop");
            },
            RuntimeErrorEnum::RuntimeFieldNotFound(first, second) => {
                push_str_chars(&mut out, "[runtime] Field '");
                push_string(&mut out, second);
                push_str_chars(&mut out, "' not found in ");
                push_string(&mut out, first);
            },
            RuntimeErrorEnum::Unlinked => {
                push_str_chars(&mut out, "[runtime] Unlinked");
            },
        }
        assert(out@ =~= spec_runtime_message(*self));
        string_from_chars(out.as_slice())
    }
}

/// `message` with `[parse] ` in front unless it already starts so.
fn prefix_parse(message: Vec<char>) -> (res: Vec<char>)
    ensures
        res@ == spec_prefix_parse(message@),
{
    let p = chars_of("[parse]");
    if message.len() >= p.len() && crate::utils::starts_with_chars(&message, &p) {
        message
    } else {
        let mut out: Vec<char> = Vec::new();
        push_str_chars(&mut out, "[parse] ");
        push_chars(&mut out, message.as_slice());
        out
    }
}

impl ParseErrorEnum {
    /// The message of the error.
    pub fn to_message(&self) -> (res: String)
        ensures
            res@ == spec_parse_message(*self),
    {
        let mut body: Vec<char> = Vec::new();
        let out = match self {
            ParseErrorEnum::UnknownType(t) => {
                push_string(&mut body, t);
                prefix_parse(body)
            },
            ParseErrorEnum::UnknownParseError(m) => {
                push_string(&mut body, m);
                prefix_parse(body)
            },
            ParseErrorEnum::Empty => {
                push_str_chars(&mut body, "[parse] -Empty-");
                body
            },
            ParseErrorEnum::UnknownError(m) => {
                push_string(&mut body, m);
                prefix_parse(body)
            },
            ParseErrorEnum::InvalidType(m) => {
                push_string(&mut body, m);
                prefix_parse(body)
            },
            ParseErrorEnum::UnexpectedLiteral(literal, expected) => {
                push_str_chars(&mut body, "Unexpected '");
                push_string(&mut body, literal);
                match expected {
                    Some(x) => {
                        push_str_chars(&mut body, "', expected '");
                        push_string(&mut body, x);
                        push_str_chars(&mut body, "'");
                    },
                    None => {
                        push_str_chars(&mut body, "'");
                    },
                }
                assert(body@ =~= "Unexpected '"@ + literal@ + spec_expected_suffix(*expected));
                prefix_parse(body)
            },
            ParseErrorEnum::MissingLiteral(literal) => {
                push_str_chars(&mut body, "Missing '");
                push_string(&mut body, literal);
                push_str_chars(&mut body, "'");
                prefix_parse(body)
            },
            ParseErrorEnum::FunctionWrongNumberOfArguments(name, kind, got) => {
                if *got == 0 {
                    push_str_chars(&mut body, "Function '");
                    push_string(&mut body, name);
                    push_str_chars(&mut body, "' got no arguments");
                } else {
                    match kind {
                        EFunctionType::Custom(expected) => {
                            push_str_chars(&mut body, "Function '");
                            push_string(&mut body, name);
                            push_str_chars(&mut body, "' expected ");
                            push_decimal(&mut body, *expected as i128);
                            push_str_chars(&mut body, " arguments, but got ");
                            push_decimal(&mut body, *got as i128);
                        },
                        EFunctionType::Binary => {
                            push_str_chars(&mut body, "Binary function '");
                            push_string(&mut body, name);
                            push_str_chars(&mut body, "' expected 2 arguments, but got ");
                            push_decimal(&mut body, *got as i128);
                        },
                        EFunctionType::Multi => {
                            push_str_chars(&mut body, "Function '");
                            push_string(&mut body, name);
                            push_str_chars(&mut body, "' expected 1 or more arguments, but got ");
                            push_decimal(&mut body, *got as i128);
                        },
                        EFunctionType::Unary => {
                            push_str_chars(&mut body, "Function '");
                            push_string(&mut body, name);
                            push_str_chars(&mut body, "' expected 1 argument, but got ");
                            push_decimal(&mut body, *got as i128);
                        },
                    }
                }
                prefix_parse(body)
            },
        };
        assert(out@ =~= spec_parse_message(*self));
        string_from_chars(out.as_slice())
    }

    /// This error recorded after `before_error`: an `UnknownError` reading
    /// `<message of before_error> → <message of this error>`, unless `before_error` is
    /// `Empty`, which leaves this error as it is.
    pub fn before(self, before_error: ParseErrorEnum) -> (res: ParseErrorEnum)
        ensures
            before_error is Empty ==> res == self,
            !(before_error is Empty) ==> res is UnknownError && res->UnknownError_0@
                == spec_parse_message(before_error) + " → "@ + spec_parse_message(self),
    {
        if let ParseErrorEnum::Empty = before_error {
            return self;
        }
        let mut out: Vec<char> = Vec::new();
        let first = before_error.to_message();
        push_string(&mut out, &first);
        push_str_chars(&mut out, " → ");
        let second = self.to_message();
        push_string(&mut out, &second);
        ParseErrorEnum::UnknownError(string_from_chars(out.as_slice()))
    }
}

impl GeneralStackedError<RuntimeErrorEnum> {
    /// The error as it is shown, with its contexts numbered.
    pub fn to_message(&self) -> (res: String)
        ensures
            res@ == spec_stacked_message(
                spec_runtime_message(self.error),
                self.context@.map_values(|c: String| c@),
            ),
    {
        let head = self.error.to_message();
        stacked_message(&head, &self.context)
    }
}

impl GeneralStackedError<LinkingErrorEnum> {
    /// The error as it is shown, with its contexts numbered.
    pub fn to_message(&self) -> (res: String)
        ensures
            res@ == spec_stacked_message(
                spec_linking_message(self.error),
                self.context@.map_values(|c: String| c@),
            ),
    {
        let head = self.error.to_message();
        stacked_message(&head, &self.context)
    }
}

/// `head`, then, when there are contexts, `Context:` and the numbered contexts.
fn stacked_message(head: &String, context: &Vec<String>) -> (res: String)
    ensures
        res@ == spec_stacked_message(head@, context@.map_values(|c: String| c@)),
{
    let mut out: Vec<char> = Vec::new();
    push_string(&mut out, head);
    if context.len() > 0 {
        push_str_chars(&mut out, "\nContext:\n");
        let ghost start = out@;
        let mut i: usize = 0;
        while i < context.len()
            invariant
                i <= context@.len(),
                out@ == start + spec_context_lines(
                    context@.take(i as int).map_values(|c: String| c@),
                    0,
                ),
            decreases context@.len() - i,
        {
            push_str_chars(&mut out, "  ");
            push_decimal(&mut out, (i as i128) + 1);
            push_str_chars(&mut out, ". ");
            push_string(&mut out, &context[i]);
            push_str_chars(&mut out, "\n");
            proof {
                let prev = context@.take(i as int).map_values(|c: String| c@);
                let next = context@.take(i + 1).map_values(|c: String| c@);
                assert(next.drop_last() =~= prev);
                assert(next.last() == context@[i as int]@);
                assert(out@ =~= start + spec_context_lines(next, 0));
            }
            i = i + 1;
        }
        assert(context@.take(context@.len() as int) =~= context@);
    }
    assert(out@ =~= spec_stacked_message(head@, context@.map_values(|c: String| c@)));
    string_from_chars(out.as_slice())
}

impl GeneralStackedError<RuntimeErrorEnum> {
    /// A linking error surfacing while evaluating: a missing field, a reference loop and an
    /// unlinked part keep their kind, any other error becomes an evaluation error carrying its
    /// message; the contexts are kept.
    pub fn into_runtime(error: GeneralStackedError<LinkingErrorEnum>) -> (res: Self)
        ensures
            res.context@ == error.context@,
            match error.error {
                LinkingErrorEnum::FieldNotFound(object, field) => res.error
                    == RuntimeErrorEnum::RuntimeFieldNotFound(object, field),
                LinkingErrorEnum::CyclicReference(object, field) => res.error
                    == RuntimeErrorEnum::RuntimeCyclicReference(object, field),
                LinkingErrorEnum::NotLinkedYet => res.error == RuntimeErrorEnum::Unlinked,
                _ => res.error is EvalError && res.error->EvalError_0@ == spec_linking_message(
                    error.error,
                ),
            },
    {
        let kind = match &error.error {
            LinkingErrorEnum::FieldNotFound(object, field) => RuntimeErrorEnum::RuntimeFieldNotFound(
                object.clone(),
                field.clone(),
            ),
            LinkingErrorEnum::CyclicReference(object, field) => {
                RuntimeErrorEnum::RuntimeCyclicReference(object.clone(), field.clone())
            },
            LinkingErrorEnum::NotLinkedYet => RuntimeErrorEnum::Unlinked,
            other => RuntimeErrorEnum::EvalError(other.to_message()),
        };
        GeneralStackedError { error: kind, context: error.context }
    }

    /// A parse error surfacing while evaluating: an evaluation error carrying its message.
    pub fn from_parse_error(err: ParseErrorEnum) -> (res: Self)
        ensures
            res.context@.len() == 0,
            res.error is EvalError,
            res.error->EvalError_0@ == spec_parse_message(err),
    {
        GeneralStackedError::<RuntimeErrorEnum>::eval_error(err.to_message())
    }
}

/// The contexts of `error`, each copied, appended to `context`.
fn append_contexts(context: &mut Vec<String>, other: &Vec<String>)
    ensures
        final(context)@ == old(context)@ + other@,
{
    let ghost start = context@;
    let mut i: usize = 0;
    while i < other.len()
        invariant
            i <= other@.len(),
            context@ == start + other@.take(i as int),
        decreases other@.len() - i,
    {
        context.push(other[i].clone());
        assert(context@ =~= start + other@.take(i + 1));
        i = i + 1;
    }
    assert(other@.take(other@.len() as int) =~= other@);
}

impl<T> GeneralStackedError<T> {
    /// The error with `context` recorded as its newest context.
    pub fn with_context(self, context: String) -> (res: Self)
        ensures
            res.error == self.error,
            res.context@ == self.context@.push(context),
    {
        let mut new = self;
        new.update_context(context);
        new
    }
}

impl GeneralStackedError<RuntimeErrorEnum> {
    /// The error recorded as having happened after `other`: the contexts of `other` and
    /// then its message are added to the contexts of this error.
    pub fn before_happened(self, other: GeneralStackedError<RuntimeErrorEnum>) -> (res: Self)
        ensures
            res.error == self.error,
            res.context@.len() == self.context@.len() + other.context@.len() + 1,
            res.context@.take((self.context@.len() + other.context@.len()) as int) == self.context@
                + other.context@,
            res.context@.last()@ == spec_runtime_message(other.error),
    {
        let mut new = self;
        append_contexts(&mut new.context, &other.context);
        let message = other.error.to_message();
        new.context.push(message);
        proof {
            let n = (self.context@.len() + other.context@.len()) as int;
            assert(new.context@.take(n) =~= self.context@ + other.context@);
        }
        new
    }
}

impl GeneralStackedError<LinkingErrorEnum> {
    /// The error recorded as having happened after `other`: the contexts of `other` and
    /// then its message are added to the contexts of this error.
    pub fn before_happened(self, other: GeneralStackedError<LinkingErrorEnum>) -> (res: Self)
        ensures
            res.error == self.error,
            res.context@.len() == self.context@.len() + other.context@.len() + 1,
            res.context@.take((self.context@.len() + other.context@.len()) as int) == self.context@
                + other.context@,
            res.context@.last()@ == spec_linking_message(other.error),
    {
        let mut new = self;
        append_contexts(&mut new.context, &other.context);
        let message = other.error.to_message();
        new.context.push(message);
        proof {
            let n = (self.context@.len() + other.context@.len()) as int;
            assert(new.context@.take(n) =~= self.context@ + other.context@);
        }
        new
    }
}

} // verus!
