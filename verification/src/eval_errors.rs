use vstd::prelude::*;

use crate::decimal::{decimal_digits, push_decimal};
use crate::errors::{GeneralStackedError, LinkingErrorEnum, ParseErrorEnum, RuntimeErrorEnum};
use crate::messages::{spec_linking_message, spec_parse_message, spec_runtime_message, spec_stacked_message};
use crate::portable::spec_trim;
use crate::string_functions::trim;
use crate::text::{chars_of, push_chars, push_str_chars, string_from_chars};
use crate::utils::spec_join;

verus! {

/// The errors met while reading source text, in the order met.
#[derive(Debug, PartialEq)]
pub struct ParseErrors(Vec<ParseErrorEnum>);

/// What went wrong while reading or evaluating a model.
#[derive(Debug, PartialEq)]
pub enum EvalError {
    /// The source text could not be read.
    FailedParsing(ParseErrors),
    /// Evaluation failed.
    FailedExecution(GeneralStackedError<RuntimeErrorEnum>),
}

/// The messages of a list of parse errors.
pub open spec fn spec_parse_messages(errors: Seq<ParseErrorEnum>) -> Seq<Seq<char>> {
    errors.map_values(|e: ParseErrorEnum| spec_parse_message(e))
}

/// How a runtime error is shown with its contexts.
pub open spec fn spec_runtime_error_text(e: GeneralStackedError<RuntimeErrorEnum>) -> Seq<char> {
    spec_stacked_message(spec_runtime_message(e.error), e.context@.map_values(|c: String| c@))
}

/// How a linking error is shown with its contexts.
pub open spec fn spec_linking_error_text(e: GeneralStackedError<LinkingErrorEnum>) -> Seq<char> {
    spec_stacked_message(spec_linking_message(e.error), e.context@.map_values(|c: String| c@))
}

impl ParseErrors {
    /// The errors, in the order met.
    pub closed spec fn spec_errors(&self) -> Seq<ParseErrorEnum> {
        self.0@
    }

    /// The list made of `errors`.
    pub fn new(errors: Vec<ParseErrorEnum>) -> (res: Self)
        ensures
            res.spec_errors() == errors@,
    {
        ParseErrors(errors)
    }

    /// The errors, in the order met.
    pub fn errors(&self) -> (res: &Vec<ParseErrorEnum>)
        ensures
            res@ == self.spec_errors(),
    {
        &self.0
    }

    /// The messages of the errors, with `; ` between them.
    pub fn to_message(&self) -> (res: String)
        ensures
            res@ == spec_join(spec_parse_messages(self.spec_errors()), "; "@),
    {
        let mut out: Vec<char> = Vec::new();
        let mut i: usize = 0;
        while i < self.0.len()
            invariant
                i <= self.0@.len(),
                out@ == spec_join(spec_parse_messages(self.0@.take(i as int)), "; "@),
            decreases self.0@.len() - i,
        {
            let ghost before = spec_parse_messages(self.0@.take(i as int));
            if i > 0 {
                push_str_chars(&mut out, "; ");
            }
            let message = self.0[i].to_message();
            let chars = chars_of(message.as_str());
            push_chars(&mut out, chars.as_slice());
            proof {
                let after = spec_parse_messages(self.0@.take(i + 1));
                assert(after.drop_last() =~= before);
                assert(after.last() == spec_parse_message(self.0@[i as int]));
                if i == 0 {
                    assert(after.len() == 1);
                    assert(out@ =~= after[0]);
                }
            }
            i = i + 1;
        }
        assert(self.0@.take(self.0@.len() as int) =~= self.0@);
        string_from_chars(out.as_slice())
    }
}

impl EvalError {
    /// A failure to read source text, with one error.
    pub fn from_parse_error(err: ParseErrorEnum) -> (res: Self)
        ensures
            res is FailedParsing && res->FailedParsing_0.spec_errors() == seq![err],
    {
        let errors = vec![err];
        EvalError::FailedParsing(ParseErrors::new(errors))
    }

    /// A failure to evaluate.
    pub fn from_runtime_error(err: GeneralStackedError<RuntimeErrorEnum>) -> (res: Self)
        ensures
            res == EvalError::FailedExecution(err),
    {
        EvalError::FailedExecution(err)
    }

    /// A linking failure met while evaluating: an evaluation error carrying the linking
    /// error as it is shown.
    pub fn from_linking_error(err: GeneralStackedError<LinkingErrorEnum>) -> (res: Self)
        ensures
            res is FailedExecution,
            res->FailedExecution_0.error is EvalError,
            res->FailedExecution_0.error->EvalError_0@ == spec_linking_error_text(err),
            res->FailedExecution_0.context@.len() == 0,
    {
        let text = err.to_message();
        EvalError::FailedExecution(GeneralStackedError::<RuntimeErrorEnum>::eval_error(text))
    }

    /// How the error is shown.
    pub fn to_message(&self) -> (res: String)
        ensures
            match *self {
                EvalError::FailedParsing(errors) => res@ == spec_join(
                    spec_parse_messages(errors.spec_errors()),
                    "; "@,
                ),
                EvalError::FailedExecution(err) => res@ == spec_runtime_error_text(err),
            },
    {
        match self {
            EvalError::FailedParsing(errors) => errors.to_message(),
            EvalError::FailedExecution(err) => err.to_message(),
        }
    }
}

/// A configuration error of a decision service: an evaluation error carrying `message`.
pub fn config_error(message: String) -> (res: EvalError)
    ensures
        res is FailedExecution,
        res->FailedExecution_0.error == RuntimeErrorEnum::EvalError(message),
        res->FailedExecution_0.context@.len() == 0,
{
    EvalError::FailedExecution(GeneralStackedError::<RuntimeErrorEnum>::eval_error(message))
}

/// The message for a service method that does not take exactly one argument.
pub open spec fn spec_argument_count_message(method_path: Seq<char>, params: nat) -> Seq<char> {
    "Decision service method '"@ + method_path + "' must declare exactly one argument, found "@
        + decimal_digits(params)
}

/// A decision service method must declare exactly one argument.
pub fn ensure_single_argument(method_path: &str, params: usize) -> (res: Result<(), EvalError>)
    ensures
        params == 1 ==> res is Ok,
        params != 1 ==> res is Err && res->Err_0 is FailedExecution
            && res->Err_0->FailedExecution_0.error is EvalError
            && res->Err_0->FailedExecution_0.error->EvalError_0@ == spec_argument_count_message(
            method_path@,
            params as nat,
        ),
{
    if params != 1 {
        let mut out: Vec<char> = Vec::new();
        push_str_chars(&mut out, "Decision service method '");
        push_str_chars(&mut out, method_path);
        push_str_chars(&mut out, "' must declare exactly one argument, found ");
        push_decimal(&mut out, params as i128);
        assert(out@ =~= spec_argument_count_message(method_path@, params as nat));
        return Err(config_error(string_from_chars(out.as_slice())));
    }
    Ok(())
}

/// The name of a decision service method without white space at either end; an error for
/// a blank name.
pub fn clean_method_name(service_method: &str) -> (res: Result<String, EvalError>)
    ensures
        spec_trim(service_method@).len() > 0 ==> res is Ok && res->Ok_0@ == spec_trim(
            service_method@,
        ),
        spec_trim(service_method@).len() == 0 ==> res is Err && res->Err_0 is FailedExecution
            && res->Err_0->FailedExecution_0.error is EvalError
            && res->Err_0->FailedExecution_0.error->EvalError_0@
            == "Decision service method name cannot be empty"@,
{
    let trimmed = trim(service_method);
    let chars = chars_of(trimmed.as_str());
    if chars.len() == 0 {
        return Err(config_error(String::from_str("Decision service method name cannot be empty")));
    }
    Ok(trimmed)
}

} // verus!
