use vstd::prelude::*;

use crate::builtins::EFunctionType;
use crate::types::{clone_type, ValueType};

verus! {

/// What went wrong while reading source text.
#[derive(Debug, PartialEq, Clone)]
pub enum ParseErrorEnum {
    UnknownType(String),
    /// The literal met and, maybe, the one expected.
    UnexpectedLiteral(String, Option<String>),
    MissingLiteral(String),
    /// Function name, function kind, number of arguments given.
    FunctionWrongNumberOfArguments(String, EFunctionType, usize),
    InvalidType(String),
    UnknownParseError(String),
    UnknownError(String),
    Empty,
}

/// What went wrong while evaluating.
#[derive(Debug, PartialEq, Clone)]
pub enum RuntimeErrorEnum {
    /// A message.
    EvalError(String),
    /// Field and object of a reference loop met while evaluating.
    RuntimeCyclicReference(String, String),
    /// Object and field that could not be found while evaluating.
    RuntimeFieldNotFound(String, String),
    /// A value of this type cannot be handled here.
    TypeNotSupported(ValueType),
    Unlinked,
}

/// What went wrong while linking.
#[derive(Debug, PartialEq, Clone)]
pub enum LinkingErrorEnum {
    /// Subject, the type met, the types expected.
    TypesNotCompatible(Option<String>, ValueType, Option<Vec<ValueType>>),
    /// Subject and the two types that differ.
    DifferentTypesDetected(Option<String>, ValueType, ValueType),
    FunctionNotFound(String),
    /// Object and field.
    FieldNotFound(String, String),
    /// Object and field.
    CyclicReference(String, String),
    /// Operation, left type, right type.
    OperationNotSupported(String, ValueType, ValueType),
    OtherLinkingError(String),
    NotLinkedYet,
}

/// An error together with the contexts it passed through, oldest first.
#[derive(Debug, PartialEq, Clone)]
pub struct GeneralStackedError<T> {
    pub error: T,
    pub context: Vec<String>,
}

/// An error that collects the contexts it passes through.
pub trait ErrorStack<T>: Sized {
    /// The contexts collected so far.
    spec fn spec_context(&self) -> Seq<String>;

    /// The kind of error.
    spec fn spec_error_type(&self) -> T;

    /// Records one more context.
    fn update_context(&mut self, content: String)
        ensures
            final(self).spec_context() == old(self).spec_context().push(content),
            final(self).spec_error_type() == old(self).spec_error_type(),
    ;

    /// The contexts collected so far.
    fn get_context(&self) -> (res: &Vec<String>)
        ensures
            res@ == self.spec_context(),
    ;

    /// The kind of error.
    fn get_error_type(&self) -> (res: &T)
        ensures
            *res == self.spec_error_type(),
    ;
}

impl<T> ErrorStack<T> for GeneralStackedError<T> {
    open spec fn spec_context(&self) -> Seq<String> {
        self.context@
    }

    open spec fn spec_error_type(&self) -> T {
        self.error
    }

    fn update_context(&mut self, content: String) {
        self.context.push(content);
    }

    fn get_context(&self) -> (res: &Vec<String>) {
        &self.context
    }

    fn get_error_type(&self) -> (res: &T) {
        &self.error
    }
}

/// Whether a link result is settled: a type, or any error but the marker of a part not
/// linked yet.
pub fn is_linked<T>(link: &Result<T, LinkingError>) -> (res: bool)
    ensures
        res == !(link matches Err(e) && e.error is NotLinkedYet),
{
    match link {
        Err(e) => !matches!(e.error, LinkingErrorEnum::NotLinkedYet),
        Ok(_) => true,
    }
}

/// Whether `e` is an evaluation error with the text `message` and no context.
pub open spec fn is_eval_error(e: RuntimeError, message: Seq<char>) -> bool {
    &&& e.error is EvalError
    &&& e.error->EvalError_0@ == message
    &&& e.context@.len() == 0
}

/// An error met while evaluating.
pub type RuntimeError = GeneralStackedError<RuntimeErrorEnum>;

/// An error met while linking.
pub type LinkingError = GeneralStackedError<LinkingErrorEnum>;

impl GeneralStackedError<RuntimeErrorEnum> {
    /// The error `error` with no context.
    pub fn new(error: RuntimeErrorEnum) -> (res: Self)
        ensures
            res.error == error,
            res.context@.len() == 0,
    {
        GeneralStackedError { error, context: Vec::new() }
    }

    /// An evaluation error carrying `message`.
    pub fn eval_error(message: String) -> (res: Self)
        ensures
            res.error == RuntimeErrorEnum::EvalError(message),
            res.context@.len() == 0,
    {
        GeneralStackedError { error: RuntimeErrorEnum::EvalError(message), context: Vec::new() }
    }

    /// A reference loop met at `field` of `object`.
    pub fn cyclic_reference(field: &str, object: &str) -> (res: Self)
        ensures
            res.error is RuntimeCyclicReference,
            res.error->RuntimeCyclicReference_0@ == field@,
            res.error->RuntimeCyclicReference_1@ == object@,
            res.context@.len() == 0,
    {
        GeneralStackedError {
            error: RuntimeErrorEnum::RuntimeCyclicReference(
                String::from_str(field),
                String::from_str(object),
            ),
            context: Vec::new(),
        }
    }

    /// `field` could not be found in `object`.
    pub fn field_not_found(field: &str, object: &str) -> (res: Self)
        ensures
            res.error is RuntimeFieldNotFound,
            res.error->RuntimeFieldNotFound_0@ == field@,
            res.error->RuntimeFieldNotFound_1@ == object@,
            res.context@.len() == 0,
    {
        GeneralStackedError {
            error: RuntimeErrorEnum::RuntimeFieldNotFound(
                String::from_str(field),
                String::from_str(object),
            ),
            context: Vec::new(),
        }
    }

    /// A value of type `current` cannot be handled.
    pub fn type_not_supported(current: ValueType) -> (res: Self)
        ensures
            res.error == RuntimeErrorEnum::TypeNotSupported(current),
            res.context@.len() == 0,
    {
        GeneralStackedError { error: RuntimeErrorEnum::TypeNotSupported(current), context: Vec::new() }
    }
}

impl GeneralStackedError<LinkingErrorEnum> {
    /// The error `error` with no context.
    pub fn new(error: LinkingErrorEnum) -> (res: Self)
        ensures
            res.error == error,
            res.context@.len() == 0,
    {
        GeneralStackedError { error, context: Vec::new() }
    }

    /// The marker of a part not linked yet.
    pub fn not_linked() -> (res: Self)
        ensures
            res.error == LinkingErrorEnum::NotLinkedYet,
            res.context@.len() == 0,
    {
        GeneralStackedError { error: LinkingErrorEnum::NotLinkedYet, context: Vec::new() }
    }

    /// A linking error carrying `message`.
    pub fn other_error(message: String) -> (res: Self)
        ensures
            res.error == LinkingErrorEnum::OtherLinkingError(message),
            res.context@.len() == 0,
    {
        GeneralStackedError { error: LinkingErrorEnum::OtherLinkingError(message), context: Vec::new() }
    }

    /// `field` could not be found in `object`.
    pub fn field_not_found(object: &str, field: &str) -> (res: Self)
        ensures
            res.error is FieldNotFound,
            res.error->FieldNotFound_0@ == object@,
            res.error->FieldNotFound_1@ == field@,
            res.context@.len() == 0,
    {
        GeneralStackedError {
            error: LinkingErrorEnum::FieldNotFound(String::from_str(object), String::from_str(field)),
            context: Vec::new(),
        }
    }

    /// `field` of `object` takes part in a reference loop.
    pub fn cyclic_reference(object: &str, field: &str) -> (res: Self)
        ensures
            res.error is CyclicReference,
            res.error->CyclicReference_0@ == object@,
            res.error->CyclicReference_1@ == field@,
            res.context@.len() == 0,
    {
        GeneralStackedError {
            error: LinkingErrorEnum::CyclicReference(String::from_str(object), String::from_str(field)),
            context: Vec::new(),
        }
    }

    /// Two types that were expected to agree differ.
    pub fn different_types(subject: Option<String>, type1: ValueType, type2: ValueType) -> (res:
        Self)
        ensures
            res.error == LinkingErrorEnum::DifferentTypesDetected(subject, type1, type2),
            res.context@.len() == 0,
    {
        GeneralStackedError {
            error: LinkingErrorEnum::DifferentTypesDetected(subject, type1, type2),
            context: Vec::new(),
        }
    }

    /// `operation` is not supported on the types `left` and `right`.
    pub fn operation_not_supported(operation: &str, left: ValueType, right: ValueType) -> (res:
        Self)
        ensures
            res.error is OperationNotSupported,
            res.error->OperationNotSupported_0@ == operation@,
            res.error->OperationNotSupported_1 == left,
            res.error->OperationNotSupported_2 == right,
            res.context@.len() == 0,
    {
        GeneralStackedError {
            error: LinkingErrorEnum::OperationNotSupported(String::from_str(operation), left, right),
            context: Vec::new(),
        }
    }

    /// The type `unexpected` was met where one of `expected` was wanted.
    pub fn types_not_compatible(
        subject: Option<String>,
        unexpected: ValueType,
        expected: Option<Vec<ValueType>>,
    ) -> (res: Self)
        ensures
            res.error == LinkingErrorEnum::TypesNotCompatible(subject, unexpected, expected),
            res.context@.len() == 0,
    {
        GeneralStackedError {
            error: LinkingErrorEnum::TypesNotCompatible(subject, unexpected, expected),
            context: Vec::new(),
        }
    }
}

/// A copy of the types in `types`, in order.
fn copy_types(types: &[ValueType]) -> (res: Vec<ValueType>)
    ensures
        res@ == types@,
{
    let mut out: Vec<ValueType> = Vec::new();
    let mut i: usize = 0;
    while i < types.len()
        invariant
            i <= types@.len(),
            out@ == types@.take(i as int),
        decreases types@.len() - i,
    {
        out.push(clone_type(&types[i]));
        assert(types@.take(i + 1) =~= types@.take(i as int).push(types@[i as int]));
        i = i + 1;
    }
    assert(types@.take(types@.len() as int) =~= types@);
    out
}

impl GeneralStackedError<LinkingErrorEnum> {
    /// The type of an expression, accepted when it is one of `expected`; otherwise a
    /// `TypesNotCompatible` error naming `subject`, the type met and the types expected.
    pub fn expect_type(subject: Option<String>, expression_type: ValueType, expected: &[ValueType])
        -> (res: Result<ValueType, LinkingError>)
        ensures
            expected@.contains(expression_type) ==> res == Ok::<ValueType, LinkingError>(
                expression_type,
            ),
            !expected@.contains(expression_type) ==> res is Err && res->Err_0.context@.len() == 0
                && res->Err_0.error is TypesNotCompatible
                && res->Err_0.error->TypesNotCompatible_0 == subject
                && res->Err_0.error->TypesNotCompatible_1 == expression_type
                && res->Err_0.error->TypesNotCompatible_2 is Some
                && res->Err_0.error->TypesNotCompatible_2->Some_0@ == expected@,
    {
        let mut i: usize = 0;
        while i < expected.len()
            invariant
                i <= expected@.len(),
                forall|j: int| 0 <= j < i ==> expected@[j] != expression_type,
            decreases expected@.len() - i,
        {
            if expected[i].same_as(&expression_type) {
                assert(expected@[i as int] == expression_type);
                return Ok(expression_type);
            }
            i = i + 1;
        }
        assert(!expected@.contains(expression_type));
        Err(LinkingError::types_not_compatible(subject, expression_type, Some(copy_types(expected))))
    }

    /// The item type of a list type; for any other type a `TypesNotCompatible` error naming
    /// `subject`, the type met and the list type (`list of undefined`).
    pub fn expect_array_type(subject: Option<String>, expression_type: ValueType) -> (res: Result<
        ValueType,
        LinkingError,
    >)
        ensures
            match expression_type {
                ValueType::ListType(item) => res == Ok::<ValueType, LinkingError>(*item),
                _ => res is Err && res->Err_0.context@.len() == 0 && res->Err_0.error
                    is TypesNotCompatible && res->Err_0.error->TypesNotCompatible_0 == subject
                    && res->Err_0.error->TypesNotCompatible_1 == expression_type
                    && res->Err_0.error->TypesNotCompatible_2 is Some
                    && res->Err_0.error->TypesNotCompatible_2->Some_0@ == seq![
                    ValueType::ListType(Box::new(ValueType::UndefinedType)),
                ],
            },
    {
        match expression_type {
            ValueType::ListType(item) => Ok(*item),
            other => {
                let expected = vec![ValueType::ListType(Box::new(ValueType::UndefinedType))];
                Err(LinkingError::types_not_compatible(subject, other, Some(expected)))
            },
        }
    }

    /// `expression_type` when it is `expected`; otherwise a `TypesNotCompatible` error naming
    /// `subject`, the type met and `expected`.
    pub fn expect_single_type(subject: &str, expression_type: ValueType, expected: &ValueType) -> (res:
        Result<ValueType, LinkingError>)
        ensures
            expression_type == *expected ==> res == Ok::<ValueType, LinkingError>(expression_type),
            expression_type != *expected ==> res is Err && res->Err_0.context@.len() == 0
                && res->Err_0.error is TypesNotCompatible
                && res->Err_0.error->TypesNotCompatible_0 is Some
                && res->Err_0.error->TypesNotCompatible_0->Some_0@ == subject@
                && res->Err_0.error->TypesNotCompatible_1 == expression_type
                && res->Err_0.error->TypesNotCompatible_2 is Some
                && res->Err_0.error->TypesNotCompatible_2->Some_0@ == seq![*expected],
    {
        if expression_type.same_as(expected) {
            return Ok(expression_type);
        }
        let expected_list = vec![clone_type(expected)];
        Err(
            LinkingError::types_not_compatible(
                Some(String::from_str(subject)),
                expression_type,
                Some(expected_list),
            ),
        )
    }

    /// `left` when both sides have the same type; otherwise a `DifferentTypesDetected` error
    /// naming `subject` and both types.
    pub fn expect_same_types(subject: &str, left: ValueType, right: ValueType) -> (res: Result<
        ValueType,
        LinkingError,
    >)
        ensures
            left == right ==> res == Ok::<ValueType, LinkingError>(left),
            left != right ==> res is Err && res->Err_0.context@.len() == 0
                && res->Err_0.error is DifferentTypesDetected
                && res->Err_0.error->DifferentTypesDetected_0 is Some
                && res->Err_0.error->DifferentTypesDetected_0->Some_0@ == subject@
                && res->Err_0.error->DifferentTypesDetected_1 == left
                && res->Err_0.error->DifferentTypesDetected_2 == right,
    {
        if left.same_as(&right) {
            return Ok(left);
        }
        Err(LinkingError::different_types(Some(String::from_str(subject)), left, right))
    }

    /// The common type of `items`: `undefined` for no items, the type of the first item when
    /// all agree, and otherwise a `DifferentTypesDetected` error naming `subject`, the first
    /// type and the first type that differs from it.
    pub fn expect_same_item_types(subject: &str, items: &[ValueType]) -> (res: Result<
        ValueType,
        LinkingError,
    >)
        ensures
            items@.len() == 0 ==> res == Ok::<ValueType, LinkingError>(ValueType::UndefinedType),
            items@.len() > 0 && (forall|i: int| 0 <= i < items@.len() ==> #[trigger] items@[i] == items@[0])
                ==> res == Ok::<ValueType, LinkingError>(items@[0]),
            items@.len() > 0 && !(forall|i: int| 0 <= i < items@.len() ==> #[trigger] items@[i] == items@[0])
                ==> exists|k: int|
                0 < k < items@.len() && #[trigger] items@[k] != items@[0] && (forall|j: int|
                    0 <= j < k ==> #[trigger] items@[j] == items@[0]) && res is Err
                    && res->Err_0.context@.len() == 0
                    && res->Err_0.error is DifferentTypesDetected
                    && res->Err_0.error->DifferentTypesDetected_0 is Some
                    && res->Err_0.error->DifferentTypesDetected_0->Some_0@ == subject@
                    && res->Err_0.error->DifferentTypesDetected_1 == items@[0]
                    && res->Err_0.error->DifferentTypesDetected_2 == items@[k],
    {
        if items.len() == 0 {
            return Ok(ValueType::UndefinedType);
        }
        let first = clone_type(&items[0]);
        let mut i: usize = 0;
        while i < items.len()
            invariant
                0 < items@.len(),
                i <= items@.len(),
                first == items@[0],
                forall|j: int| 0 <= j < i ==> #[trigger] items@[j] == items@[0],
            decreases items@.len() - i,
        {
            if !items[i].same_as(&first) {
                let ghost k = i as int;
                let found = clone_type(&items[i]);
                let res = LinkingError::different_types(Some(String::from_str(subject)), first, found);
                assert(0 < k < items@.len() && items@[k] != items@[0]);
                return Err(res);
            }
            i = i + 1;
        }
        Ok(first)
    }
}

/// Whether every one of `values` is a value rather than an error.
pub open spec fn spec_all_ok<T>(values: Seq<Result<T, RuntimeError>>) -> bool {
    forall|i: int| 0 <= i < values.len() ==> #[trigger] values[i] is Ok
}

/// The values of evaluated arguments when none failed; the first error otherwise.
pub fn into_valid<T>(values: Vec<Result<T, RuntimeError>>) -> (res: Result<Vec<T>, RuntimeError>)
    ensures
        spec_all_ok(values@) ==> res is Ok && res->Ok_0@.len() == values@.len() && forall|i: int|
            0 <= i < values@.len() ==> Ok::<T, RuntimeError>(#[trigger] res->Ok_0@[i])
                == values@[i],
        !spec_all_ok(values@) ==> exists|k: int|
            0 <= k < values@.len() && #[trigger] values@[k] is Err && (forall|j: int|
                0 <= j < k ==> #[trigger] values@[j] is Ok) && res == Err::<Vec<T>, RuntimeError>(
                values@[k]->Err_0,
            ),
{
    let ghost given = values@;
    let mut rest = values;
    let mut clean: Vec<T> = Vec::new();
    let ghost mut taken: int = 0;
    while rest.len() > 0
        invariant
            given == values@,
            0 <= taken <= given.len(),
            rest@ == given.skip(taken),
            clean@.len() == taken,
            forall|i: int| 0 <= i < taken ==> Ok::<T, RuntimeError>(#[trigger] clean@[i]) == given[i],
        decreases rest@.len(),
    {
        let first = rest.remove(0);
        proof {
            assert(first == given[taken]);
        }
        match first {
            Ok(v) => {
                clean.push(v);
                proof {
                    assert(rest@ =~= given.skip(taken + 1));
                    taken = taken + 1;
                }
            },
            Err(e) => {
                proof {
                    assert(given[taken] is Err);
                    assert forall|j: int| 0 <= j < taken implies #[trigger] given[j] is Ok by {
                        assert(Ok::<T, RuntimeError>(clean@[j]) == given[j]);
                    }
                    assert(e == given[taken]->Err_0);
                    assert(!spec_all_ok(given));
                }
                return Err(e);
            },
        }
    }
    proof {
        assert(taken == given.len());
        assert forall|i: int| 0 <= i < given.len() implies #[trigger] given[i] is Ok by {
            assert(Ok::<T, RuntimeError>(clean@[i]) == given[i]);
        }
    }
    Ok(clean)
}

} // verus!
