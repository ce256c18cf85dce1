use vstd::prelude::*;

use crate::errors::ParseErrorEnum;
use crate::text::{chars_equal_str, chars_of, push_chars, push_str_chars, string_from_chars};

verus! {

/// How a decision table picks its rows: the first matching row, or every matching row.
#[derive(Debug, Clone, Copy, PartialEq, Eq, Structural)]
pub enum EHitPolicy {
    FirstHit,
    MultiHit,
}

/// How a service is called.
#[derive(Debug, Clone, Copy, PartialEq, Eq, Structural)]
pub enum EMethod {
    GET,
}

/// An annotation written before a definition.
#[derive(Debug, Clone, Copy, PartialEq, Eq, Structural)]
pub enum AnnotationEnum {
    DecisionTableAnnotation(EHitPolicy),
    ServiceAnnotation(EMethod),
}

/// How a hit policy is written, in double quotes.
pub open spec fn spec_hit_policy_code(p: EHitPolicy) -> Seq<char> {
    match p {
        EHitPolicy::FirstHit => "\"first-hit\""@,
        EHitPolicy::MultiHit => "\"multi-hit\""@,
    }
}

/// How an annotation is written.
pub open spec fn spec_annotation_code(a: AnnotationEnum) -> Seq<char> {
    match a {
        AnnotationEnum::DecisionTableAnnotation(p) => "@DecisionTable(\""@ + spec_hit_policy_code(
            p,
        ) + "\")"@,
        AnnotationEnum::ServiceAnnotation(_) => "@Service"@,
    }
}

/// The annotation named `annotation` with the arguments `args`, or the text of the error:
/// `DecisionTable` takes an optional hit policy, `first-hit` by default; `Service` takes
/// nothing.
pub open spec fn spec_annotation_from_parts(annotation: Seq<char>, args: Option<Seq<Seq<char>>>) -> Result<
    AnnotationEnum,
    Seq<char>,
> {
    if annotation == "DecisionTable"@ {
        match args {
            Some(a) => if a.len() == 0 {
                Ok(AnnotationEnum::DecisionTableAnnotation(EHitPolicy::FirstHit))
            } else if a[0] == "first-hit"@ {
                Ok(AnnotationEnum::DecisionTableAnnotation(EHitPolicy::FirstHit))
            } else if a[0] == "multi-hit"@ {
                Ok(AnnotationEnum::DecisionTableAnnotation(EHitPolicy::MultiHit))
            } else {
                Err("Invalid hit policy "@ + a[0] + " for "@ + annotation)
            },
            None => Ok(AnnotationEnum::DecisionTableAnnotation(EHitPolicy::FirstHit)),
        }
    } else if annotation == "Service"@ {
        Ok(AnnotationEnum::ServiceAnnotation(EMethod::GET))
    } else {
        Err("Unknown annotation: "@ + annotation)
    }
}

impl EHitPolicy {
    /// How the hit policy is written, in double quotes.
    pub fn to_code(&self) -> (res: String)
        ensures
            res@ == spec_hit_policy_code(*self),
    {
        match self {
            EHitPolicy::FirstHit => String::from_str("\"first-hit\""),
            EHitPolicy::MultiHit => String::from_str("\"multi-hit\""),
        }
    }
}

impl AnnotationEnum {
    /// How the annotation is written.
    pub fn to_code(&self) -> (res: String)
        ensures
            res@ == spec_annotation_code(*self),
    {
        match self {
            AnnotationEnum::DecisionTableAnnotation(p) => {
                let mut out: Vec<char> = Vec::new();
                push_str_chars(&mut out, "@DecisionTable(\"");
                let code = p.to_code();
                let code_chars = chars_of(code.as_str());
                push_chars(&mut out, code_chars.as_slice());
                push_str_chars(&mut out, "\")");
                string_from_chars(out.as_slice())
            },
            AnnotationEnum::ServiceAnnotation(_) => String::from_str("@Service"),
        }
    }

    /// The annotation named `annotation` (the text after `@`) with the arguments in its
    /// brackets, if any.
    pub fn from_parts(annotation: &str, args: Option<Vec<String>>) -> (res: Result<
        AnnotationEnum,
        ParseErrorEnum,
    >)
        ensures
            match spec_annotation_from_parts(
                annotation@,
                match args {
                    Some(a) => Some(a@.map_values(|s: String| s@)),
                    None => None,
                },
            ) {
                Ok(a) => res == Ok::<AnnotationEnum, ParseErrorEnum>(a),
                Err(m) => res is Err && res->Err_0 is UnknownParseError
                    && res->Err_0->UnknownParseError_0@ == m,
            },
    {
        let name = chars_of(annotation);
        if chars_equal_str(name.as_slice(), "DecisionTable") {
            match args {
                Some(a) => {
                    let ghost views = a@.map_values(|s: String| s@);
                    if a.len() == 0 {
                        Ok(AnnotationEnum::DecisionTableAnnotation(EHitPolicy::FirstHit))
                    } else {
                        let policy = chars_of(a[0].as_str());
                        assert(views[0] == a@[0]@);
                        if chars_equal_str(policy.as_slice(), "first-hit") {
                            Ok(AnnotationEnum::DecisionTableAnnotation(EHitPolicy::FirstHit))
                        } else if chars_equal_str(policy.as_slice(), "multi-hit") {
                            Ok(AnnotationEnum::DecisionTableAnnotation(EHitPolicy::MultiHit))
                        } else {
                            let mut text: Vec<char> = Vec::new();
                            push_str_chars(&mut text, "Invalid hit policy ");
                            push_chars(&mut text, policy.as_slice());
                            push_str_chars(&mut text, " for ");
                            push_chars(&mut text, name.as_slice());
                            Err(ParseErrorEnum::UnknownParseError(string_from_chars(text.as_slice())))
                        }
                    }
                },
                None => Ok(AnnotationEnum::DecisionTableAnnotation(EHitPolicy::FirstHit)),
            }
        } else if chars_equal_str(name.as_slice(), "Service") {
            Ok(AnnotationEnum::ServiceAnnotation(EMethod::GET))
        } else {
            let mut text: Vec<char> = Vec::new();
            push_str_chars(&mut text, "Unknown annotation: ");
            push_chars(&mut text, name.as_slice());
            Err(ParseErrorEnum::UnknownParseError(string_from_chars(text.as_slice())))
        }
    }

    /// The first decision table annotation among `annotations`, if any.
    pub fn get_decision_table(annotations: &Vec<AnnotationEnum>) -> (res: Option<&AnnotationEnum>)
        ensures
            res matches Some(a) ==> *a is DecisionTableAnnotation && exists|i: int|
                0 <= i < annotations@.len() && annotations@[i] == *a && forall|k: int|
                    0 <= k < i ==> !(annotations@[k] is DecisionTableAnnotation),
            res is None ==> forall|k: int|
                0 <= k < annotations@.len() ==> !(annotations@[k] is DecisionTableAnnotation),
    {
        let mut i: usize = 0;
        while i < annotations.len()
            invariant
                i <= annotations@.len(),
                forall|k: int| 0 <= k < i ==> !(annotations@[k] is DecisionTableAnnotation),
            decreases annotations@.len() - i,
        {
            if let AnnotationEnum::DecisionTableAnnotation(_) = annotations[i] {
                return Some(&annotations[i]);
            }
            i = i + 1;
        }
        None
    }
}

} // verus!
