use vstd::prelude::*;

use crate::text::{chars_of, push_chars, push_str_chars, string_from_chars};

verus! {

/// What kind of name was declared twice.
#[derive(Copy, Clone, Debug, PartialEq, Eq, Structural)]
pub enum NameKind {
    Field,
    Function,
    UserType,
}

/// How a kind of name is called in messages.
pub open spec fn spec_name_kind_str(kind: NameKind) -> Seq<char> {
    match kind {
        NameKind::Field => "field"@,
        NameKind::Function => "function"@,
        NameKind::UserType => "user type"@,
    }
}

impl NameKind {
    /// How the kind of name is called in messages.
    pub fn as_str(&self) -> (res: &'static str)
        ensures
            res@ == spec_name_kind_str(*self),
    {
        match self {
            NameKind::Field => "field",
            NameKind::Function => "function",
            NameKind::UserType => "user type",
        }
    }
}

/// A name declared twice in one context.
#[derive(Debug, Clone, PartialEq, Eq)]
pub struct DuplicateNameError {
    pub kind: NameKind,
    pub name: String,
}

impl DuplicateNameError {
    /// The error for `name`, of kind `kind`, declared twice.
    pub fn new(kind: NameKind, name: String) -> (res: Self)
        ensures
            res.kind == kind,
            res.name@ == name@,
    {
        DuplicateNameError { kind, name }
    }

    /// The message: `Duplicate <kind> '<name>'`.
    pub fn to_message(&self) -> (res: String)
        ensures
            res@ == "Duplicate "@ + spec_name_kind_str(self.kind) + " '"@ + self.name@ + "'"@,
    {
        let mut out: Vec<char> = Vec::new();
        push_str_chars(&mut out, "Duplicate ");
        push_str_chars(&mut out, self.kind.as_str());
        push_str_chars(&mut out, " '");
        let name = chars_of(self.name.as_str());
        push_chars(&mut out, name.as_slice());
        push_str_chars(&mut out, "'");
        string_from_chars(out.as_slice())
    }
}

} // verus!
