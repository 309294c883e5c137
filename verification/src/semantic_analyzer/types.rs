//! The types of the Envious language.

use vstd::prelude::*;

verus! {

/// A type of the language.
#[derive(Debug, Copy, Clone, PartialEq, Eq, Structural)]
pub enum Types {
    Int,
    Float,
    Boolean,
    String,
    Any,
    Void,
}

impl Types {
    /// How the type is named in messages.
    pub open spec fn name(self) -> Seq<char> {
        match self {
            Types::Int => "An Int"@,
            Types::Float => "A Float"@,
            Types::Boolean => "A Boolean"@,
            Types::String => "A String"@,
            Types::Any => "Any"@,
            Types::Void => "A Void"@,
        }
    }

    /// How the type is named in messages (`Into<String>`).
    pub fn into_string(self) -> (res: String)
        ensures
            res@ == self.name(),
    {
        match self {
            Types::Int => "An Int".to_owned(),
            Types::Float => "A Float".to_owned(),
            Types::Boolean => "A Boolean".to_owned(),
            Types::String => "A String".to_owned(),
            Types::Any => "Any".to_owned(),
            Types::Void => "A Void".to_owned(),
        }
    }
}

} // verus!
