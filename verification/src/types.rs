//! The classification of hover content.

use vstd::prelude::*;

verus! {

/// What kind of item a hover answer documents.
#[derive(Debug, Clone, Copy, PartialEq, Eq, Structural)]
pub enum ContentType {
    /// A function or method.
    Function,
    /// A struct or enum.
    Struct,
    /// A binding or constant.
    Variable,
    /// A module.
    Module,
    /// Anything else.
    Generic,
}

impl ContentType {
    /// The display name of the classification.
    pub fn label(&self) -> (r: &'static str)
        ensures
            self is Function ==> r@ == "Function"@,
            self is Struct ==> r@ == "Struct"@,
            self is Variable ==> r@ == "Variable"@,
            self is Module ==> r@ == "Module"@,
            self is Generic ==> r@ == "Generic"@,
    {
        match self {
            ContentType::Function => "Function",
            ContentType::Struct => "Struct",
            ContentType::Variable => "Variable",
            ContentType::Module => "Module",
            ContentType::Generic => "Generic",
        }
    }
}

} // verus!
