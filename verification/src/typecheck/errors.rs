//! The errors the type checker reports.
use vstd::prelude::*;

use crate::ast::types::{mult_text, type_text, Multiplicity, SpecType, TraitName, Type, TypeName};
use crate::text::concat;

verus! {

/// Why a term does not type-check.
#[derive(Debug)]
pub enum TypeError {
    LinearityViolation(String, Multiplicity),
    BorrowContextMix,
    MultiplicityMismatch { expected: Multiplicity, found: Multiplicity },
    OwnershipEscape(String),
    TraitNotFound(TraitName, Type),
    DuplicateImpl(TraitName, Type),
    NonExhaustivePattern,
    StrictPositivityViolation(TypeName),
    BorrowInMatchArm(String),
    TypeMismatch { expected: Type, found: Type },
    UnknownVariable(String),
    InvalidApplication(String),
    InvalidPattern(String),
    UnknownPrimitive(String),
}

/// The value of a [`TypeError`].
pub enum SpecTypeError {
    LinearityViolation(Seq<char>, Multiplicity),
    BorrowContextMix,
    MultiplicityMismatch { expected: Multiplicity, found: Multiplicity },
    OwnershipEscape(Seq<char>),
    TraitNotFound(Seq<char>, SpecType),
    DuplicateImpl(Seq<char>, SpecType),
    NonExhaustivePattern,
    StrictPositivityViolation(Seq<char>),
    BorrowInMatchArm(Seq<char>),
    TypeMismatch { expected: SpecType, found: SpecType },
    UnknownVariable(Seq<char>),
    InvalidApplication(Seq<char>),
    InvalidPattern(Seq<char>),
    UnknownPrimitive(Seq<char>),
}

impl View for TypeError {
    type V = SpecTypeError;

    open spec fn view(&self) -> SpecTypeError {
        match self {
            TypeError::LinearityViolation(v, m) => SpecTypeError::LinearityViolation(v@, *m),
            TypeError::BorrowContextMix => SpecTypeError::BorrowContextMix,
            TypeError::MultiplicityMismatch { expected, found } => SpecTypeError::MultiplicityMismatch {
                expected: *expected,
                found: *found,
            },
            TypeError::OwnershipEscape(s) => SpecTypeError::OwnershipEscape(s@),
            TypeError::TraitNotFound(t, ty) => SpecTypeError::TraitNotFound(t.0@, ty@),
            TypeError::DuplicateImpl(t, ty) => SpecTypeError::DuplicateImpl(t.0@, ty@),
            TypeError::NonExhaustivePattern => SpecTypeError::NonExhaustivePattern,
            TypeError::StrictPositivityViolation(n) => SpecTypeError::StrictPositivityViolation(n.0@),
            TypeError::BorrowInMatchArm(s) => SpecTypeError::BorrowInMatchArm(s@),
            TypeError::TypeMismatch { expected, found } => SpecTypeError::TypeMismatch {
                expected: expected@,
                found: found@,
            },
            TypeError::UnknownVariable(s) => SpecTypeError::UnknownVariable(s@),
            TypeError::InvalidApplication(s) => SpecTypeError::InvalidApplication(s@),
            TypeError::InvalidPattern(s) => SpecTypeError::InvalidPattern(s@),
            TypeError::UnknownPrimitive(s) => SpecTypeError::UnknownPrimitive(s@),
        }
    }
}

/// The message shown for an error.
pub open spec fn error_text(e: SpecTypeError) -> Seq<char> {
    match e {
        SpecTypeError::LinearityViolation(v, m) => "Linearity violation: variable "@ + v + " used with multiplicity "@
            + mult_text(m),
        SpecTypeError::BorrowContextMix => "Cannot mix borrow context with quantity context"@,
        SpecTypeError::MultiplicityMismatch { expected, found } => "Multiplicity mismatch: expected "@ + mult_text(
            expected,
        ) + ", found "@ + mult_text(found),
        SpecTypeError::OwnershipEscape(s) => "Ownership escape: "@ + s,
        SpecTypeError::TraitNotFound(t, ty) => "Trait not found: "@ + t + " for type "@ + type_text(ty),
        SpecTypeError::DuplicateImpl(t, ty) => "Duplicate implementation of trait "@ + t + " for type "@ + type_text(ty),
        SpecTypeError::NonExhaustivePattern => "Non-exhaustive pattern: missing cases"@,
        SpecTypeError::StrictPositivityViolation(n) => "Strict positivity violation in inductive type "@ + n,
        SpecTypeError::BorrowInMatchArm(s) => "Cannot use borrow in match arm: "@ + s,
        SpecTypeError::TypeMismatch { expected, found } => "Type mismatch: expected "@ + type_text(expected) + ", found "@
            + type_text(found),
        SpecTypeError::UnknownVariable(s) => "Unknown variable: "@ + s,
        SpecTypeError::InvalidApplication(s) => "Invalid application: "@ + s,
        SpecTypeError::InvalidPattern(s) => "Invalid pattern: "@ + s,
        SpecTypeError::UnknownPrimitive(s) => "Unknown primitive: "@ + s,
    }
}

impl TypeError {
    /// The message shown for this error.
    pub fn message(&self) -> (r: String)
        ensures
            r@ == error_text(self@),
    {
        match self {
            TypeError::LinearityViolation(v, m) => {
                let a = concat("Linearity violation: variable ", v.as_str());
                let b = concat(a.as_str(), " used with multiplicity ");
                concat(b.as_str(), m.to_text().as_str())
            },
            TypeError::BorrowContextMix => crate::text::owned("Cannot mix borrow context with quantity context"),
            TypeError::MultiplicityMismatch { expected, found } => {
                let a = concat("Multiplicity mismatch: expected ", expected.to_text().as_str());
                let b = concat(a.as_str(), ", found ");
                concat(b.as_str(), found.to_text().as_str())
            },
            TypeError::OwnershipEscape(s) => concat("Ownership escape: ", s.as_str()),
            TypeError::TraitNotFound(t, ty) => {
                let a = concat("Trait not found: ", t.0.as_str());
                let b = concat(a.as_str(), " for type ");
                concat(b.as_str(), ty.to_text().as_str())
            },
            TypeError::DuplicateImpl(t, ty) => {
                let a = concat("Duplicate implementation of trait ", t.0.as_str());
                let b = concat(a.as_str(), " for type ");
                concat(b.as_str(), ty.to_text().as_str())
            },
            TypeError::NonExhaustivePattern => crate::text::owned("Non-exhaustive pattern: missing cases"),
            TypeError::StrictPositivityViolation(n) => concat("Strict positivity violation in inductive type ", n.0.as_str()),
            TypeError::BorrowInMatchArm(s) => concat("Cannot use borrow in match arm: ", s.as_str()),
            TypeError::TypeMismatch { expected, found } => {
                let a = concat("Type mismatch: expected ", expected.to_text().as_str());
                let b = concat(a.as_str(), ", found ");
                concat(b.as_str(), found.to_text().as_str())
            },
            TypeError::UnknownVariable(s) => concat("Unknown variable: ", s.as_str()),
            TypeError::InvalidApplication(s) => concat("Invalid application: ", s.as_str()),
            TypeError::InvalidPattern(s) => concat("Invalid pattern: ", s.as_str()),
            TypeError::UnknownPrimitive(s) => concat("Unknown primitive: ", s.as_str()),
        }
    }
}

} // verus!
