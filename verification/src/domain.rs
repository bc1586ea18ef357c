//! Errors of the domain rules.

use vstd::prelude::*;

verus! {

/// A broken domain rule, with its message.
#[derive(Clone, Debug, PartialEq, Eq)]
pub enum DomainError {
    InvalidArgument(String),
    RuleViolation(String),
}

/// The message that a domain error carries.
pub open spec fn domain_error_message(error: DomainError) -> Seq<char> {
    match error {
        DomainError::InvalidArgument(message) => message@,
        DomainError::RuleViolation(message) => message@,
    }
}

impl DomainError {
    /// The text of the error: its message alone.
    pub fn to_string(&self) -> (text: String)
        ensures
            text@ == domain_error_message(*self),
    {
        match self {
            DomainError::InvalidArgument(message) => message.clone(),
            DomainError::RuleViolation(message) => message.clone(),
        }
    }
}

} // verus!
