//! What a command can be refused for.

use crate::text::{decimal, decimal_digits};
use vstd::prelude::*;
use vstd::string::StringExecFns;

verus! {

/// Why a command was refused before it changed anything.
#[derive(Clone, Debug)]
pub enum ValidationError {
    /// No operation in the queue has this id.
    OperationNotFound(String),
    /// The daemon runs already, under this process id.
    AlreadyRunning(u32),
    /// The daemon does not run.
    NotRunning,
    /// The daemon was told to stop and still runs.
    DidNotStop,
}

/// A [`ValidationError`] as mathematical values.
pub enum ValidationErrorView {
    OperationNotFound(Seq<char>),
    AlreadyRunning(u32),
    NotRunning,
    DidNotStop,
}

impl View for ValidationError {
    type V = ValidationErrorView;

    open spec fn view(&self) -> ValidationErrorView {
        match self {
            ValidationError::OperationNotFound(id) => ValidationErrorView::OperationNotFound(id@),
            ValidationError::AlreadyRunning(pid) => ValidationErrorView::AlreadyRunning(*pid),
            ValidationError::NotRunning => ValidationErrorView::NotRunning,
            ValidationError::DidNotStop => ValidationErrorView::DidNotStop,
        }
    }
}

impl ValidationErrorView {
    /// The sentence that tells the user what went wrong.
    pub open spec fn text(self) -> Seq<char> {
        match self {
            ValidationErrorView::OperationNotFound(id) => "Operation not found: "@ + id,
            ValidationErrorView::AlreadyRunning(pid) => "daemon already running (pid "@
                + decimal_digits(pid as nat) + ")"@,
            ValidationErrorView::NotRunning => "daemon not running"@,
            ValidationErrorView::DidNotStop => "daemon didn't stop"@,
        }
    }
}

impl ValidationError {
    /// The sentence that tells the user what went wrong.
    pub fn message(&self) -> (s: String)
        ensures
            s@ == self@.text(),
    {
        match self {
            ValidationError::OperationNotFound(id) => {
                let mut s = String::from_str("Operation not found: ");
                s.append(id.as_str());
                s
            },
            ValidationError::AlreadyRunning(pid) => {
                let mut s = String::from_str("daemon already running (pid ");
                let number = decimal(*pid as u64);
                s.append(number.as_str());
                s.append(")");
                s
            },
            ValidationError::NotRunning => String::from_str("daemon not running"),
            ValidationError::DidNotStop => String::from_str("daemon didn't stop"),
        }
    }
}

} // verus!
