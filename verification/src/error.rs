//! The error type shared by every part of the library.

use vstd::prelude::*;
use crate::text::{concat2, concat3, owned};

verus! {

/// An error of the server manager: what was missing, invalid or failed.
#[derive(Debug, Clone, PartialEq, Eq)]
pub enum CoreError {
    NotFound { resource: String, id: String },
    Validation(String),
    Storage(String),
    Runtime(String),
    Unsupported(String),
}

/// The mathematical form of a [`CoreError`]: its kind and texts.
pub enum CoreErrorView {
    NotFound { resource: Seq<char>, id: Seq<char> },
    Validation(Seq<char>),
    Storage(Seq<char>),
    Runtime(Seq<char>),
    Unsupported(Seq<char>),
}

impl View for CoreError {
    type V = CoreErrorView;

    open spec fn view(&self) -> CoreErrorView {
        match self {
            CoreError::NotFound { resource, id } => CoreErrorView::NotFound {
                resource: resource@,
                id: id@,
            },
            CoreError::Validation(m) => CoreErrorView::Validation(m@),
            CoreError::Storage(m) => CoreErrorView::Storage(m@),
            CoreError::Runtime(m) => CoreErrorView::Runtime(m@),
            CoreError::Unsupported(m) => CoreErrorView::Unsupported(m@),
        }
    }
}

/// The text that an error displays.
pub open spec fn error_message(e: CoreErrorView) -> Seq<char> {
    match e {
        CoreErrorView::NotFound { resource, id } => resource + " not found: "@ + id,
        CoreErrorView::Validation(m) => "validation error: "@ + m,
        CoreErrorView::Storage(m) => "storage error: "@ + m,
        CoreErrorView::Runtime(m) => "runtime error: "@ + m,
        CoreErrorView::Unsupported(m) => "unsupported: "@ + m,
    }
}

/// The result of a validation failure with message `m`.
pub open spec fn validation_err<T>(m: Seq<char>) -> Result<T, CoreErrorView> {
    Err(CoreErrorView::Validation(m))
}

/// The view of a result whose error is a [`CoreError`].
pub open spec fn result_view<T>(r: Result<T, CoreError>) -> Result<T, CoreErrorView> {
    match r {
        Ok(v) => Ok(v),
        Err(e) => Err(e@),
    }
}

impl CoreError {
    /// A "not found" error for the resource kind `resource` and the identifier `id`.
    pub fn not_found(resource: &str, id: &str) -> (e: CoreError)
        ensures
            e@ == (CoreErrorView::NotFound { resource: resource@, id: id@ }),
    {
        CoreError::NotFound { resource: owned(resource), id: owned(id) }
    }

    /// A validation error with the given message.
    pub fn validation(message: &str) -> (e: CoreError)
        ensures
            e@ == CoreErrorView::Validation(message@),
    {
        CoreError::Validation(owned(message))
    }

    /// A storage error with the given message.
    pub fn storage(message: &str) -> (e: CoreError)
        ensures
            e@ == CoreErrorView::Storage(message@),
    {
        CoreError::Storage(owned(message))
    }

    /// A runtime error with the given message.
    pub fn runtime(message: &str) -> (e: CoreError)
        ensures
            e@ == CoreErrorView::Runtime(message@),
    {
        CoreError::Runtime(owned(message))
    }

    /// An "unsupported" error with the given message.
    pub fn unsupported(message: &str) -> (e: CoreError)
        ensures
            e@ == CoreErrorView::Unsupported(message@),
    {
        CoreError::Unsupported(owned(message))
    }

    /// The text the error displays, such as `validation error: name cannot be empty`.
    pub fn message(&self) -> (r: String)
        ensures
            r@ == error_message(self@),
    {
        match self {
            CoreError::NotFound { resource, id } => concat3(
                resource.as_str(),
                " not found: ",
                id.as_str(),
            ),
            CoreError::Validation(m) => concat2("validation error: ", m.as_str()),
            CoreError::Storage(m) => concat2("storage error: ", m.as_str()),
            CoreError::Runtime(m) => concat2("runtime error: ", m.as_str()),
            CoreError::Unsupported(m) => concat2("unsupported: ", m.as_str()),
        }
    }

    /// A copy of the error.
    pub fn duplicate(&self) -> (r: CoreError)
        ensures
            r@ == self@,
    {
        match self {
            CoreError::NotFound { resource, id } => CoreError::NotFound {
                resource: owned(resource.as_str()),
                id: owned(id.as_str()),
            },
            CoreError::Validation(m) => CoreError::Validation(owned(m.as_str())),
            CoreError::Storage(m) => CoreError::Storage(owned(m.as_str())),
            CoreError::Runtime(m) => CoreError::Runtime(owned(m.as_str())),
            CoreError::Unsupported(m) => CoreError::Unsupported(owned(m.as_str())),
        }
    }
}

} // verus!
