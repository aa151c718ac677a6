//! The error taxonomy of the runtime layer.

use vstd::prelude::*;

verus! {

use crate::validation::ValidationError;

/// Why a lifecycle operation failed.
///
/// `Validation` never reaches the engine; `Connection` means the engine
/// socket or CLI tool was unreachable at adapter construction;
/// `NotFound` and `NameConflict` are surfaced to the caller unchanged;
/// `Engine` is an opaque backend failure with the backend's own text
/// attached; `PartialFailure` marks a best-effort cleanup step that
/// failed without blocking the primary operation.
#[derive(Clone, Debug)]
pub enum EngineError {
    Validation(ValidationError),
    Connection(String),
    NotFound,
    NameConflict,
    Engine(String),
    PartialFailure(String),
}

/// Spec-level value of an engine error.
pub ghost enum EngineErrorView {
    Validation(ValidationError),
    Connection(Seq<char>),
    NotFound,
    NameConflict,
    Engine(Seq<char>),
    PartialFailure(Seq<char>),
}

impl View for EngineError {
    type V = EngineErrorView;

    open spec fn view(&self) -> EngineErrorView {
        match self {
            EngineError::Validation(e) => EngineErrorView::Validation(*e),
            EngineError::Connection(s) => EngineErrorView::Connection(s@),
            EngineError::NotFound => EngineErrorView::NotFound,
            EngineError::NameConflict => EngineErrorView::NameConflict,
            EngineError::Engine(s) => EngineErrorView::Engine(s@),
            EngineError::PartialFailure(s) => EngineErrorView::PartialFailure(s@),
        }
    }
}

impl EngineError {
    /// A short description; backend text is carried through unchanged.
    pub fn message(&self) -> (r: String)
        ensures
            self@ matches EngineErrorView::NotFound ==> r@ == "not found"@,
            self@ matches EngineErrorView::NameConflict ==> r@ == "name conflict"@,
            self@ matches EngineErrorView::Engine(s) ==> r@ == "engine failure: "@ + s,
            self@ matches EngineErrorView::Connection(s) ==> r@ == "connection failed: "@ + s,
            self@ matches EngineErrorView::PartialFailure(s) ==> r@ == "partial failure: "@ + s,
    {
        match self {
            EngineError::Validation(e) => e.message().to_owned(),
            EngineError::Connection(s) => {
                let mut m = String::from_str("connection failed: ");
                m.append(s.as_str());
                m
            },
            EngineError::NotFound => String::from_str("not found"),
            EngineError::NameConflict => String::from_str("name conflict"),
            EngineError::Engine(s) => {
                let mut m = String::from_str("engine failure: ");
                m.append(s.as_str());
                m
            },
            EngineError::PartialFailure(s) => {
                let mut m = String::from_str("partial failure: ");
                m.append(s.as_str());
                m
            },
        }
    }
}

} // verus!
