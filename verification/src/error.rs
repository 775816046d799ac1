//! The errors of attribute resolution.

use crate::text::copy_texts;
use vstd::prelude::*;

verus! {

/// An error of the resolver.
#[derive(Debug, PartialEq)]
pub enum Error {
    /// Attributes could not be resolved against the registry.
    FailToResolveAttributes {
        /// The names that could not be resolved.
        ids: Vec<String>,
        /// What went wrong.
        error: String,
    },
}

/// The view of an [`Error`].
pub enum ErrorView {
    FailToResolveAttributes { ids: Seq<Seq<char>>, error: Seq<char> },
}

impl View for Error {
    type V = ErrorView;

    open spec fn view(&self) -> ErrorView {
        match self {
            Error::FailToResolveAttributes { ids, error } => ErrorView::FailToResolveAttributes {
                ids: ids.deep_view(),
                error: error@,
            },
        }
    }
}

impl DeepView for Error {
    type V = ErrorView;

    open spec fn deep_view(&self) -> ErrorView {
        self@
    }
}

impl Clone for Error {
    fn clone(&self) -> (copy: Self)
        ensures
            copy@ == self@,
    {
        match self {
            Error::FailToResolveAttributes { ids, error } => Error::FailToResolveAttributes {
                ids: copy_texts(ids),
                error: error.clone(),
            },
        }
    }
}

/// The error that says that the single name `id` could not be resolved, for the
/// reason `reason`.
pub open spec fn unresolved(id: Seq<char>, reason: Seq<char>) -> ErrorView {
    ErrorView::FailToResolveAttributes { ids: seq![id], error: reason }
}

impl Error {
    /// Builds the error that says that the single name `id` could not be
    /// resolved, for the reason `reason`.
    pub fn fail_to_resolve(id: &str, reason: &str) -> (error: Error)
        ensures
            error@ == unresolved(id@, reason@),
    {
        let mut ids: Vec<String> = Vec::new();
        ids.push(id.to_owned());
        let error = Error::FailToResolveAttributes { ids, error: reason.to_owned() };
        assert(error@->ids =~= seq![id@]);
        error
    }
}

} // verus!
