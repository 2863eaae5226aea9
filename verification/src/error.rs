//! What can go wrong between a template and its segments.

use vstd::prelude::*;

verus! {

/// The complaint of a resolver that knows a name and cannot give its value.
#[derive(Debug, PartialEq, Eq)]
pub struct ResolveError {
    pub message: String,
}

impl View for ResolveError {
    type V = Seq<char>;

    open spec fn view(&self) -> Seq<char> {
        self.message@
    }
}

/// Why a template gave no segments.
#[derive(Debug, PartialEq, Eq)]
pub enum FormatError {
    /// The template is malformed at this character (counted from 0; its
    /// length where the template ends too early).
    Syntax(usize),
    /// `$name` with a name that the resolver of variables does not know.
    UnknownVariable(String),
    /// `${name}` with a name that the resolver of meta-variables does not
    /// know.
    UnresolvedMeta(String),
    /// A group with a style that the resolver of styles does not know.
    UnknownStyle(String),
    /// A resolver knew the name and failed to give its value.
    ResolverValue(ResolveError),
}

/// A [`FormatError`] as the contracts see it.
pub enum FormatErrorView {
    Syntax(int),
    UnknownVariable(Seq<char>),
    UnresolvedMeta(Seq<char>),
    UnknownStyle(Seq<char>),
    ResolverValue(Seq<char>),
}

impl View for FormatError {
    type V = FormatErrorView;

    open spec fn view(&self) -> FormatErrorView {
        match self {
            FormatError::Syntax(at) => FormatErrorView::Syntax(*at as int),
            FormatError::UnknownVariable(name) => FormatErrorView::UnknownVariable(name@),
            FormatError::UnresolvedMeta(name) => FormatErrorView::UnresolvedMeta(name@),
            FormatError::UnknownStyle(name) => FormatErrorView::UnknownStyle(name@),
            FormatError::ResolverValue(error) => FormatErrorView::ResolverValue(error@),
        }
    }
}

} // verus!
