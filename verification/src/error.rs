//! What stops a run.

use crate::text::{join, seq_views, spec_join};
use vstd::prelude::*;
use vstd::string::*;

verus! {

/// Why no text was generated.
pub enum GenerateError {
    /// Configured types that no graph holds: every such name, in configuration order.
    MissingTypes(Vec<String>),
    /// An implementation id of a bound type that resolves to no implementation block.
    NotAnImplBlock(u64),
    /// A bound type whose graph has no path for it.
    MissingPath(u64),
}

/// The mathematical value of a [`GenerateError`].
pub ghost enum GenerateErrorView {
    MissingTypes(Seq<Seq<char>>),
    NotAnImplBlock(u64),
    MissingPath(u64),
}

impl View for GenerateError {
    type V = GenerateErrorView;

    open spec fn view(&self) -> GenerateErrorView {
        match self {
            GenerateError::MissingTypes(names) => GenerateErrorView::MissingTypes(
                seq_views(names@),
            ),
            GenerateError::NotAnImplBlock(id) => GenerateErrorView::NotAnImplBlock(*id),
            GenerateError::MissingPath(id) => GenerateErrorView::MissingPath(*id),
        }
    }
}

/// What is said of the types that were not found.
pub open spec fn spec_missing_types_message(names: Seq<Seq<char>>) -> Seq<char> {
    "Some types were not found in the given crates: "@ + spec_join(names, ", "@)
}

impl GenerateError {
    /// The names of the configured types that were not found, where that is the error.
    pub fn missing_types(&self) -> (r: Option<&Vec<String>>)
        ensures
            match r {
                Some(names) => self@ == GenerateErrorView::MissingTypes(seq_views(names@)),
                None => !(self@ is MissingTypes),
            },
    {
        match self {
            GenerateError::MissingTypes(names) => Some(names),
            _ => None,
        }
    }

    /// The id that the error is about, where it is about one.
    pub fn offending_id(&self) -> (r: Option<u64>)
        ensures
            r == match self@ {
                GenerateErrorView::MissingTypes(_) => None,
                GenerateErrorView::NotAnImplBlock(id) => Some(id),
                GenerateErrorView::MissingPath(id) => Some(id),
            },
    {
        match self {
            GenerateError::MissingTypes(_) => None,
            GenerateError::NotAnImplBlock(id) => Some(*id),
            GenerateError::MissingPath(id) => Some(*id),
        }
    }

    /// The error in words, without the id that it may be about.
    pub fn to_string(&self) -> (r: String)
        ensures
            r@ == match self@ {
                GenerateErrorView::MissingTypes(names) => spec_missing_types_message(names),
                GenerateErrorView::NotAnImplBlock(_) => "Expected impl items here!"@,
                GenerateErrorView::MissingPath(_) => "path not found"@,
            },
    {
        match self {
            GenerateError::MissingTypes(names) => {
                let mut r = String::from_str("Some types were not found in the given crates: ");
                let list = join(names, ", ");
                r.append(list.as_str());
                r
            },
            GenerateError::NotAnImplBlock(_) => String::from_str("Expected impl items here!"),
            GenerateError::MissingPath(_) => String::from_str("path not found"),
        }
    }
}

} // verus!
