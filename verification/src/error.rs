//! What can go wrong while a cached plan is derived.

use vstd::prelude::*;
use crate::env::EnvError;
use crate::env::EnvErrorView;

verus! {

/// Why no cached plan could be derived.
#[derive(Debug, PartialEq, Eq)]
pub enum PlanError {
    /// The variables of the environment could not be assembled.
    Environment(EnvError),
    /// The manifest path has no parent directory to resolve rules against.
    NoManifestParent,
    /// A declared rule could not be evaluated; the text says why.
    Rules(String),
    /// The canonical pairs could not be encoded; the text says why.
    Encoding(String),
    /// An event arrived that the current stage does not wait for.
    OutOfTurn,
}

/// What a [`PlanError`] is in contracts.
pub enum PlanErrorView {
    Environment(EnvErrorView),
    NoManifestParent,
    Rules(Seq<char>),
    Encoding(Seq<char>),
    OutOfTurn,
}

impl View for PlanError {
    type V = PlanErrorView;

    open spec fn view(&self) -> PlanErrorView {
        match *self {
            PlanError::Environment(e) => PlanErrorView::Environment(e@),
            PlanError::NoManifestParent => PlanErrorView::NoManifestParent,
            PlanError::Rules(text) => PlanErrorView::Rules(text@),
            PlanError::Encoding(text) => PlanErrorView::Encoding(text@),
            PlanError::OutOfTurn => PlanErrorView::OutOfTurn,
        }
    }
}

impl DeepView for PlanError {
    type V = PlanErrorView;

    open spec fn deep_view(&self) -> PlanErrorView {
        self.view()
    }
}

} // verus!
