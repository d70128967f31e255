//! Finds every use of a UI component in a codebase's JSX-like source,
//! resolves which component each usage refers to, and aggregates usages of
//! one component into a group with deterministic statistics over its prop
//! and children patterns.
#![allow(unused_imports)]
use vstd::prelude::*;

pub mod aggregate;
pub mod config;
pub mod identity;
pub mod manifest;
pub mod occurrence;
pub mod parsed;
pub mod report;
pub mod resolve;
pub mod simplify;
pub mod source;
pub mod syntax;
pub mod text;
pub mod tracker;
pub mod usage;

verus! {

/// Error carried out of an analysis run: a single human-readable message.
#[derive(Debug)]
pub struct AnalysisError {
    pub message: String,
}

impl AnalysisError {
    pub fn new(message: String) -> (r: Self)
        ensures
            r.message@ == message@,
    {
        AnalysisError { message }
    }

    pub fn message(&self) -> (r: &str)
        ensures
            r@ == self.message@,
    {
        self.message.as_str()
    }
}

impl Clone for AnalysisError {
    fn clone(&self) -> (r: Self)
        ensures
            r.message@ == self.message@,
    {
        AnalysisError { message: self.message.clone() }
    }
}

} // verus!
