//! The outcome of one analysis run: the report with its metadata and
//! aggregated groups, and the classified result handed to the caller.
use vstd::prelude::*;
use vstd::string::*;

use crate::AnalysisError;
use crate::aggregate::ComponentUsageAggregate;
use crate::aggregate::ComponentUsageAggregateV;
use crate::text::contains_substring_spec;

verus! {

/// What the report says about the run itself.
#[derive(Debug)]
pub struct AnalysisMetadata {
    pub base_path: String,
}

impl Clone for AnalysisMetadata {
    fn clone(&self) -> (r: Self)
        ensures
            r.base_path@ == self.base_path@,
    {
        AnalysisMetadata { base_path: self.base_path.clone() }
    }
}

impl AnalysisMetadata {
    pub fn new(base_path: String) -> (r: Self)
        ensures
            r.base_path@ == base_path@,
    {
        AnalysisMetadata { base_path }
    }

    pub fn base_path(&self) -> (r: &str)
        ensures
            r@ == self.base_path@,
    {
        self.base_path.as_str()
    }
}

/// One run's report: its metadata and the aggregated component groups.
#[derive(Debug)]
pub struct AnalysisReport {
    pub meta: AnalysisMetadata,
    pub components: Vec<ComponentUsageAggregate>,
}

pub ghost struct AnalysisReportV {
    pub base_path: Seq<char>,
    pub components: Seq<ComponentUsageAggregateV>,
}

impl View for AnalysisReport {
    type V = AnalysisReportV;

    open spec fn view(&self) -> AnalysisReportV {
        AnalysisReportV {
            base_path: self.meta.base_path@,
            components: self.components.deep_view(),
        }
    }
}

impl AnalysisReport {
    pub fn new(meta: AnalysisMetadata, aggregates: Vec<ComponentUsageAggregate>) -> (r: Self)
        ensures
            r@.base_path == meta.base_path@,
            r@.components == aggregates.deep_view(),
    {
        AnalysisReport { meta, components: aggregates }
    }

    pub fn meta(&self) -> (r: &AnalysisMetadata)
        ensures
            r.base_path@ == self@.base_path,
    {
        &self.meta
    }

    pub fn components(&self) -> (r: &Vec<ComponentUsageAggregate>)
        ensures
            r.deep_view() == self@.components,
    {
        &self.components
    }
}

/// How a run ended, as handed to the caller.
#[derive(Debug)]
pub enum AnalysisResult {
    Success { report: AnalysisReport },
    NoFilesFound,
    InvalidPath(String),
    AnalysisError(AnalysisError),
}

/// The message a result carries: none on success, a fixed sentence for
/// missing files, the offending path or the error's own message otherwise.
pub open spec fn result_message(r: &AnalysisResult) -> Option<Seq<char>> {
    match r {
        AnalysisResult::Success { .. } => None,
        AnalysisResult::NoFilesFound => Some("No target files found"@),
        AnalysisResult::InvalidPath(path) => Some("Invalid path: "@ + path@),
        AnalysisResult::AnalysisError(err) => Some(err.message@),
    }
}

impl AnalysisResult {
    /// The process exit code of this outcome.
    pub fn exit_code(&self) -> (r: i32)
        ensures
            r == match self {
                AnalysisResult::Success { .. } => 0int,
                AnalysisResult::NoFilesFound => 1int,
                AnalysisResult::InvalidPath(_) => 2int,
                AnalysisResult::AnalysisError(_) => 3int,
            },
    {
        match self {
            AnalysisResult::Success { .. } => 0,
            AnalysisResult::NoFilesFound => 1,
            AnalysisResult::InvalidPath(_) => 2,
            AnalysisResult::AnalysisError(_) => 3,
        }
    }

    pub fn message(&self) -> (r: Option<String>)
        ensures
            r.deep_view() == result_message(self),
    {
        match self {
            AnalysisResult::Success { .. } => None,
            AnalysisResult::NoFilesFound => Some("No target files found".to_owned()),
            AnalysisResult::InvalidPath(path) => Some(
                "Invalid path: ".to_owned().concat(path.as_str()),
            ),
            AnalysisResult::AnalysisError(err) => Some(err.message.clone()),
        }
    }

    pub fn is_success(&self) -> (r: bool)
        ensures
            r == (self is Success),
    {
        matches!(self, AnalysisResult::Success { .. })
    }
}

/// How a run's raw outcome is classified: an error whose message mentions
/// missing target files or a canonicalization failure is recognized by that
/// wording; any other error is carried as it is.
pub open spec fn classify_result(
    result: Result<AnalysisReport, AnalysisError>,
) -> AnalysisResult {
    match result {
        Ok(report) => AnalysisResult::Success { report },
        Err(err) => {
            if contains_substring_spec(err.message@, "No target files"@) {
                AnalysisResult::NoFilesFound
            } else if contains_substring_spec(err.message@, "canonicalize"@) {
                AnalysisResult::InvalidPath(err.message)
            } else {
                AnalysisResult::AnalysisError(err)
            }
        },
    }
}

impl From<Result<AnalysisReport, AnalysisError>> for AnalysisResult {
    fn from(result: Result<AnalysisReport, AnalysisError>) -> (r: Self)
        ensures
            r == classify_result(result),
    {
        match result {
            Ok(report) => AnalysisResult::Success { report },
            Err(err) => {
                if crate::text::contains_substring(err.message.as_str(), "No target files") {
                    AnalysisResult::NoFilesFound
                } else if crate::text::contains_substring(err.message.as_str(), "canonicalize") {
                    AnalysisResult::InvalidPath(err.message)
                } else {
                    AnalysisResult::AnalysisError(err)
                }
            },
        }
    }
}

impl vstd::std_specs::convert::FromSpecImpl<Result<AnalysisReport, AnalysisError>> for AnalysisResult {
    open spec fn obeys_from_spec() -> bool {
        true
    }

    open spec fn from_spec(result: Result<AnalysisReport, AnalysisError>) -> AnalysisResult {
        classify_result(result)
    }
}

} // verus!
