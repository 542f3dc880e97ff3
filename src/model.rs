//! The snapshot of a project, its pipelines and their jobs, as the overview
//! reads it.

use crate::format::StatusState;
use vstd::prelude::*;

verus! {

/// The machine that picked up a job.
#[derive(Debug)]
pub struct Runner {
    pub name: Option<String>,
}

/// One job of a pipeline.
#[derive(Debug)]
pub struct Job {
    pub name: String,
    pub stage: String,
    pub status: StatusState,
    pub allow_failure: bool,
    /// Seconds the job ran, where known.
    pub duration: Option<u64>,
    pub runner: Option<Runner>,
    /// The coverage percent as the server reports it.
    pub coverage: Option<String>,
    /// The file names of the job's artifacts, in order.
    pub artifacts: Vec<String>,
}

/// One run of a project's pipeline.
#[derive(Debug)]
pub struct Pipeline {
    pub id: u64,
    pub ref_name: Option<String>,
    pub sha: String,
    pub web_url: String,
    pub author: String,
    pub status: StatusState,
    /// The human label of the detailed status.
    pub label: Option<String>,
    /// Seconds the pipeline ran, where known.
    pub duration: Option<u64>,
    /// The coverage percent as the server reports it.
    pub coverage: Option<String>,
    /// Creation time, in milliseconds since the Unix epoch.
    pub created_at_ms: Option<i64>,
}

/// A project with the pipelines worth showing, each with its jobs.
#[derive(Debug)]
pub struct GitlabProjectPipelines {
    pub project_id: u64,
    pub name: String,
    pub web_url: String,
    pub description: Option<String>,
    pub pipelines: Vec<(Pipeline, Vec<Job>)>,
}

/// What the local repository is on.
#[derive(Debug)]
pub struct RepositoryDetails {
    pub origin: String,
    /// "HEAD" where a tag is checked out.
    pub branch_or_ref: String,
    pub commit: String,
    pub commit_message: String,
    pub tag: Option<String>,
}

} // verus!
