//! Merging the two sources of environments: the project's directory tree and
//! the environment manager's report.

use vstd::prelude::*;
use vstd::string::*;
use crate::environment::{
    lemma_models_concat, models, EnvironmentModel, PythonEnvironment,
    PythonEnvironmentSelectExtension,
};
use crate::paths::FileSet;
use crate::report::parse_report;
use crate::scanner::{scan_listing, Listing};

verus! {

/// A snapshot of a project: the path of its root and what lies below it.
#[derive(Debug)]
pub struct Worktree {
    pub root_path: String,
    pub listing: Listing,
}

/// What a finished run of the environment manager left behind.
#[derive(Debug)]
pub struct ProcessOutput {
    /// Whether it ended with a status of zero.
    pub success: bool,
    pub stdout: String,
    pub stderr: String,
}

/// What the environment manager contributes. `outcome` is its output, or the
/// reason why it could not be started.
pub open spec fn conda_result(
    outcome: Result<ProcessOutput, String>,
    present: Set<Seq<char>>,
) -> Result<Seq<EnvironmentModel>, Seq<char>> {
    match outcome {
        Err(reason) => Err("Failed to execute command: "@ + reason@),
        Ok(output) => if output.success {
            Ok(parse_report(output.stdout@, present))
        } else {
            Err("Command executed with failing error code: "@ + output.stderr@)
        },
    }
}

/// What the project's tree contributes: nothing where there is no project.
pub open spec fn worktree_environments(
    worktree: Option<&Worktree>,
    present: Set<Seq<char>>,
) -> Seq<EnvironmentModel> {
    match worktree {
        Some(w) => scan_listing(w.root_path@, w.listing, present),
        None => Seq::empty(),
    }
}

/// What the environment manager contributes to the merged list: nothing where
/// it failed.
pub open spec fn conda_environments(
    outcome: Result<ProcessOutput, String>,
    present: Set<Seq<char>>,
) -> Seq<EnvironmentModel> {
    match conda_result(outcome, present) {
        Ok(envs) => envs,
        Err(_) => Seq::empty(),
    }
}

/// The merged list: the tree's environments in scan order, then the manager's
/// in report order. Nothing is sorted and nothing is removed.
pub open spec fn all_environments(
    worktree: Option<&Worktree>,
    outcome: Result<ProcessOutput, String>,
    present: Set<Seq<char>>,
) -> Seq<EnvironmentModel> {
    worktree_environments(worktree, present) + conda_environments(outcome, present)
}

impl PythonEnvironmentSelectExtension {
    /// The virtual environments below the project's root.
    pub fn find_venvs_from_worktree(worktree: &Worktree, present: &FileSet) -> (venvs: Vec<
        PythonEnvironment,
    >)
        ensures
            models(venvs@) == scan_listing(worktree.root_path@, worktree.listing, present@),
    {
        Self::find_venvs_rec(worktree.root_path.as_str(), &worktree.listing, present)
    }

    /// The environments that the environment manager reported, or why there
    /// are none: it could not be started, or it ended with a failure.
    pub fn find_envs_from_conda(outcome: &Result<ProcessOutput, String>, present: &FileSet) -> (r:
        Result<Vec<PythonEnvironment>, String>)
        ensures
            match r {
                Ok(envs) => conda_result(*outcome, present@) == Ok::<
                    Seq<EnvironmentModel>,
                    Seq<char>,
                >(models(envs@)),
                Err(message) => conda_result(*outcome, present@) == Err::<
                    Seq<EnvironmentModel>,
                    Seq<char>,
                >(message@),
            },
    {
        match outcome {
            Err(reason) => Err(
                String::from_str("Failed to execute command: ").concat(reason.as_str()),
            ),
            Ok(output) => {
                if !output.success {
                    return Err(
                        String::from_str("Command executed with failing error code: ").concat(
                            output.stderr.as_str(),
                        ),
                    );
                }
                Self::parse_conda_output(output.stdout.as_str(), present)
            },
        }
    }

    /// All environments: those of the project, if there is one, then those of
    /// the environment manager, if it answered.
    pub fn get_all_python_environments(
        &self,
        worktree: Option<&Worktree>,
        outcome: &Result<ProcessOutput, String>,
        present: &FileSet,
    ) -> (environments: Vec<PythonEnvironment>)
        ensures
            models(environments@) == all_environments(worktree, *outcome, present@),
    {
        let mut environments: Vec<PythonEnvironment> = Vec::new();
        assert(models(environments@) =~= Seq::<EnvironmentModel>::empty());
        if let Some(worktree) = worktree {
            let mut venvs = Self::find_venvs_from_worktree(worktree, present);
            proof {
                lemma_models_concat(environments@, venvs@);
            }
            environments.append(&mut venvs);
        }
        assert(models(environments@) =~= worktree_environments(worktree, present@));
        if let Ok(conda_envs) = Self::find_envs_from_conda(outcome, present) {
            let mut conda_envs = conda_envs;
            proof {
                lemma_models_concat(environments@, conda_envs@);
            }
            environments.append(&mut conda_envs);
        } else {
            assert(models(environments@) + Seq::<EnvironmentModel>::empty() =~= models(
                environments@,
            ));
        }
        environments
    }
}

} // verus!
