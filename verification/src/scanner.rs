//! Finding virtual environments in a directory tree.
//!
//! The tree is a snapshot: each entry carries its name, whether it is a
//! directory, and what listing it gave. Entry paths are the parent's path with
//! the entry's name adjoined.

use vstd::prelude::*;
use vstd::string::*;
use crate::environment::{
    lemma_models_concat, lemma_models_push, models, EnvironmentModel, PythonEnvironment,
    PythonEnvironmentSelectExtension,
};
use crate::paths::{
    activate_script_of, activate_script_path, config_file_of, config_file_path, interpreter_of,
    interpreter_path, join, joined, FileSet,
};

verus! {

/// What listing a directory gave.
#[derive(Debug)]
pub enum Listing {
    /// The entries, in the order in which they were read.
    Entries(Vec<DirEntry>),
    /// The directory could not be listed; the text says why.
    Unreadable(String),
}

/// One entry of a directory. `listing` is read only where the entry is a
/// directory that the scan descends into.
#[derive(Debug)]
pub struct DirEntry {
    pub name: String,
    pub is_dir: bool,
    pub listing: Listing,
}

/// A directory is an environment root where its activation script or its
/// configuration file exists.
pub open spec fn is_marked(dir: Seq<char>, present: Set<Seq<char>>) -> bool {
    present.contains(activate_script_of(dir)) || present.contains(config_file_of(dir))
}

/// The record that stands for a directory that could not be listed.
pub open spec fn diagnostic(dir: Seq<char>, error: Seq<char>) -> EnvironmentModel {
    EnvironmentModel {
        name: "Error reading directory ("@ + dir + "): "@ + error,
        python_path: Seq::empty(),
    }
}

/// The record of the environment rooted at `path`, found under the name `name`.
pub open spec fn found(name: Seq<char>, path: Seq<char>) -> EnvironmentModel {
    EnvironmentModel { name, python_path: interpreter_of(path) }
}

/// What scanning the directory `dir` yields, given its listing.
pub open spec fn scan_listing(dir: Seq<char>, listing: Listing, present: Set<Seq<char>>) -> Seq<
    EnvironmentModel,
>
    decreases listing,
{
    match listing {
        Listing::Unreadable(error) => seq![diagnostic(dir, error@)],
        Listing::Entries(entries) => scan_entries(dir, entries@, present),
    }
}

/// What the entries of `dir` yield, one after the other.
pub open spec fn scan_entries(
    dir: Seq<char>,
    entries: Seq<DirEntry>,
    present: Set<Seq<char>>,
) -> Seq<EnvironmentModel>
    decreases entries,
{
    if entries.len() == 0 {
        Seq::empty()
    } else {
        scan_entries(dir, entries.drop_last(), present) + scan_entry(dir, entries.last(), present)
    }
}

/// What one entry of `dir` yields: nothing for a file; for an environment root
/// its record, or nothing where it has no interpreter; for any other directory
/// what scanning it yields.
pub open spec fn scan_entry(dir: Seq<char>, entry: DirEntry, present: Set<Seq<char>>) -> Seq<
    EnvironmentModel,
>
    decreases entry,
{
    let path = joined(dir, entry.name@);
    if !entry.is_dir {
        Seq::empty()
    } else if is_marked(path, present) {
        if present.contains(interpreter_of(path)) {
            seq![found(entry.name@, path)]
        } else {
            Seq::empty()
        }
    } else {
        scan_listing(path, entry.listing, present)
    }
}

impl PythonEnvironmentSelectExtension {
    /// Whether `path` is the root of a virtual environment.
    pub fn is_venv(path: &str, present: &FileSet) -> (r: bool)
        ensures
            r == is_marked(path@, present@),
    {
        let activate_script = activate_script_path(path);
        let pyvenv_cfg = config_file_path(path);
        present.contains(&activate_script) || present.contains(&pyvenv_cfg)
    }

    /// The interpreter of the environment rooted at `venv_path`, if it exists.
    pub fn find_python_executable(venv_path: &str, present: &FileSet) -> (r: Option<String>)
        ensures
            r is Some == present@.contains(interpreter_of(venv_path@)),
            r is Some ==> r->Some_0@ == interpreter_of(venv_path@),
    {
        let python_path = interpreter_path(venv_path);
        if present.contains(&python_path) {
            Some(python_path)
        } else {
            None
        }
    }

    /// Scans the tree below `dir`, depth first, in listing order.
    pub fn find_venvs_rec(dir: &str, listing: &Listing, present: &FileSet) -> (venvs: Vec<
        PythonEnvironment,
    >)
        ensures
            models(venvs@) == scan_listing(dir@, *listing, present@),
        decreases listing,
    {
        let mut venvs: Vec<PythonEnvironment> = Vec::new();
        match listing {
            Listing::Entries(entries) => {
                let mut i: usize = 0;
                assert(models(venvs@) =~= Seq::<EnvironmentModel>::empty());
                while i < entries.len()
                    invariant
                        i <= entries@.len(),
                        *listing == Listing::Entries(*entries),
                        models(venvs@) == scan_entries(dir@, entries@.take(i as int), present@),
                    decreases entries@.len() - i,
                {
                    let entry = &entries[i];
                    let ghost before = models(venvs@);
                    proof {
                        assert(entries@.take(i + 1).drop_last() =~= entries@.take(i as int));
                        assert(entries@.take(i + 1).last() == *entry);
                        assert(decreases_to!(*entries => entries[i as int]));
                    }
                    if entry.is_dir {
                        let path = join(dir, entry.name.as_str());
                        if Self::is_venv(path.as_str(), present) {
                            if let Some(python_path) = Self::find_python_executable(
                                path.as_str(),
                                present,
                            ) {
                                let env = PythonEnvironment {
                                    name: entry.name.clone(),
                                    python_path,
                                };
                                proof {
                                    lemma_models_push(venvs@, env);
                                }
                                venvs.push(env);
                            }
                        } else {
                            proof {
                                assert(decreases_to!(*listing => listing->Entries_0));
                            }
                            let mut inner = Self::find_venvs_rec(
                                path.as_str(),
                                &entry.listing,
                                present,
                            );
                            proof {
                                lemma_models_concat(venvs@, inner@);
                            }
                            venvs.append(&mut inner);
                        }
                    }
                    assert(models(venvs@) =~= before + scan_entry(dir@, *entry, present@));
                    i += 1;
                }
                assert(entries@.take(i as int) =~= entries@);
            },
            Listing::Unreadable(error) => {
                let name = String::from_str("Error reading directory (").concat(dir).concat(
                    "): ",
                ).concat(error.as_str());
                let env = PythonEnvironment { name, python_path: String::new() };
                proof {
                    lemma_models_push(venvs@, env);
                }
                venvs.push(env);
                assert(models(venvs@) =~= seq![diagnostic(dir@, error@)]);
            },
        }
        venvs
    }
}

} // verus!
