//! The record that discovery produces.

use vstd::prelude::*;

verus! {

/// One discovered environment. A record whose `python_path` is empty is a
/// diagnostic: its `name` holds a message, and it cannot be selected.
#[derive(Debug)]
pub struct PythonEnvironment {
    pub name: String,
    pub python_path: String,
}

/// What a [`PythonEnvironment`] stands for: its two texts.
pub struct EnvironmentModel {
    pub name: Seq<char>,
    pub python_path: Seq<char>,
}

impl View for PythonEnvironment {
    type V = EnvironmentModel;

    open spec fn view(&self) -> EnvironmentModel {
        EnvironmentModel { name: self.name@, python_path: self.python_path@ }
    }
}

impl PythonEnvironment {
    /// Whether this record only reports a failure.
    pub fn is_diagnostic(&self) -> (r: bool)
        ensures
            r == (self@.python_path.len() == 0),
    {
        self.python_path.as_str().is_empty()
    }
}

/// The models of a list of records, in order.
pub open spec fn models(envs: Seq<PythonEnvironment>) -> Seq<EnvironmentModel> {
    envs.map_values(|e: PythonEnvironment| e@)
}

/// Appending a record appends its model.
pub proof fn lemma_models_push(envs: Seq<PythonEnvironment>, e: PythonEnvironment)
    ensures
        models(envs.push(e)) == models(envs).push(e@),
{
    assert(models(envs.push(e)) =~= models(envs).push(e@));
}

/// The models of a concatenation are the concatenation of the models.
pub proof fn lemma_models_concat(a: Seq<PythonEnvironment>, b: Seq<PythonEnvironment>)
    ensures
        models(a + b) == models(a) + models(b),
{
    assert(models(a + b) =~= models(a) + models(b));
}

/// The discovery engine. It holds no state: every run starts from the
/// snapshots it is given.
#[derive(Debug)]
pub struct PythonEnvironmentSelectExtension;

} // verus!
