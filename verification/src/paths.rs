//! Paths as text, and a snapshot of which files exist.
//!
//! A path is a string whose components are separated by `/`. The library never
//! touches a file system: a caller records the files it found in a
//! [`FileSet`], and every rule reads that record.

use vstd::prelude::*;
use vstd::string::*;

verus! {

/// `component` adjoined to `base`: a separator is put between the two unless
/// `base` is empty or already ends with one. `component` is a relative path.
pub open spec fn joined(base: Seq<char>, component: Seq<char>) -> Seq<char> {
    if base.len() == 0 {
        component
    } else if base.last() == '/' {
        base + component
    } else {
        base + seq!['/'] + component
    }
}

/// Where the activation script of the environment rooted at `dir` would be.
pub open spec fn activate_script_of(dir: Seq<char>) -> Seq<char> {
    joined(joined(dir, "bin"@), "activate"@)
}

/// Where the configuration file of the environment rooted at `dir` would be.
pub open spec fn config_file_of(dir: Seq<char>) -> Seq<char> {
    joined(dir, "pyvenv.cfg"@)
}

/// Where the interpreter of the environment rooted at `dir` would be.
pub open spec fn interpreter_of(dir: Seq<char>) -> Seq<char> {
    joined(joined(dir, "bin"@), "python"@)
}

/// Adjoins `component` to `base`.
pub fn join(base: &str, component: &str) -> (r: String)
    ensures
        r@ == joined(base@, component@),
{
    let n: usize = base.unicode_len();
    if n == 0 {
        assert(Seq::<char>::empty() + component@ =~= component@);
        String::new().concat(component)
    } else if base.get_char(n - 1) == '/' {
        String::from_str(base).concat(component)
    } else {
        proof {
            reveal_strlit("/");
            assert("/"@ =~= seq!['/']);
        }
        String::from_str(base).concat("/").concat(component)
    }
}

/// The path of the activation script under `dir`.
pub fn activate_script_path(dir: &str) -> (r: String)
    ensures
        r@ == activate_script_of(dir@),
{
    let bin = join(dir, "bin");
    join(bin.as_str(), "activate")
}

/// The path of the configuration file under `dir`.
pub fn config_file_path(dir: &str) -> (r: String)
    ensures
        r@ == config_file_of(dir@),
{
    join(dir, "pyvenv.cfg")
}

/// The path of the interpreter under `dir`.
pub fn interpreter_path(dir: &str) -> (r: String)
    ensures
        r@ == interpreter_of(dir@),
{
    let bin = join(dir, "bin");
    join(bin.as_str(), "python")
}

/// The paths that a caller found to exist. A path that is not recorded counts
/// as absent.
#[derive(Debug)]
pub struct FileSet {
    pub paths: Vec<String>,
}

impl View for FileSet {
    type V = Set<Seq<char>>;

    /// The set of recorded paths.
    open spec fn view(&self) -> Set<Seq<char>> {
        Set::new(
            |p: Seq<char>| exists|i: int| 0 <= i < self.paths@.len() && (#[trigger] self.paths@[i])@ == p,
        )
    }
}

impl FileSet {
    /// A record of no file at all.
    pub fn new() -> (r: Self)
        ensures
            r@ == Set::<Seq<char>>::empty(),
    {
        let r = FileSet { paths: Vec::new() };
        assert(r@ =~= Set::<Seq<char>>::empty());
        r
    }

    /// Records that `path` exists.
    pub fn insert(&mut self, path: String)
        ensures
            final(self)@ == old(self)@.insert(path@),
    {
        let ghost before = self.paths@;
        self.paths.push(path);
        proof {
            assert forall|p: Seq<char>| final(self)@.contains(p) == old(self)@.insert(path@).contains(p) by {
                if old(self)@.contains(p) {
                    let i = choose|i: int| 0 <= i < before.len() && (#[trigger] before[i])@ == p;
                    assert(self.paths@[i]@ == p);
                }
                if p == path@ {
                    assert(self.paths@[before.len() as int]@ == p);
                }
            }
            assert(final(self)@ =~= old(self)@.insert(path@));
        }
    }

    /// Whether `path` was recorded.
    pub fn contains(&self, path: &String) -> (r: bool)
        ensures
            r == self@.contains(path@),
    {
        let mut i: usize = 0;
        while i < self.paths.len()
            invariant
                i <= self.paths@.len(),
                forall|j: int| 0 <= j < i ==> (#[trigger] self.paths@[j])@ != path@,
            decreases self.paths@.len() - i,
        {
            if self.paths[i] == *path {
                return true;
            }
            i += 1;
        }
        false
    }
}

} // verus!
