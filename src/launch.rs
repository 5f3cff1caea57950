//! Where the worker executable is looked for, and which candidate wins.

use vstd::prelude::*;

verus! {

/// The directory a candidate location is relative to.
#[derive(Clone, Copy, Debug, PartialEq, Eq, Structural)]
pub enum Root {
    /// The shell's packaged-resource directory.
    ResourceDir,
    /// The directory that holds the shell's own executable.
    ExeDir,
}

/// A path given as a root directory and the path segments below it.
#[derive(Debug)]
pub struct Location {
    pub root: Root,
    pub segments: Vec<String>,
}

impl View for Location {
    type V = (Root, Seq<Seq<char>>);

    open spec fn view(&self) -> (Root, Seq<Seq<char>>) {
        (self.root, self.segments@.map_values(|s: String| s@))
    }
}

/// Why the worker could not be launched.
#[derive(Debug)]
pub enum LaunchError {
    /// No candidate location holds the executable; all of them are listed,
    /// in the order they were checked.
    ExecutableNotFound { checked: Vec<Location> },
    /// The operating system refused to spawn the executable.
    LaunchFailed { executable: Location, reason: String },
}

/// The file name of the worker executable.
pub open spec fn exe_name() -> Seq<char> {
    "bot.exe"@
}

/// The candidate locations, in the order they are checked: the resource
/// directory, the executable's directory, its `resources` subdirectory, the
/// updater staging directory `_up_/dist`, then for each sibling directory `d`
/// of the executable's directory `d/bot.exe` and `d/dist/bot.exe`.
pub open spec fn candidate(siblings: Seq<Seq<char>>, i: int) -> (Root, Seq<Seq<char>>) {
    if i == 0 {
        (Root::ResourceDir, seq![exe_name()])
    } else if i == 1 {
        (Root::ExeDir, seq![exe_name()])
    } else if i == 2 {
        (Root::ExeDir, seq!["resources"@, exe_name()])
    } else if i == 3 {
        (Root::ExeDir, seq!["_up_"@, "dist"@, exe_name()])
    } else if (i - 4) % 2 == 0 {
        (Root::ExeDir, seq![siblings[(i - 4) / 2], exe_name()])
    } else {
        (Root::ExeDir, seq![siblings[(i - 4) / 2], "dist"@, exe_name()])
    }
}

/// Number of candidate locations for the given sibling directories.
pub open spec fn candidate_count(n_siblings: nat) -> nat {
    4 + 2 * n_siblings
}

fn location(root: Root, parts: Vec<&str>) -> (r: Location)
    ensures
        r@.0 == root,
        r@.1 == parts@.map_values(|p: &str| p@),
{
    let mut segments: Vec<String> = Vec::new();
    let mut i: usize = 0;
    while i < parts.len()
        invariant
            i <= parts@.len(),
            segments@.len() == i,
            forall|j: int| 0 <= j < i ==> #[trigger] segments@[j]@ == parts@[j]@,
        decreases parts@.len() - i,
    {
        segments.push(String::from_str(parts[i]));
        i = i + 1;
    }
    proof {
        assert(segments@.map_values(|s: String| s@) =~= parts@.map_values(|p: &str| p@));
    }
    Location { root, segments }
}

/// The ordered list of candidate locations of the worker executable.
pub fn candidate_locations(siblings: &Vec<String>) -> (r: Vec<Location>)
    requires
        siblings@.len() < usize::MAX / 4,
    ensures
        r@.len() == candidate_count(siblings@.len()),
        forall|i: int|
            0 <= i < r@.len() ==> #[trigger] r@[i]@ == candidate(
                siblings@.map_values(|s: String| s@),
                i,
            ),
{
    let ghost sibs = siblings@.map_values(|s: String| s@);
    let mut r: Vec<Location> = Vec::new();
    r.push(location(Root::ResourceDir, vec!["bot.exe"]));
    r.push(location(Root::ExeDir, vec!["bot.exe"]));
    r.push(location(Root::ExeDir, vec!["resources", "bot.exe"]));
    r.push(location(Root::ExeDir, vec!["_up_", "dist", "bot.exe"]));
    let mut k: usize = 0;
    while k < siblings.len()
        invariant
            k <= siblings@.len(),
            siblings@.len() < usize::MAX / 4,
            sibs == siblings@.map_values(|s: String| s@),
            r@.len() == 4 + 2 * k,
            forall|i: int| 0 <= i < r@.len() ==> #[trigger] r@[i]@ == candidate(sibs, i),
        decreases siblings@.len() - k,
    {
        let d = siblings[k].as_str();
        r.push(location(Root::ExeDir, vec![d, "bot.exe"]));
        r.push(location(Root::ExeDir, vec![d, "dist", "bot.exe"]));
        k = k + 1;
    }
    r
}

/// Index of the first `true`, if any.
pub fn first_existing(exists: &Vec<bool>) -> (r: Option<usize>)
    ensures
        match r {
            Some(i) => i < exists@.len() && exists@[i as int] && forall|j: int|
                0 <= j < i ==> !#[trigger] exists@[j],
            None => forall|j: int| 0 <= j < exists@.len() ==> !#[trigger] exists@[j],
        },
{
    let mut i: usize = 0;
    while i < exists.len()
        invariant
            i <= exists@.len(),
            forall|j: int| 0 <= j < i ==> !#[trigger] exists@[j],
        decreases exists@.len() - i,
    {
        if exists[i] {
            return Some(i);
        }
        i = i + 1;
    }
    None
}

/// Picks the first candidate that exists. `exists[i]` tells whether
/// `candidates[i]` is present on disk. When none is, the error carries every
/// candidate checked, in order.
pub fn resolve_executable(candidates: Vec<Location>, exists: &Vec<bool>) -> (r: Result<
    Location,
    LaunchError,
>)
    requires
        exists@.len() == candidates@.len(),
    ensures
        match r {
            Ok(loc) => exists|i: int|
                0 <= i < candidates@.len() && #[trigger] exists@[i] && (forall|j: int|
                    0 <= j < i ==> !#[trigger] exists@[j]) && loc@ == candidates@[i]@,
            Err(LaunchError::ExecutableNotFound { checked }) => {
                &&& forall|j: int| 0 <= j < exists@.len() ==> !#[trigger] exists@[j]
                &&& checked@ == candidates@
            },
            Err(LaunchError::LaunchFailed { .. }) => false,
        },
{
    let mut candidates = candidates;
    match first_existing(exists) {
        Some(i) => {
            let ghost before = candidates@;
            let loc = candidates.remove(i);
            Ok(loc)
        },
        None => Err(LaunchError::ExecutableNotFound { checked: candidates }),
    }
}

/// The directory that holds the executable: the location without its last
/// segment. The worker is launched with it as working directory.
pub fn working_dir(exe: &Location) -> (r: Location)
    requires
        exe@.1.len() > 0,
    ensures
        r@.0 == exe@.0,
        r@.1 == exe@.1.drop_last(),
{
    let mut segments: Vec<String> = Vec::new();
    let n = exe.segments.len() - 1;
    let mut i: usize = 0;
    while i < n
        invariant
            n == exe.segments@.len() - 1,
            i <= n,
            segments@.map_values(|s: String| s@) == exe@.1.subrange(0, i as int),
        decreases n - i,
    {
        segments.push(exe.segments[i].clone());
        proof {
            assert(exe@.1.subrange(0, i + 1) == exe@.1.subrange(0, i as int).push(exe@.1[i as int]));
        }
        i = i + 1;
    }
    Location { root: exe.root, segments }
}

} // verus!
