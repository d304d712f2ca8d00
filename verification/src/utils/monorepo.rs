//! Finding the monorepo among the working directory and its ancestors.

use vstd::prelude::*;

verus! {

/// What stands in a directory that could be the monorepo's root.
#[derive(Debug, Clone, Copy, PartialEq, Eq, Structural)]
pub struct RootMarkers {
    /// A directory `apps`.
    pub has_apps: bool,
    /// A directory `shared`.
    pub has_shared: bool,
    /// A directory `tools`.
    pub has_tools: bool,
    /// A file `README.md`.
    pub has_readme: bool,
    /// The repository's own metadata, such as `.git`.
    pub has_repo_marker: bool,
    /// The example application under `apps`.
    pub has_example: bool,
}

/// A directory examined on the way up, nearest first.
#[derive(Debug)]
pub struct Candidate {
    pub path: String,
    pub markers: RootMarkers,
}

impl RootMarkers {
    /// The root has `apps`, one of `shared` and `tools`, and one thing more that
    /// tells it from a directory that merely looks alike.
    pub open spec fn marks_root(self) -> bool {
        self.has_apps && (self.has_shared || self.has_tools) && (self.has_repo_marker
            || self.has_readme || self.has_example)
    }
}

/// Whether a directory with these markers is the monorepo's root.
pub fn is_monorepo_root(markers: &RootMarkers) -> (b: bool)
    ensures
        b == markers.marks_root(),
{
    markers.has_apps && (markers.has_shared || markers.has_tools) && (markers.has_repo_marker
        || markers.has_readme || markers.has_example)
}

/// The index of the first candidate that is a root, or the number of candidates.
pub open spec fn first_root(candidates: Seq<Candidate>) -> int
    decreases candidates.len(),
{
    if candidates.len() == 0 {
        0
    } else if candidates[0].markers.marks_root() {
        0
    } else {
        1 + first_root(candidates.drop_first())
    }
}

/// `first_root` is where the first root is: no candidate before it is one.
pub proof fn lemma_first_root(candidates: Seq<Candidate>)
    ensures
        0 <= first_root(candidates) <= candidates.len(),
        first_root(candidates) < candidates.len() ==> candidates[first_root(
            candidates,
        )].markers.marks_root(),
        forall|i: int|
            0 <= i < first_root(candidates) ==> !(#[trigger] candidates[i]).markers.marks_root(),
    decreases candidates.len(),
{
    if candidates.len() > 0 && !candidates[0].markers.marks_root() {
        let rest = candidates.drop_first();
        lemma_first_root(rest);
        assert forall|i: int| 0 <= i < first_root(candidates) implies !(
        #[trigger] candidates[i]).markers.marks_root() by {
            if i > 0 {
                assert(candidates[i] == rest[i - 1]);
            }
        }
    }
}

fn nearest_root(found: &Vec<Candidate>) -> (r: Option<usize>)
    ensures
        match r {
            Some(i) => i == first_root(found@) && i < found@.len(),
            None => first_root(found@) == found@.len(),
        },
{
    proof {
        lemma_first_root(found@);
    }
    let ghost first = first_root(found@);
    let mut i: usize = 0;
    while i < found.len()
        invariant
            i <= found@.len(),
            first == first_root(found@),
            forall|k: int| 0 <= k < i ==> !(#[trigger] found@[k]).markers.marks_root(),
            0 <= first <= found@.len(),
            first < found@.len() ==> found@[first].markers.marks_root(),
            forall|k: int| 0 <= k < first ==> !(#[trigger] found@[k]).markers.marks_root(),
        decreases found@.len() - i,
    {
        if is_monorepo_root(&found[i].markers) {
            proof {
                if first < i {
                    assert(!found@[first].markers.marks_root());
                }
                if first > i {
                    assert(!found@[i as int].markers.marks_root());
                }
            }
            return Some(i);
        }
        i += 1;
    }
    proof {
        if first < found@.len() {
            assert(!found@[first].markers.marks_root());
        }
    }
    None
}

/// Discovers the monorepo among `candidates`: the working directory and its
/// ancestors, nearest first, or the text of the error that asking for the
/// working directory gave. The nearest candidate that is a root is the answer.
pub fn find_monorepo_root(candidates: &Result<Vec<Candidate>, String>) -> (r: Result<String, String>)
    ensures
        match *candidates {
            Err(e) => r is Err && r->Err_0@ == e@,
            Ok(found) => match r {
                Ok(path) => first_root(found@) < found@.len() && path@ == found@[first_root(
                    found@,
                )].path@,
                Err(e) => first_root(found@) == found@.len() && e@
                    == "Could not find rgbw-lighting monorepo root. Ensure the dashboard is run from within the repository."@,
            },
        },
{
    match candidates {
        Err(e) => Err(e.clone()),
        Ok(found) => match nearest_root(found) {
            Some(i) => Ok(found[i].path.clone()),
            None => Err(
                String::from_str(
                    "Could not find rgbw-lighting monorepo root. Ensure the dashboard is run from within the repository.",
                ),
            ),
        },
    }
}

} // verus!
