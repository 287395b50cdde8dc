//! Sets of paths: which files a document has already pulled in.

use rustc_hash::FxBuildHasher;
use std::collections::HashSet;
use vstd::prelude::*;

verus! {

/// The hasher of `rustc_hash`, by which the sets of paths are built.
#[verifier::external_type_specification]
#[verifier::external_body]
pub struct ExFxBuildHasher(FxBuildHasher);

/// The paths that a set of `rustc_hash` holds.
pub uninterp spec fn paths_of(set: HashSet<String, FxBuildHasher>) -> Set<Seq<char>>;

/// `FxHashSet::default` of `rustc_hash`, which is `HashSet::default` of the
/// standard library with the hasher of `rustc_hash`: the set is claimed to
/// hold nothing.
#[verifier::external_body]
fn fx_default() -> (set: HashSet<String, FxBuildHasher>)
    ensures
        paths_of(set) == Set::<Seq<char>>::empty(),
{
    HashSet::default()
}

/// `HashSet::contains` on a set of `rustc_hash`: the result is claimed to
/// say whether the set holds a path of the characters of `path`.
#[verifier::external_body]
fn fx_contains(set: &HashSet<String, FxBuildHasher>, path: &str) -> (found: bool)
    ensures
        found == paths_of(*set).contains(path@),
{
    set.contains(path)
}

/// `HashSet::insert` on a set of `rustc_hash`: the set is claimed to hold
/// afterwards what it held and `path`.
#[verifier::external_body]
fn fx_insert(set: &mut HashSet<String, FxBuildHasher>, path: String)
    ensures
        paths_of(*final(set)) == paths_of(*old(set)).insert(path@),
{
    set.insert(path);
}

/// A set of paths. A path is in it once, however often it is added.
#[derive(Debug)]
pub struct PathSet {
    set: HashSet<String, FxBuildHasher>,
}

impl View for PathSet {
    type V = Set<Seq<char>>;

    closed spec fn view(&self) -> Set<Seq<char>> {
        paths_of(self.set)
    }
}

impl Default for PathSet {
    fn default() -> (set: Self)
        ensures
            set@ == Set::<Seq<char>>::empty(),
    {
        PathSet::new()
    }
}

impl PathSet {
    /// The set without paths.
    pub fn new() -> (set: Self)
        ensures
            set@ == Set::<Seq<char>>::empty(),
    {
        PathSet { set: fx_default() }
    }

    /// Whether `path` is in the set.
    pub fn contains(&self, path: &str) -> (found: bool)
        ensures
            found == self@.contains(path@),
    {
        fx_contains(&self.set, path)
    }

    /// Adds `path` to the set.
    pub fn insert(&mut self, path: String)
        ensures
            final(self)@ == old(self)@.insert(path@),
    {
        fx_insert(&mut self.set, path);
    }

    /// Adds `path` to the set unless it is there, and says whether it was
    /// added.
    pub fn check_and_insert(&mut self, path: &str) -> (added: bool)
        ensures
            added == !old(self)@.contains(path@),
            final(self)@ == old(self)@.insert(path@),
    {
        if self.contains(path) {
            proof {
                assert(self@.insert(path@) =~= self@);
            }
            false
        } else {
            self.insert(path.to_owned());
            true
        }
    }
}

/// The sets of paths of a list, one by one.
pub open spec fn path_sets(sets: Seq<PathSet>) -> Seq<Set<Seq<char>>> {
    Seq::new(sets.len(), |i: int| sets[i]@)
}

} // verus!
