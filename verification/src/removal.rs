//! Removing a package from the vendor tree.
//!
//! A removal deletes the directory of a package with everything below it,
//! then walks upward and deletes each ancestor that has become empty, up
//! to the vendor root. The walk ends at the first ancestor that cannot be
//! deleted. This module decides which directory is next and when the
//! removal is over; the caller deletes and reports whether that worked.

use vstd::prelude::*;
use crate::path::{get_path_from_url, vendor_path};
use crate::text::{lemma_texts_push, texts};

verus! {

/// How far a removal has come.
#[derive(Clone, Copy, PartialEq, Eq, Structural, Debug)]
pub enum Progress {
    /// The directory of the package itself is to be deleted next.
    Package,
    /// The ancestor made of this many leading segments is to be deleted
    /// next, if it is empty.
    Ancestor(usize),
    /// The removal is over; whether the package was removed.
    Finished(bool),
}

/// What the caller is to do next.
#[derive(Debug, PartialEq, Eq)]
pub enum RemovalAction {
    /// Delete this directory and everything below it.
    DeleteTree(Vec<String>),
    /// Delete this directory, which works only if it is empty.
    DeleteEmpty(Vec<String>),
    /// Nothing: the removal is over. Holds whether the package was removed.
    Done(bool),
}

/// The mathematical content of a [`Removal`].
pub struct RemovalView {
    /// The place of the package: the vendor root, then its segments.
    pub path: Seq<Seq<char>>,
    pub progress: Progress,
}

/// Whether `progress` is a state of the removal of a package whose place
/// has `len` segments.
pub open spec fn valid(len: nat, progress: Progress) -> bool {
    &&& len >= 2
    &&& progress matches Progress::Ancestor(depth) ==> 1 <= depth < len
}

/// The state that follows `progress` once the caller reports whether the
/// pending deletion worked.
///
/// A failure to delete the package ends the removal without success. After
/// the package is gone its parent is next. An ancestor that was deleted is
/// followed by its own parent, unless it was the vendor root; one that could
/// not be deleted ends the walk.
pub open spec fn after(len: nat, progress: Progress, succeeded: bool) -> Progress {
    match progress {
        Progress::Package => if succeeded {
            Progress::Ancestor((len - 1) as usize)
        } else {
            Progress::Finished(false)
        },
        Progress::Ancestor(depth) => if succeeded && depth > 1 {
            Progress::Ancestor((depth - 1) as usize)
        } else {
            Progress::Finished(true)
        },
        Progress::Finished(removed) => Progress::Finished(removed),
    }
}

/// The directory that is to be deleted in this state, if any.
pub open spec fn target(path: Seq<Seq<char>>, progress: Progress) -> Option<Seq<Seq<char>>> {
    match progress {
        Progress::Package => Some(path),
        Progress::Ancestor(depth) => Some(path.take(depth as int)),
        Progress::Finished(_) => None,
    }
}

/// The number of deletions that may still be asked for.
pub open spec fn pending(len: nat, progress: Progress) -> nat {
    match progress {
        Progress::Package => len,
        Progress::Ancestor(depth) => depth as nat,
        Progress::Finished(_) => 0,
    }
}

/// The state reached from `progress` when the deletions end as `outcomes`
/// say, one after the other.
pub open spec fn run(len: nat, progress: Progress, outcomes: Seq<bool>) -> Progress
    decreases outcomes.len(),
{
    if outcomes.len() == 0 {
        progress
    } else {
        run(len, after(len, progress, outcomes[0]), outcomes.drop_first())
    }
}

/// The removal of one package, step by step.
#[derive(Debug)]
pub struct Removal {
    path: Vec<String>,
    progress: Progress,
}

impl View for Removal {
    type V = RemovalView;

    closed spec fn view(&self) -> RemovalView {
        RemovalView { path: texts(self.path@), progress: self.progress }
    }
}

impl Removal {
    #[verifier::type_invariant]
    spec fn inv(&self) -> bool {
        valid(self.path@.len(), self.progress)
    }

    /// Starts the removal of the package with this identifier.
    pub fn begin(dir_path: &str) -> (removal: Removal)
        ensures
            removal@.path == vendor_path(dir_path@),
            removal@.progress == Progress::Package,
    {
        Removal { path: get_path_from_url(dir_path), progress: Progress::Package }
    }

    /// How far the removal has come.
    pub fn progress(&self) -> (progress: Progress)
        ensures
            progress == self@.progress,
            valid(self@.path.len(), progress),
    {
        proof {
            use_type_invariant(self);
        }
        self.progress
    }

    /// What the caller is to do next.
    pub fn action(&self) -> (action: RemovalAction)
        ensures
            self@.progress is Package ==> (action matches RemovalAction::DeleteTree(dir)
                && texts(dir@) == self@.path),
            self@.progress matches Progress::Ancestor(depth) ==> (
            action matches RemovalAction::DeleteEmpty(dir) && texts(dir@) == self@.path.take(
                depth as int,
            )),
            self@.progress matches Progress::Finished(removed) ==> action
                == RemovalAction::Done(removed),
            action matches RemovalAction::Done(_) <==> target(self@.path, self@.progress) is None,
    {
        proof {
            use_type_invariant(self);
        }
        match self.progress {
            Progress::Package => RemovalAction::DeleteTree(leading(&self.path, self.path.len())),
            Progress::Ancestor(depth) => RemovalAction::DeleteEmpty(leading(&self.path, depth)),
            Progress::Finished(removed) => RemovalAction::Done(removed),
        }
    }

    /// Takes note of whether the pending deletion worked, and moves on.
    /// Once the removal is over nothing changes any more.
    pub fn record(&mut self, succeeded: bool)
        ensures
            final(self)@.path == old(self)@.path,
            final(self)@.progress == after(
                old(self)@.path.len(),
                old(self)@.progress,
                succeeded,
            ),
    {
        proof {
            use_type_invariant(&*self);
        }
        let next = match self.progress {
            Progress::Package => if succeeded {
                Progress::Ancestor(self.path.len() - 1)
            } else {
                Progress::Finished(false)
            },
            Progress::Ancestor(depth) => if succeeded && depth > 1 {
                Progress::Ancestor(depth - 1)
            } else {
                Progress::Finished(true)
            },
            Progress::Finished(removed) => Progress::Finished(removed),
        };
        self.progress = next;
    }
}

/// The first `count` segments of `path`.
fn leading(path: &Vec<String>, count: usize) -> (head: Vec<String>)
    requires
        count <= path@.len(),
    ensures
        texts(head@) == texts(path@).take(count as int),
{
    let mut head: Vec<String> = Vec::new();
    let mut i: usize = 0;
    while i < count
        invariant
            i <= count <= path@.len(),
            texts(head@) == texts(path@).take(i as int),
        decreases count - i,
    {
        let segment = path[i].clone();
        proof {
            lemma_texts_push(head@, segment);
        }
        head.push(segment);
        i += 1;
    }
    head
}

/// A step keeps the state valid and, until the removal is over, leaves
/// fewer deletions to ask for.
pub proof fn lemma_step_makes_progress(len: nat, progress: Progress, succeeded: bool)
    requires
        valid(len, progress),
        len <= usize::MAX,
    ensures
        valid(len, after(len, progress, succeeded)),
        progress !is Finished ==> pending(len, after(len, progress, succeeded)) < pending(
            len,
            progress,
        ),
{
}

/// Where the package itself cannot be deleted, the removal ends at once and
/// without success: no ancestor is touched.
pub proof fn lemma_failed_delete_ends_removal(len: nat)
    ensures
        after(len, Progress::Package, false) == Progress::Finished(false),
{
}

/// The walk goes upward one directory at a time: after an ancestor was
/// deleted, the next directory is its parent.
pub proof fn lemma_next_is_parent(path: Seq<Seq<char>>, depth: usize)
    requires
        1 < depth < path.len(),
    ensures
        target(path, after(path.len(), Progress::Ancestor(depth), true)) == Some(
            target(path, Progress::Ancestor(depth))->0.drop_last(),
        ),
{
}

/// The walk ends at the first ancestor that cannot be deleted, and the
/// package still counts as removed.
pub proof fn lemma_walk_ends_at_first_failure(len: nat, depth: usize)
    ensures
        after(len, Progress::Ancestor(depth), false) == Progress::Finished(true),
{
}

/// The walk never leaves the vendor tree: once the vendor root itself was
/// deleted, the removal is over.
pub proof fn lemma_walk_ends_at_root(len: nat, succeeded: bool)
    ensures
        after(len, Progress::Ancestor(1), succeeded) == Progress::Finished(true),
{
}

/// Once over, a removal stays as it is.
pub proof fn lemma_finished_is_final(len: nat, removed: bool, outcomes: Seq<bool>)
    ensures
        run(len, Progress::Finished(removed), outcomes) == Progress::Finished(removed),
    decreases outcomes.len(),
{
    if outcomes.len() > 0 {
        lemma_finished_is_final(len, removed, outcomes.drop_first());
    }
}

/// A removal is over after at most as many deletions as its place has
/// segments.
pub proof fn lemma_run_is_bounded(len: nat, progress: Progress, outcomes: Seq<bool>)
    requires
        valid(len, progress),
        len <= usize::MAX,
        outcomes.len() >= pending(len, progress),
    ensures
        run(len, progress, outcomes) is Finished,
    decreases outcomes.len(),
{
    if outcomes.len() > 0 {
        lemma_run_is_bounded(len, after(len, progress, outcomes[0]), outcomes.drop_first());
    }
}

/// Whether a package counts as removed depends on the first deletion
/// alone, that of its own directory.
pub proof fn lemma_result_is_first_outcome(len: nat, outcomes: Seq<bool>)
    requires
        2 <= len <= usize::MAX,
        outcomes.len() >= len,
    ensures
        run(len, Progress::Package, outcomes) == Progress::Finished(outcomes[0]),
{
    let rest = outcomes.drop_first();
    if outcomes[0] {
        lemma_walk_result(len, (len - 1) as usize, rest);
    } else {
        lemma_finished_is_final(len, false, rest);
    }
}

proof fn lemma_walk_result(len: nat, depth: usize, outcomes: Seq<bool>)
    requires
        1 <= depth < len,
        outcomes.len() >= depth,
    ensures
        run(len, Progress::Ancestor(depth), outcomes) == Progress::Finished(true),
    decreases outcomes.len(),
{
    let rest = outcomes.drop_first();
    if outcomes[0] && depth > 1 {
        lemma_walk_result(len, (depth - 1) as usize, rest);
    } else {
        lemma_finished_is_final(len, true, rest);
    }
}

} // verus!
