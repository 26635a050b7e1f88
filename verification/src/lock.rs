//! Lock snapshots and their reconciliation.
//!
//! A snapshot records which packages the vendor tree holds: remote
//! packages by import identifier, local ones by path. Reconciling an old
//! snapshot with a new one names the packages that only the old one holds;
//! their directories are the ones to delete.

use vstd::prelude::*;
use vstd::seq_lib::lemma_seq_contains_after_push;
use crate::text::{lemma_texts_push, opt_text, texts};

verus! {

/// The mathematical content of a [`LockSnapshot`].
pub struct LockView {
    /// Import identifiers of the remote entries, in order.
    pub git: Seq<Seq<char>>,
    /// Paths of the local entries, in order.
    pub local: Seq<Seq<char>>,
}

/// The resolved state of the vendor tree at one point in time.
///
/// Within a partition no identifier occurs twice: the two `add` methods
/// refuse an entry that is there already.
#[derive(Debug, PartialEq, Eq)]
pub struct LockSnapshot {
    git: Vec<String>,
    local: Vec<String>,
}

impl View for LockSnapshot {
    type V = LockView;

    closed spec fn view(&self) -> LockView {
        LockView { git: texts(self.git@), local: texts(self.local@) }
    }
}

/// The view of an optional snapshot.
pub open spec fn opt_lock(lock: Option<&LockSnapshot>) -> Option<LockView> {
    match lock {
        Some(l) => Some(l@),
        None => None,
    }
}

/// The views of a list of optional strings, in order.
pub open spec fn opt_texts(list: Seq<Option<String>>) -> Seq<Option<Seq<char>>> {
    list.map_values(|entry: Option<String>| opt_text(entry))
}

/// The identifiers that a list of entries records, in order. An entry
/// without identifier is passed over, and so is one whose identifier an
/// earlier entry has recorded.
pub open spec fn recorded(entries: Seq<Option<Seq<char>>>) -> Seq<Seq<char>>
    decreases entries.len(),
{
    if entries.len() == 0 {
        Seq::empty()
    } else {
        let before = recorded(entries.drop_last());
        match entries.last() {
            Some(id) => if before.contains(id) {
                before
            } else {
                before.push(id)
            },
            None => before,
        }
    }
}

/// The entries of `previous` that `current` does not hold, in the order of
/// `previous`.
pub open spec fn missing_from(previous: Seq<Seq<char>>, current: Seq<Seq<char>>) -> Seq<Seq<char>> {
    previous.filter(|id: Seq<char>| !current.contains(id))
}

/// The packages whose directories are to be deleted: remote entries first,
/// then local ones, each partition compared on its own.
pub open spec fn removals(previous: Option<LockView>, current: LockView) -> Seq<Seq<char>> {
    match previous {
        None => Seq::empty(),
        Some(p) => missing_from(p.git, current.git) + missing_from(p.local, current.local),
    }
}

proof fn lemma_missing_step(previous: Seq<Seq<char>>, current: Seq<Seq<char>>, i: int)
    requires
        0 <= i < previous.len(),
    ensures
        missing_from(previous.take(i + 1), current) == if current.contains(previous[i]) {
            missing_from(previous.take(i), current)
        } else {
            missing_from(previous.take(i), current).push(previous[i])
        },
{
    reveal(Seq::filter);
    assert(previous.take(i + 1).drop_last() == previous.take(i));
}

/// An entry is named for removal exactly when the previous entries hold it
/// and the current ones do not.
pub proof fn lemma_missing_membership(
    previous: Seq<Seq<char>>,
    current: Seq<Seq<char>>,
    id: Seq<char>,
)
    ensures
        missing_from(previous, current).contains(id) <==> previous.contains(id)
            && !current.contains(id),
{
    let absent = |x: Seq<char>| !current.contains(x);
    if previous.filter(absent).contains(id) {
        previous.lemma_filter_contains_rev(absent, id);
    }
}

/// Reconciling one partition is a set difference: the named entries are the
/// previous entries without the current ones.
pub proof fn lemma_missing_is_set_difference(previous: Seq<Seq<char>>, current: Seq<Seq<char>>)
    ensures
        missing_from(previous, current).to_set() == previous.to_set().difference(current.to_set()),
{
    assert forall|id: Seq<char>|
        missing_from(previous, current).to_set().contains(id) <==> previous.to_set().difference(
            current.to_set(),
        ).contains(id) by {
        lemma_missing_membership(previous, current, id);
    }
    assert(missing_from(previous, current).to_set() =~= previous.to_set().difference(
        current.to_set(),
    ));
}

/// The order of the entries does not matter: partitions that hold the same
/// entries name the same entries for removal.
pub proof fn lemma_missing_ignores_order(
    previous_a: Seq<Seq<char>>,
    current_a: Seq<Seq<char>>,
    previous_b: Seq<Seq<char>>,
    current_b: Seq<Seq<char>>,
)
    requires
        previous_a.to_set() == previous_b.to_set(),
        current_a.to_set() == current_b.to_set(),
    ensures
        missing_from(previous_a, current_a).to_set() == missing_from(previous_b, current_b).to_set(),
{
    lemma_missing_is_set_difference(previous_a, current_a);
    lemma_missing_is_set_difference(previous_b, current_b);
}

/// Where no identifier occurs twice among the previous entries, none is
/// named twice.
pub proof fn lemma_missing_no_duplicates(previous: Seq<Seq<char>>, current: Seq<Seq<char>>)
    requires
        previous.no_duplicates(),
    ensures
        missing_from(previous, current).no_duplicates(),
    decreases previous.len(),
{
    reveal(Seq::filter);
    if previous.len() > 0 {
        let head = previous.drop_last();
        lemma_missing_no_duplicates(head, current);
        lemma_missing_membership(head, current, previous.last());
    }
}

/// What a list of entries records is what its entries name: an identifier
/// is recorded exactly when some entry holds it. An entry without
/// identifier records nothing.
pub proof fn lemma_recorded_membership(entries: Seq<Option<Seq<char>>>, id: Seq<char>)
    ensures
        recorded(entries).contains(id) <==> entries.contains(Some(id)),
    decreases entries.len(),
{
    if entries.len() > 0 {
        let head = entries.drop_last();
        lemma_recorded_membership(head, id);
        assert(entries =~= head.push(entries.last()));
        lemma_seq_contains_after_push(head, entries.last(), Some(id));
        if let Some(last) = entries.last() {
            lemma_recorded_membership(head, last);
            lemma_seq_contains_after_push(recorded(head), last, id);
        }
    }
}

/// No identifier is recorded twice.
pub proof fn lemma_recorded_no_duplicates(entries: Seq<Option<Seq<char>>>)
    ensures
        recorded(entries).no_duplicates(),
    decreases entries.len(),
{
    if entries.len() > 0 {
        lemma_recorded_no_duplicates(entries.drop_last());
    }
}

/// With no previous snapshot nothing is removed, whatever the current one
/// holds.
pub proof fn lemma_first_run_removes_nothing(current: LockView)
    ensures
        removals(None, current).len() == 0,
{
}

/// A package that the current snapshot holds in the same partition is never
/// named for removal from that partition.
pub proof fn lemma_current_entries_stay(
    previous: Seq<Seq<char>>,
    current: Seq<Seq<char>>,
    id: Seq<char>,
)
    requires
        current.contains(id),
    ensures
        !missing_from(previous, current).contains(id),
{
}

/// Whether `list` holds an entry equal to `id`.
fn holds(list: &Vec<String>, id: &String) -> (found: bool)
    ensures
        found == texts(list@).contains(id@),
{
    let mut j: usize = 0;
    while j < list.len()
        invariant
            j <= list@.len(),
            forall|k: int| 0 <= k < j ==> texts(list@)[k] != id@,
        decreases list@.len() - j,
    {
        if list[j] == *id {
            assert(texts(list@)[j as int] == id@);
            return true;
        }
        j += 1;
    }
    false
}

/// Appends to `doomed` the entries of `previous` that `current` lacks.
fn push_missing(previous: &Vec<String>, current: &Vec<String>, doomed: &mut Vec<String>)
    ensures
        texts(final(doomed)@) == texts(old(doomed)@) + missing_from(
            texts(previous@),
            texts(current@),
        ),
{
    let mut i: usize = 0;
    while i < previous.len()
        invariant
            i <= previous@.len(),
            texts(doomed@) == texts(old(doomed)@) + missing_from(
                texts(previous@).take(i as int),
                texts(current@),
            ),
        decreases previous@.len() - i,
    {
        proof {
            lemma_missing_step(texts(previous@), texts(current@), i as int);
        }
        if !holds(current, &previous[i]) {
            let id = previous[i].clone();
            proof {
                lemma_texts_push(doomed@, id);
            }
            doomed.push(id);
        }
        i += 1;
    }
    assert(texts(previous@).take(i as int) == texts(previous@));
}

impl LockSnapshot {
    #[verifier::type_invariant]
    spec fn inv(&self) -> bool {
        texts(self.git@).no_duplicates() && texts(self.local@).no_duplicates()
    }

    /// A snapshot without entries.
    pub fn new() -> (lock: LockSnapshot)
        ensures
            lock@.git.len() == 0,
            lock@.local.len() == 0,
    {
        LockSnapshot { git: Vec::new(), local: Vec::new() }
    }

    /// The snapshot that two lists of entries describe: remote entries by
    /// their import identifier, local ones by their path. An entry without
    /// identifier or path (`None`) is passed over, and so is one that repeats
    /// an earlier entry of its list.
    pub fn from_entries(git: &Vec<Option<String>>, local: &Vec<Option<String>>) -> (lock:
        LockSnapshot)
        ensures
            lock@.git == recorded(opt_texts(git@)),
            lock@.local == recorded(opt_texts(local@)),
    {
        let mut lock = LockSnapshot::new();
        let mut i: usize = 0;
        while i < git.len()
            invariant
                i <= git@.len(),
                lock@.git == recorded(opt_texts(git@).take(i as int)),
                lock@.local.len() == 0,
            decreases git@.len() - i,
        {
            assert(opt_texts(git@).take(i + 1).drop_last() == opt_texts(git@).take(i as int));
            if let Some(import) = &git[i] {
                lock.add_git(import.clone());
            }
            i += 1;
        }
        assert(opt_texts(git@).take(i as int) == opt_texts(git@));
        let mut j: usize = 0;
        while j < local.len()
            invariant
                j <= local@.len(),
                lock@.git == recorded(opt_texts(git@)),
                lock@.local == recorded(opt_texts(local@).take(j as int)),
            decreases local@.len() - j,
        {
            assert(opt_texts(local@).take(j + 1).drop_last() == opt_texts(local@).take(j as int));
            if let Some(path) = &local[j] {
                lock.add_local(path.clone());
            }
            j += 1;
        }
        assert(opt_texts(local@).take(j as int) == opt_texts(local@));
        lock
    }

    /// Records a remote entry, unless one with this identifier is there.
    /// Returns whether the entry was added.
    pub fn add_git(&mut self, import: String) -> (added: bool)
        ensures
            added == !old(self)@.git.contains(import@),
            final(self)@.local == old(self)@.local,
            final(self)@.git == if added {
                old(self)@.git.push(import@)
            } else {
                old(self)@.git
            },
    {
        proof {
            use_type_invariant(&*self);
        }
        if holds(&self.git, &import) {
            return false;
        }
        // The entries are moved out and put back as a whole snapshot.
        let mut taken = LockSnapshot::new();
        core::mem::swap(self, &mut taken);
        let LockSnapshot { mut git, local } = taken;
        proof {
            lemma_texts_push(git@, import);
        }
        git.push(import);
        *self = LockSnapshot { git, local };
        true
    }

    /// Records a local entry, unless one with this path is there. Returns
    /// whether the entry was added.
    pub fn add_local(&mut self, path: String) -> (added: bool)
        ensures
            added == !old(self)@.local.contains(path@),
            final(self)@.git == old(self)@.git,
            final(self)@.local == if added {
                old(self)@.local.push(path@)
            } else {
                old(self)@.local
            },
    {
        proof {
            use_type_invariant(&*self);
        }
        if holds(&self.local, &path) {
            return false;
        }
        let mut taken = LockSnapshot::new();
        core::mem::swap(self, &mut taken);
        let LockSnapshot { git, mut local } = taken;
        proof {
            lemma_texts_push(local@, path);
        }
        local.push(path);
        *self = LockSnapshot { git, local };
        true
    }

    /// The import identifiers of the remote entries, in order. None occurs
    /// twice.
    pub fn git(&self) -> (ids: &Vec<String>)
        ensures
            texts(ids@) == self@.git,
            self@.git.no_duplicates(),
    {
        proof {
            use_type_invariant(self);
        }
        &self.git
    }

    /// The paths of the local entries, in order. None occurs twice.
    pub fn local(&self) -> (paths: &Vec<String>)
        ensures
            texts(paths@) == self@.local,
            self@.local.no_duplicates(),
    {
        proof {
            use_type_invariant(self);
        }
        &self.local
    }
}

/// Names the packages to delete when `new_lock` replaces `old_lock`.
///
/// Without an old snapshot nothing is deleted. Otherwise every remote entry
/// of the old snapshot whose identifier the new remote entries lack is
/// named, then every local entry whose path the new local entries lack.
pub fn remove_diff_packages(old_lock: Option<&LockSnapshot>, new_lock: &LockSnapshot) -> (doomed:
    Vec<String>)
    ensures
        texts(doomed@) == removals(opt_lock(old_lock), new_lock@),
        old_lock is None ==> doomed@.len() == 0,
{
    let mut doomed: Vec<String> = Vec::new();
    if let Some(previous) = old_lock {
        push_missing(&previous.git, &new_lock.git, &mut doomed);
        push_missing(&previous.local, &new_lock.local, &mut doomed);
    }
    doomed
}

} // verus!
