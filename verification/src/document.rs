//! Documents: the branches of a script and the branch where playback starts.

use crate::branch::{branch_views, Branch, BranchView};
use crate::error::ResolveError;
use crate::scan::same_text;
use vstd::prelude::*;

verus! {

/// The mathematical value of a [`Document`].
pub struct DocumentView {
    /// The branches, in source order.
    pub branches: Seq<BranchView>,
    /// The index of the branch where playback starts.
    pub entry: nat,
}

/// Whether no branch is marked as the entry.
pub open spec fn no_entry_mark(branches: Seq<BranchView>) -> bool {
    forall|j: int| 0 <= j < branches.len() ==> !(#[trigger] branches[j]).is_entry
}

/// Whether branch `i` is marked as the entry and no other branch is.
pub open spec fn sole_entry_mark(branches: Seq<BranchView>, i: int) -> bool {
    &&& 0 <= i < branches.len()
    &&& branches[i].is_entry
    &&& forall|j: int| 0 <= j < branches.len() && (#[trigger] branches[j]).is_entry ==> j == i
}

/// Whether two different branches are marked as the entry.
pub open spec fn many_entry_marks(branches: Seq<BranchView>) -> bool {
    exists|i: int, j: int|
        0 <= i < j < branches.len() && (#[trigger] branches[i]).is_entry && (
        #[trigger] branches[j]).is_entry
}

/// Whether playback of `branches` starts at branch `i`: the one branch that
/// is marked as the entry, or the first branch where none is marked.
pub open spec fn starts_at(branches: Seq<BranchView>, i: int) -> bool {
    sole_entry_mark(branches, i) || (i == 0 && branches.len() > 0 && no_entry_mark(branches))
}

/// Whether `outcome` is what resolving the entry of `branches` gives: the
/// branch where playback starts, or the reason why there is none.
pub open spec fn resolves_to(branches: Seq<BranchView>, outcome: Result<int, ResolveError>)
    -> bool {
    match outcome {
        Ok(i) => starts_at(branches, i),
        Err(ResolveError::NoBranches) => branches.len() == 0,
        Err(ResolveError::MultipleEntries) => many_entry_marks(branches),
    }
}

/// Whether branch `i` is the first branch named `name`.
pub open spec fn first_named(branches: Seq<BranchView>, name: Seq<char>, i: int) -> bool {
    &&& 0 <= i < branches.len()
    &&& branches[i].name == name
    &&& forall|j: int| 0 <= j < i ==> (#[trigger] branches[j]).name != name
}

/// Whether no branch is named `name`.
pub open spec fn none_named(branches: Seq<BranchView>, name: Seq<char>) -> bool {
    forall|j: int| 0 <= j < branches.len() ==> (#[trigger] branches[j]).name != name
}

/// Entry resolution has one outcome: two outcomes of resolving the entry of
/// the same branches are the same.
pub proof fn lemma_resolution_is_unique(
    branches: Seq<BranchView>,
    a: Result<int, ResolveError>,
    b: Result<int, ResolveError>,
)
    requires
        resolves_to(branches, a),
        resolves_to(branches, b),
    ensures
        a == b,
{
    if many_entry_marks(branches) {
        let (i, j) = choose|i: int, j: int|
            0 <= i < j < branches.len() && (#[trigger] branches[i]).is_entry && (
            #[trigger] branches[j]).is_entry;
        assert(branches[i].is_entry && branches[j].is_entry);
    }
    match (a, b) {
        (Ok(i), Ok(j)) => {
            if sole_entry_mark(branches, i) {
                assert(branches[i].is_entry);
            }
            if sole_entry_mark(branches, j) {
                assert(branches[j].is_entry);
            }
        },
        (Ok(i), Err(_)) => {
            if sole_entry_mark(branches, i) {
                assert(branches[i].is_entry);
            }
        },
        (Err(_), Ok(j)) => {
            if sole_entry_mark(branches, j) {
                assert(branches[j].is_entry);
            }
        },
        (Err(_), Err(_)) => {},
    }
}

/// Where no branch is marked, playback starts at the first branch, whatever
/// the number of branches after it.
pub proof fn lemma_unmarked_starts_first(branches: Seq<BranchView>)
    requires
        branches.len() > 0,
        no_entry_mark(branches),
    ensures
        resolves_to(branches, Ok(0)),
{
}

/// Where one branch alone is marked, playback starts there, wherever in the
/// source order it stands.
pub proof fn lemma_marked_starts_there(branches: Seq<BranchView>, i: int)
    requires
        sole_entry_mark(branches, i),
    ensures
        resolves_to(branches, Ok(i)),
{
}

/// Where two branches are marked, resolution fails, and with no other
/// outcome.
pub proof fn lemma_two_marks_fail(
    branches: Seq<BranchView>,
    i: int,
    j: int,
    outcome: Result<int, ResolveError>,
)
    requires
        0 <= i < j < branches.len(),
        branches[i].is_entry,
        branches[j].is_entry,
        resolves_to(branches, outcome),
    ensures
        outcome == Err::<int, ResolveError>(ResolveError::MultipleEntries),
{
    assert(many_entry_marks(branches));
    lemma_resolution_is_unique(branches, outcome, Err(ResolveError::MultipleEntries));
}

/// Determines the branch where playback starts: the one branch marked as the
/// entry; the first branch where none is marked. It is an error to mark more
/// than one branch, and to have no branch at all.
pub fn resolve_entry(branches: &Vec<Branch>) -> (r: Result<usize, ResolveError>)
    ensures
        match r {
            Ok(i) => resolves_to(branch_views(branches@), Ok(i as int)),
            Err(e) => resolves_to(branch_views(branches@), Err(e)),
        },
{
    let ghost views = branch_views(branches@);
    if branches.len() == 0 {
        return Err(ResolveError::NoBranches);
    }
    let mut marked: Option<usize> = None;
    let mut i: usize = 0;
    while i < branches.len()
        invariant
            i <= branches.len(),
            views == branch_views(branches@),
            match marked {
                Some(m) => m < i && views[m as int].is_entry && forall|j: int|
                    0 <= j < i && (#[trigger] views[j]).is_entry ==> j == m,
                None => forall|j: int| 0 <= j < i ==> !(#[trigger] views[j]).is_entry,
            },
        decreases branches.len() - i,
    {
        if branches[i].is_entry() {
            match marked {
                Some(m) => {
                    assert(views[m as int].is_entry && views[i as int].is_entry);
                    return Err(ResolveError::MultipleEntries);
                },
                None => {
                    marked = Some(i);
                },
            }
        }
        i += 1;
    }
    match marked {
        Some(m) => Ok(m),
        None => Ok(0),
    }
}

/// The branches of a script, in source order, and the branch where playback
/// starts.
#[derive(Debug, PartialEq)]
pub struct Document {
    branches: Vec<Branch>,
    entry: usize,
}

impl View for Document {
    type V = DocumentView;

    closed spec fn view(&self) -> DocumentView {
        DocumentView { branches: branch_views(self.branches@), entry: self.entry as nat }
    }
}

impl Document {
    #[verifier::type_invariant]
    spec fn entry_is_resolved(&self) -> bool {
        starts_at(branch_views(self.branches@), self.entry as int)
    }

    /// Builds a document from its branches and resolves its entry.
    pub fn new(branches: Vec<Branch>) -> (r: Result<Document, ResolveError>)
        ensures
            match r {
                Ok(document) => {
                    &&& document@.branches == branch_views(branches@)
                    &&& resolves_to(document@.branches, Ok(document@.entry as int))
                },
                Err(e) => resolves_to(branch_views(branches@), Err(e)),
            },
    {
        match resolve_entry(&branches) {
            Ok(entry) => Ok(Document { branches, entry }),
            Err(e) => Err(e),
        }
    }

    /// The branches, in source order.
    pub fn branches(&self) -> (branches: &Vec<Branch>)
        ensures
            branch_views(branches@) == self@.branches,
    {
        &self.branches
    }

    /// The index of the branch where playback starts.
    pub fn entry(&self) -> (entry: usize)
        ensures
            entry == self@.entry,
            starts_at(self@.branches, entry as int),
    {
        proof {
            use_type_invariant(self);
        }
        self.entry
    }

    /// The index of the first branch named `name`, or `None` where no branch
    /// has that name.
    pub fn find_branch(&self, name: &str) -> (found: Option<usize>)
        ensures
            match found {
                Some(i) => first_named(self@.branches, name@, i as int),
                None => none_named(self@.branches, name@),
            },
    {
        let ghost views = branch_views(self.branches@);
        let mut i: usize = 0;
        while i < self.branches.len()
            invariant
                i <= self.branches.len(),
                views == branch_views(self.branches@),
                forall|j: int| 0 <= j < i ==> (#[trigger] views[j]).name != name@,
            decreases self.branches.len() - i,
        {
            if same_text(self.branches[i].name().as_str(), name) {
                return Some(i);
            }
            i += 1;
        }
        None
    }
}

} // verus!
