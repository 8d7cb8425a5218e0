//! The directory walker: the decision taken at each visited entry, and
//! the walk over a pre-order listing that follows those decisions.

use vstd::prelude::*;
use crate::classifier::{
    eligible_name, excluded_path, hidden_name, is_excluded_path, is_hidden, name_matches,
    Criteria, Matcher,
};

verus! {

/// One found entry.
#[derive(Debug, Clone, PartialEq, Eq)]
pub struct FileSearchResult {
    /// Full path of the entry.
    pub path: String,
    /// Final component of the path.
    pub name: String,
    /// Length in bytes; zero for a directory.
    pub size: u64,
    /// The root directory under which the entry was found.
    pub disk: String,
}

/// The mathematical content of a `FileSearchResult`.
pub ghost struct MatchModel {
    pub path: Seq<char>,
    pub name: Seq<char>,
    pub size: u64,
    pub disk: Seq<char>,
}

impl View for FileSearchResult {
    type V = MatchModel;

    open spec fn view(&self) -> MatchModel {
        MatchModel { path: self.path@, name: self.name@, size: self.size, disk: self.disk@ }
    }
}

/// The models of a sequence of results, in order.
pub open spec fn models(results: Seq<FileSearchResult>) -> Seq<MatchModel> {
    results.map_values(|m: FileSearchResult| m@)
}

/// What a traversal reports of one entry.
#[derive(Debug, Clone, PartialEq, Eq)]
pub struct Entry {
    /// Full path of the entry.
    pub path: String,
    /// Final component of the path; `None` when it is not valid Unicode.
    pub name: Option<String>,
    /// Whether the entry is a directory.
    pub is_dir: bool,
    /// Distance from the root of the traversal; the root itself has depth 0.
    pub depth: usize,
    /// Length in bytes; `None` when the metadata could not be read.
    pub size: Option<u64>,
}

/// The walker's decision on a visited entry.
#[derive(Debug, Clone, PartialEq, Eq)]
pub enum Step {
    /// Do not report the entry and do not descend into it.
    Prune,
    /// Do not report the entry; descend into it if it is a directory.
    Skip,
    /// Report the entry; descend into it if it is a directory.
    Emit(FileSearchResult),
}

/// The entry has a readable name that is hidden.
pub open spec fn hidden_entry(e: Entry) -> bool {
    e.name is Some && hidden_name(e.name->0@)
}

/// The entry is cut from the walk: hidden, or under an excluded tree.
pub open spec fn pruned(e: Entry, denylist: Seq<String>) -> bool {
    hidden_entry(e) || excluded_path(e.path@, denylist)
}

/// What is reported of an entry that the walk examines: nothing when its
/// name or metadata is unreadable or it does not match, else its record.
pub open spec fn found(e: Entry, root: Seq<char>, criteria: Criteria) -> Option<MatchModel> {
    if e.size is Some && e.name is Some && name_matches(e.name->0@, e.is_dir, criteria) {
        Some(
            MatchModel {
                path: e.path@,
                name: e.name->0@,
                size: if e.is_dir {
                    0
                } else {
                    e.size->0
                },
                disk: root,
            },
        )
    } else {
        None
    }
}

/// Every entry strictly between positions `j` and `i` is deeper than
/// entry `j`: in a pre-order listing, they all lie below entry `j`.
pub open spec fn deeper_run(listing: Seq<Entry>, j: int, i: int) -> bool {
    forall|k: int| j < k < i ==> (#[trigger] listing[k]).depth > listing[j].depth
}

/// Entry `i` lies below an earlier entry that is pruned.
pub open spec fn shadowed(listing: Seq<Entry>, denylist: Seq<String>, i: int) -> bool {
    exists|j: int|
        0 <= j < i && pruned(listing[j], denylist) && #[trigger] deeper_run(listing, j, i + 1)
}

/// Entry `i` is examined by the walk: neither pruned itself nor below a
/// pruned entry.
pub open spec fn visited(listing: Seq<Entry>, denylist: Seq<String>, i: int) -> bool {
    !shadowed(listing, denylist, i) && !pruned(listing[i], denylist)
}

/// Entry `i` is reported by the walk.
pub open spec fn contributes(
    listing: Seq<Entry>,
    denylist: Seq<String>,
    root: Seq<char>,
    criteria: Criteria,
    i: int,
) -> bool {
    visited(listing, denylist, i) && found(listing[i], root, criteria) is Some
}

/// The records of the reported entries among the first `n`, in listing order.
pub open spec fn emitted(
    listing: Seq<Entry>,
    denylist: Seq<String>,
    root: Seq<char>,
    criteria: Criteria,
    n: nat,
) -> Seq<MatchModel>
    decreases n,
{
    if n == 0 {
        Seq::empty()
    } else {
        let before = emitted(listing, denylist, root, criteria, (n - 1) as nat);
        if contributes(listing, denylist, root, criteria, n - 1) {
            before.push(found(listing[n - 1], root, criteria)->0)
        } else {
            before
        }
    }
}

/// Extending a run by one position.
pub proof fn lemma_deeper_run_step(listing: Seq<Entry>, j: int, i: int)
    requires
        0 <= j <= i < listing.len(),
    ensures
        deeper_run(listing, j, i + 1) == (deeper_run(listing, j, i) && (j < i ==> listing[i].depth
            > listing[j].depth)),
{
    if deeper_run(listing, j, i) && (j < i ==> listing[i].depth > listing[j].depth) {
        assert forall|k: int| j < k < i + 1 implies (#[trigger] listing[k]).depth
            > listing[j].depth by {
            if k < i {
            }
        }
    }
    if deeper_run(listing, j, i + 1) {
        assert forall|k: int| j < k < i implies (#[trigger] listing[k]).depth
            > listing[j].depth by {}
        if j < i {
            assert(listing[i].depth > listing[j].depth);
        }
    }
}

/// The entry can be reported as far as its kind, extension and
/// readability go: only the query is left to decide.
pub open spec fn eligible_entry(e: Entry, criteria: Criteria) -> bool {
    e.size is Some && e.name is Some && eligible_name(e.name->0@, e.is_dir, criteria)
}

/// Entry `i` is reported, and `m` is its record.
pub open spec fn reported_as(
    listing: Seq<Entry>,
    denylist: Seq<String>,
    root: Seq<char>,
    criteria: Criteria,
    i: int,
    m: MatchModel,
) -> bool {
    contributes(listing, denylist, root, criteria, i) && found(listing[i], root, criteria)->0 == m
}

/// No entry below a pruned entry is examined, let alone reported,
/// whatever its own name and whatever the query; nor is the pruned
/// entry itself.
pub proof fn lemma_pruned_subtree_silent(
    listing: Seq<Entry>,
    denylist: Seq<String>,
    root: Seq<char>,
    criteria: Criteria,
    j: int,
    i: int,
)
    requires
        0 <= j <= i < listing.len(),
        pruned(listing[j], denylist),
        deeper_run(listing, j, i + 1),
    ensures
        !visited(listing, denylist, i),
        !contributes(listing, denylist, root, criteria, i),
{
}

/// No entry below a hidden directory is ever examined.
pub proof fn lemma_hidden_subtree_silent(
    listing: Seq<Entry>,
    denylist: Seq<String>,
    root: Seq<char>,
    criteria: Criteria,
    j: int,
    i: int,
)
    requires
        0 <= j <= i < listing.len(),
        hidden_entry(listing[j]),
        deeper_run(listing, j, i + 1),
    ensures
        !visited(listing, denylist, i),
        !contributes(listing, denylist, root, criteria, i),
{
}

/// No entry at or below an excluded path is ever examined.
pub proof fn lemma_excluded_subtree_silent(
    listing: Seq<Entry>,
    denylist: Seq<String>,
    root: Seq<char>,
    criteria: Criteria,
    j: int,
    i: int,
)
    requires
        0 <= j <= i < listing.len(),
        excluded_path(listing[j].path@, denylist),
        deeper_run(listing, j, i + 1),
    ensures
        !visited(listing, denylist, i),
        !contributes(listing, denylist, root, criteria, i),
{
}

/// A record is among those of the first `n` entries exactly when one of
/// those entries is reported with that record: nothing is invented and
/// nothing is lost.
pub proof fn lemma_emitted_members(
    listing: Seq<Entry>,
    denylist: Seq<String>,
    root: Seq<char>,
    criteria: Criteria,
    n: nat,
    m: MatchModel,
)
    requires
        n <= listing.len(),
    ensures
        emitted(listing, denylist, root, criteria, n).contains(m) <==> exists|i: int|
            0 <= i < n && #[trigger] reported_as(listing, denylist, root, criteria, i, m),
    decreases n,
{
    if n > 0 {
        let before = emitted(listing, denylist, root, criteria, (n - 1) as nat);
        let all = emitted(listing, denylist, root, criteria, n);
        lemma_emitted_members(listing, denylist, root, criteria, (n - 1) as nat, m);
        let last = found(listing[n - 1], root, criteria)->0;
        if contributes(listing, denylist, root, criteria, n - 1) {
            assert(all == before.push(last));
            if all.contains(m) {
                let k = choose|k: int| 0 <= k < all.len() && all[k] == m;
                if k < before.len() {
                    assert(before[k] == m);
                    assert(before.contains(m));
                } else {
                    assert(reported_as(listing, denylist, root, criteria, n - 1, m));
                }
            }
            if exists|i: int|
                0 <= i < n && #[trigger] reported_as(listing, denylist, root, criteria, i, m) {
                let i = choose|i: int|
                    0 <= i < n && #[trigger] reported_as(listing, denylist, root, criteria, i, m);
                if i < n - 1 {
                    assert(before.contains(m));
                    let k = choose|k: int| 0 <= k < before.len() && before[k] == m;
                    assert(all[k] == m);
                } else {
                    assert(all[before.len() as int] == m);
                }
            }
        } else {
            assert(all == before);
            if exists|i: int|
                0 <= i < n && #[trigger] reported_as(listing, denylist, root, criteria, i, m) {
                let i = choose|i: int|
                    0 <= i < n && #[trigger] reported_as(listing, denylist, root, criteria, i, m);
                assert(i < n - 1);
            }
        }
    }
}

/// True exactly when the entry is hidden or under one of the roots of
/// `denylist`. An entry whose name is unreadable is not hidden.
pub fn is_pruned(e: &Entry, denylist: &Vec<String>) -> (r: bool)
    ensures
        r == pruned(*e, denylist@),
{
    let hidden = match &e.name {
        Some(name) => is_hidden(name.as_str()),
        None => false,
    };
    hidden || is_excluded_path(e.path.as_str(), denylist)
}

/// Walking the same listing with the same criteria again gives the same
/// records in the same order: any two results that meet the contract of
/// `Walker::walk` have equal models.
pub proof fn lemma_walk_repeatable(
    listing: Seq<Entry>,
    denylist: Seq<String>,
    root: Seq<char>,
    criteria: Criteria,
    first: Seq<FileSearchResult>,
    second: Seq<FileSearchResult>,
)
    requires
        models(first) == emitted(listing, denylist, root, criteria, listing.len()),
        models(second) == emitted(listing, denylist, root, criteria, listing.len()),
    ensures
        models(first) == models(second),
        first.len() == second.len(),
        forall|m: MatchModel| models(first).contains(m) == models(second).contains(m),
{
    assert(models(first).len() == first.len());
    assert(models(second).len() == second.len());
}

/// One traversal: the root it started from, the prepared criteria and
/// the excluded trees.
pub struct Walker {
    pub root: String,
    pub matcher: Matcher,
    pub denylist: Vec<String>,
}

impl Walker {
    /// A walker for the tree at `root`.
    pub fn new(root: String, criteria: Criteria, denylist: Vec<String>) -> (w: Walker)
        ensures
            w.root == root,
            w.matcher.criteria() == criteria,
            w.denylist == denylist,
    {
        Walker { root, matcher: Matcher::new(criteria), denylist }
    }

    /// True exactly when the entry is hidden or under an excluded tree.
    pub fn prunes(&self, e: &Entry) -> (r: bool)
        ensures
            r == pruned(*e, self.denylist@),
    {
        is_pruned(e, &self.denylist)
    }

    /// The record of an examined entry, if it is to be reported.
    pub fn classify(&self, e: &Entry) -> (r: Option<FileSearchResult>)
        ensures
            r is Some == found(*e, self.root@, self.matcher.criteria()) is Some,
            r is Some ==> r->0@ == found(*e, self.root@, self.matcher.criteria())->0,
            self.matcher.criteria().query@.len() == 0 ==> r is Some == eligible_entry(
                *e,
                self.matcher.criteria(),
            ),
    {
        let len: u64 = match e.size {
            Some(len) => len,
            None => {
                return None;
            },
        };
        match &e.name {
            Some(name) => {
                if self.matcher.matches(name.as_str(), e.is_dir) {
                    Some(
                        FileSearchResult {
                            path: e.path.clone(),
                            name: name.clone(),
                            size: if e.is_dir {
                                0
                            } else {
                                len
                            },
                            disk: self.root.clone(),
                        },
                    )
                } else {
                    None
                }
            },
            None => None,
        }
    }

    /// The decision on one entry that the traversal reached.
    pub fn visit(&self, e: &Entry) -> (step: Step)
        ensures
            pruned(*e, self.denylist@) ==> step is Prune,
            !pruned(*e, self.denylist@) && found(*e, self.root@, self.matcher.criteria()) is None
                ==> step is Skip,
            !pruned(*e, self.denylist@) && found(*e, self.root@, self.matcher.criteria()) is Some
                ==> step is Emit && step->Emit_0@ == found(
                *e,
                self.root@,
                self.matcher.criteria(),
            )->0,
            self.matcher.criteria().query@.len() == 0 && !pruned(*e, self.denylist@)
                && eligible_entry(*e, self.matcher.criteria()) ==> step is Emit,
    {
        if self.prunes(e) {
            Step::Prune
        } else {
            match self.classify(e) {
                Some(m) => Step::Emit(m),
                None => Step::Skip,
            }
        }
    }

    /// Walks a pre-order listing: every entry that is neither pruned nor
    /// below a pruned entry is examined, and the records of those that
    /// match are returned in listing order. With an empty query the
    /// record of every examined, eligible entry is among them.
    pub fn walk(&self, listing: &Vec<Entry>) -> (out: Vec<FileSearchResult>)
        ensures
            models(out@) == emitted(
                listing@,
                self.denylist@,
                self.root@,
                self.matcher.criteria(),
                listing@.len(),
            ),
            self.matcher.criteria().query@.len() == 0 ==> forall|k: int|
                0 <= k < listing@.len() && visited(listing@, self.denylist@, k) && eligible_entry(
                    #[trigger] listing@[k],
                    self.matcher.criteria(),
                ) ==> models(out@).contains(
                    found(listing@[k], self.root@, self.matcher.criteria())->0,
                ),
    {
        let ghost l = listing@;
        let ghost deny = self.denylist@;
        let mut out: Vec<FileSearchResult> = Vec::new();
        let mut skip: Option<usize> = None;
        let mut i: usize = 0;
        assert(models(out@) =~= Seq::<MatchModel>::empty());
        while i < listing.len()
            invariant
                i <= listing.len(),
                l == listing@,
                deny == self.denylist@,
                models(out@) == emitted(l, deny, self.root@, self.matcher.criteria(), i as nat),
                skip is Some ==> exists|j: int|
                    0 <= j < i && pruned(l[j], deny) && l[j].depth == skip->0
                        && #[trigger] deeper_run(l, j, i as int),
                skip is Some ==> forall|j: int|
                    0 <= j < i && pruned(l[j], deny) && #[trigger] deeper_run(l, j, i as int)
                        ==> l[j].depth >= skip->0,
                skip is None ==> forall|j: int|
                    0 <= j < i && pruned(l[j], deny) ==> !#[trigger] deeper_run(l, j, i as int),
                self.matcher.criteria().query@.len() == 0 ==> forall|k: int|
                    0 <= k < i && visited(l, deny, k) && eligible_entry(
                        l[k],
                        self.matcher.criteria(),
                    ) ==> #[trigger] contributes(
                        l,
                        deny,
                        self.root@,
                        self.matcher.criteria(),
                        k,
                    ),
            decreases listing.len() - i,
        {
            let e = &listing[i];
            let below = match skip {
                Some(d) => e.depth > d,
                None => false,
            };
            proof {
                assert forall|j: int| 0 <= j <= i implies #[trigger] deeper_run(l, j, i + 1) == (
                deeper_run(l, j, i as int) && (j < i ==> l[i as int].depth > l[j].depth)) by {
                    lemma_deeper_run_step(l, j, i as int);
                }
                if below {
                    let j = choose|j: int|
                        0 <= j < i && pruned(l[j], deny) && l[j].depth == skip->0
                            && #[trigger] deeper_run(l, j, i as int);
                    assert(deeper_run(l, j, i + 1));
                } else {
                    assert forall|j: int| 0 <= j < i && pruned(l[j], deny) implies !#[trigger] deeper_run(
                        l,
                        j,
                        i + 1,
                    ) by {
                        if deeper_run(l, j, i + 1) {
                            assert(deeper_run(l, j, i as int));
                        }
                    }
                }
                assert(below == shadowed(l, deny, i as int));
            }
            if !below {
                let ghost before = out@;
                match self.visit(e) {
                    Step::Prune => {
                        skip = Some(e.depth);
                        proof {
                            assert(deeper_run(l, i as int, i + 1));
                            assert forall|j: int|
                                0 <= j < i + 1 && pruned(l[j], deny) && #[trigger] deeper_run(
                                    l,
                                    j,
                                    i + 1,
                                ) implies l[j].depth >= skip->0 by {}
                        }
                    },
                    Step::Skip => {
                        skip = None;
                    },
                    Step::Emit(m) => {
                        skip = None;
                        out.push(m);
                        assert(models(out@) =~= models(before).push(m@));
                    },
                }
            } else {
                proof {
                    let j = choose|j: int|
                        0 <= j < i && pruned(l[j], deny) && l[j].depth == skip->0
                            && #[trigger] deeper_run(l, j, i as int);
                    assert(deeper_run(l, j, i + 1));
                    assert forall|j: int|
                        0 <= j < i + 1 && pruned(l[j], deny) && #[trigger] deeper_run(
                            l,
                            j,
                            i + 1,
                        ) implies l[j].depth >= skip->0 by {
                        if j < i {
                            assert(deeper_run(l, j, i as int));
                        }
                    }
                }
            }
            i += 1;
        }
        proof {
            let c = self.matcher.criteria();
            if c.query@.len() == 0 {
                assert forall|k: int|
                    0 <= k < l.len() && visited(l, deny, k) && eligible_entry(
                        #[trigger] l[k],
                        c,
                    ) implies models(out@).contains(found(l[k], self.root@, c)->0) by {
                    let m = found(l[k], self.root@, c)->0;
                    assert(contributes(l, deny, self.root@, c, k));
                    assert(reported_as(l, deny, self.root@, c, k, m));
                    lemma_emitted_members(l, deny, self.root@, c, l.len(), m);
                }
            }
        }
        out
    }
}

} // verus!
