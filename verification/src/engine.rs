//! The facade: which roots a search covers, and the concatenation of the
//! per-root results in root order.

use vstd::prelude::*;
use crate::classifier::Criteria;
use crate::volumes::texts;
use crate::walker::{models, FileSearchResult, MatchModel};

verus! {

/// The criteria of a search from the four values a caller supplies.
pub fn criteria_of(
    search_query: String,
    extension: String,
    disk: String,
    search_folders: bool,
) -> (c: Criteria)
    ensures
        c.query == search_query,
        c.extension == extension,
        c.volume == disk,
        c.include_directories == search_folders,
{
    Criteria { query: search_query, extension, include_directories: search_folders, volume: disk }
}

/// The roots a search covers: the named volume alone, or, when none is
/// named, every mounted volume in enumeration order.
pub open spec fn roots_for(volume: Seq<char>, mounted: Seq<Seq<char>>) -> Seq<Seq<char>> {
    if volume.len() == 0 {
        mounted
    } else {
        seq![volume]
    }
}

/// The roots to search for `volume`, given the mount points of the
/// mounted volumes.
pub fn search_roots(volume: &str, mounted: Vec<String>) -> (roots: Vec<String>)
    ensures
        texts(roots@) == roots_for(volume@, texts(mounted@)),
{
    if volume.is_empty() {
        mounted
    } else {
        let mut roots: Vec<String> = Vec::new();
        roots.push(volume.to_owned());
        assert(texts(roots@) =~= seq![volume@]);
        roots
    }
}

/// A search in progress: the roots to cover, how many of them have been
/// searched, and the results so far.
pub struct Search {
    roots: Vec<String>,
    next: usize,
    results: Vec<FileSearchResult>,
}

impl Search {
    /// The roots this search covers, in order.
    pub closed spec fn roots(&self) -> Seq<Seq<char>> {
        texts(self.roots@)
    }

    /// How many roots have been searched.
    pub closed spec fn searched(&self) -> nat {
        self.next as nat
    }

    /// The results of the roots searched so far, concatenated in root order.
    pub closed spec fn gathered(&self) -> Seq<MatchModel> {
        models(self.results@)
    }

    /// A search of `volume`, or of every volume of `mounted` when
    /// `volume` is empty. Nothing has been searched yet.
    pub fn new(volume: &str, mounted: Vec<String>) -> (s: Search)
        ensures
            s.roots() == roots_for(volume@, texts(mounted@)),
            s.searched() == 0,
            s.gathered() == Seq::<MatchModel>::empty(),
    {
        let roots = search_roots(volume, mounted);
        let results: Vec<FileSearchResult> = Vec::new();
        assert(models(results@) =~= Seq::<MatchModel>::empty());
        Search { roots, next: 0, results }
    }

    /// The next root to search; `None` once every root has been searched.
    pub fn next_root(&self) -> (root: Option<String>)
        ensures
            root is Some == (self.searched() < self.roots().len()),
            root is Some ==> root->0@ == self.roots()[self.searched() as int],
    {
        if self.next < self.roots.len() {
            Some(self.roots[self.next].clone())
        } else {
            None
        }
    }

    /// Records the results of the root that `next_root` named: they are
    /// appended after everything gathered before, and the search moves
    /// on to the following root. Once every root has been searched,
    /// nothing changes.
    pub fn absorb(&mut self, batch: Vec<FileSearchResult>)
        ensures
            final(self).roots() == old(self).roots(),
            final(self).searched() == (if old(self).searched() < old(self).roots().len() {
                old(self).searched() + 1
            } else {
                old(self).searched()
            }),
            final(self).gathered() == (if old(self).searched() < old(self).roots().len() {
                old(self).gathered() + models(batch@)
            } else {
                old(self).gathered()
            }),
    {
        if self.next < self.roots.len() {
            let ghost before = self.results@;
            let mut batch = batch;
            let ghost added = batch@;
            self.results.append(&mut batch);
            self.next = self.next + 1;
            assert(models(self.results@) =~= models(before) + models(added));
        }
    }

    /// The gathered results.
    pub fn finish(self) -> (out: Vec<FileSearchResult>)
        ensures
            models(out@) == self.gathered(),
    {
        self.results
    }
}

} // verus!
