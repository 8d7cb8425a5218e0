//! Predicates that decide whether an entry is hidden, lies under an
//! excluded tree, or satisfies the search criteria.

use vstd::prelude::*;
use vstd::string::StrSliceExecFns;
use crate::text::{
    contains, contains_seq, ends_with, is_prefix_of, is_suffix_of, lowercase, starts_with,
    to_lowercase,
};

verus! {

/// What the caller is looking for.
#[derive(Debug, Clone, PartialEq, Eq)]
pub struct Criteria {
    /// Substring looked for in entry names, compared without regard to case.
    pub query: String,
    /// Suffix that file names must end with; empty for no filter.
    pub extension: String,
    /// Whether directories may be reported.
    pub include_directories: bool,
    /// Mount point to search; empty for every mounted volume.
    pub volume: String,
}

/// A name is hidden when it begins with a dot.
pub open spec fn hidden_name(name: Seq<char>) -> bool {
    name.len() > 0 && name[0] == '.'
}

/// The two characters that separate path components.
pub open spec fn is_separator(c: char) -> bool {
    c == '/' || c == '\\'
}

/// `path` is `root` itself or lies below it: `root` is an initial
/// segment of `path` that ends on a component boundary.
pub open spec fn lies_under(root: Seq<char>, path: Seq<char>) -> bool {
    is_prefix_of(root, path) && (root.len() == path.len() || is_separator(path[root.len() as int])
        || (root.len() > 0 && is_separator(root[root.len() - 1])))
}

/// `path` lies under one of the roots of `denylist`.
pub open spec fn excluded_path(path: Seq<char>, denylist: Seq<String>) -> bool {
    exists|i: int| 0 <= i < denylist.len() && lies_under(#[trigger] denylist[i]@, path)
}

/// The trees excluded unless the caller configures others: the operating
/// system's installation and program-data directories.
pub fn default_denylist() -> (denylist: Vec<String>)
    ensures
        denylist@.len() == 2,
        denylist@[0]@ == "C:\\Windows"@,
        denylist@[1]@ == "C:\\ProgramData"@,
{
    let mut denylist: Vec<String> = Vec::new();
    denylist.push("C:\\Windows".to_owned());
    denylist.push("C:\\ProgramData".to_owned());
    denylist
}

/// The match decision on an entry's name and kind.
pub open spec fn name_matches(name: Seq<char>, is_dir: bool, criteria: Criteria) -> bool {
    &&& !is_dir || criteria.include_directories
    &&& is_dir || criteria.extension@.len() == 0 || is_suffix_of(
        lowercase(criteria.extension@),
        lowercase(name),
    )
    &&& contains_seq(lowercase(name), lowercase(criteria.query@))
}

/// True exactly when `name` begins with a dot.
pub fn is_hidden(name: &str) -> (r: bool)
    ensures
        r == hidden_name(name@),
{
    if name.is_empty() {
        false
    } else {
        name.get_char(0) == '.'
    }
}

/// True exactly when `path` is `root` or lies below it.
pub fn is_under(root: &str, path: &str) -> (r: bool)
    ensures
        r == lies_under(root@, path@),
{
    if !starts_with(path, root) {
        return false;
    }
    let n: usize = root.unicode_len();
    if n == path.unicode_len() {
        return true;
    }
    let next: char = path.get_char(n);
    if next == '/' || next == '\\' {
        return true;
    }
    if n == 0 {
        return false;
    }
    let last: char = root.get_char(n - 1);
    last == '/' || last == '\\'
}

/// True exactly when `path` lies under one of the roots of `denylist`.
pub fn is_excluded_path(path: &str, denylist: &Vec<String>) -> (r: bool)
    ensures
        r == excluded_path(path@, denylist@),
{
    let mut i: usize = 0;
    while i < denylist.len()
        invariant
            i <= denylist.len(),
            forall|j: int| 0 <= j < i ==> !lies_under(#[trigger] denylist@[j]@, path@),
        decreases denylist.len() - i,
    {
        if is_under(denylist[i].as_str(), path) {
            return true;
        }
        i += 1;
    }
    false
}

/// The directory and extension tests alone: what `name_matches` asks
/// of an entry besides the query.
pub open spec fn eligible_name(name: Seq<char>, is_dir: bool, criteria: Criteria) -> bool {
    &&& !is_dir || criteria.include_directories
    &&& is_dir || criteria.extension@.len() == 0 || is_suffix_of(
        lowercase(criteria.extension@),
        lowercase(name),
    )
}

/// Case plays no part in the query: two criteria whose queries have the
/// same lowercase form, and which agree on extension and directories,
/// select the same names.
pub proof fn lemma_query_case_is_ignored(name: Seq<char>, is_dir: bool, a: Criteria, b: Criteria)
    ensures
        lowercase(a.query@) == lowercase(b.query@) && a.extension@ == b.extension@
            && a.include_directories == b.include_directories ==> name_matches(name, is_dir, a)
            == name_matches(name, is_dir, b),
{
}

/// The extension filters files only: on a directory the decision does
/// not depend on the extension, and a directory never matches when
/// directories are not wanted, whatever its name.
pub proof fn lemma_extension_only_filters_files(name: Seq<char>, a: Criteria, b: Criteria)
    requires
        a.query@ == b.query@,
        a.include_directories == b.include_directories,
    ensures
        name_matches(name, true, a) == name_matches(name, true, b),
        !a.include_directories ==> !name_matches(name, true, a),
{
}

/// Search criteria together with the lowercase forms of their query and
/// extension, computed once and reused for every entry.
pub struct Matcher {
    criteria: Criteria,
    query_lower: String,
    extension_lower: String,
}

impl Matcher {
    /// The cached lowercase forms agree with the criteria.
    #[verifier::type_invariant]
    spec fn wf(&self) -> bool {
        &&& self.query_lower@ == lowercase(self.criteria.query@)
        &&& self.extension_lower@ == lowercase(self.criteria.extension@)
        &&& self.criteria.query@.len() == 0 ==> self.query_lower@.len() == 0
    }

    /// The criteria this matcher was built from.
    pub closed spec fn criteria(&self) -> Criteria {
        self.criteria
    }

    /// Prepares `criteria` for matching.
    pub fn new(criteria: Criteria) -> (m: Matcher)
        ensures
            m.criteria() == criteria,
    {
        let query_lower = to_lowercase(criteria.query.as_str());
        let extension_lower = to_lowercase(criteria.extension.as_str());
        Matcher { criteria, query_lower, extension_lower }
    }

    /// The match decision: a directory matches only when directories are
    /// wanted; a file must end with the extension when one is given; and
    /// in either case the lowercase name must contain the lowercase query.
    /// With an empty query the decision is `eligible_name` alone.
    pub fn matches(&self, name: &str, is_dir: bool) -> (r: bool)
        ensures
            r == name_matches(name@, is_dir, self.criteria()),
            self.criteria().query@.len() == 0 ==> r == eligible_name(
                name@,
                is_dir,
                self.criteria(),
            ),
    {
        proof {
            use_type_invariant(self);
            if self.criteria.query@.len() == 0 {
                crate::text::lemma_empty_occurs_everywhere(
                    lowercase(name@),
                    lowercase(self.criteria.query@),
                );
            }
        }
        if is_dir && !self.criteria.include_directories {
            return false;
        }
        let name_lower = to_lowercase(name);
        if !is_dir && !self.criteria.extension.as_str().is_empty() && !ends_with(
            name_lower.as_str(),
            self.extension_lower.as_str(),
        ) {
            return false;
        }
        contains(name_lower.as_str(), self.query_lower.as_str())
    }
}

} // verus!
