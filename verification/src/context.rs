//! The pattern sets of one directory.
//!
//! A directory has two sets of rules, one that says which names are hidden
//! and one that says which are ignored. Each is read from up to two files, a
//! global one that the environment names and a local one in the directory
//! itself. Reading the files is left to the caller; what they held is put
//! together here.

use crate::pattern::{any_matches, patterns_from, rules_of, PatternSet, PatternSource, PatternView};
use vstd::prelude::*;

verus! {

/// The name of the file, in the listed directory, that holds its hidden rules.
pub const LOCAL_HIDDEN_FILE: &'static str = ".hidden";

/// The name of the file, in the listed directory, that holds its ignored
/// rules.
pub const LOCAL_IGNORED_FILE: &'static str = ".ignore";

/// The environment variable that names the file of global hidden rules.
pub const GLOBAL_HIDDEN_VARIABLE: &'static str = "LS_GLOBAL_HIDDEN";

/// The environment variable that names the file of global ignored rules.
pub const GLOBAL_IGNORED_VARIABLE: &'static str = "LS_GLOBAL_IGNORE";

/// What came of reading one pattern file.
#[derive(Debug)]
pub enum PatternFile {
    /// There is no such file, or the environment names none.
    Absent,
    /// The file exists and could not be read.
    Unreadable,
    /// The file was read, and this is what it holds.
    Contents(String),
}

/// One of the four pattern files of a directory.
#[derive(Clone, Copy, Debug, PartialEq, Eq, Structural, Hash)]
pub enum PatternFileKind {
    /// The file of hidden rules that the environment names.
    GlobalHidden,
    /// The file of hidden rules in the directory.
    LocalHidden,
    /// The file of ignored rules that the environment names.
    GlobalIgnored,
    /// The file of ignored rules in the directory.
    LocalIgnored,
}

/// What came of reading the four pattern files of a directory.
#[derive(Debug)]
pub struct PatternFiles {
    /// The hidden rules that hold for every directory.
    pub global_hidden: PatternFile,
    /// The hidden rules of this directory.
    pub local_hidden: PatternFile,
    /// The ignored rules that hold for every directory.
    pub global_ignored: PatternFile,
    /// The ignored rules of this directory.
    pub local_ignored: PatternFile,
}

/// What a [`DirectoryContext`] is: the hidden rules and the ignored rules.
pub struct ContextView {
    /// The rules that say which names are hidden.
    pub hidden: Seq<PatternView>,
    /// The rules that say which names are ignored.
    pub ignored: Seq<PatternView>,
}

/// The context that the four pattern files give. Global rules come before
/// local ones, and the ignored rules are hidden rules too.
pub open spec fn resolved(files: PatternFiles) -> ContextView {
    let ignored = files.global_ignored.spec_patterns(PatternSource::Global)
        + files.local_ignored.spec_patterns(PatternSource::Local);
    let hidden = files.global_hidden.spec_patterns(PatternSource::Global)
        + files.local_hidden.spec_patterns(PatternSource::Local);
    ContextView { hidden: hidden + ignored, ignored }
}

impl PatternFile {
    /// The rules that the file gives. A file that is missing or cannot be
    /// read gives none.
    pub open spec fn spec_patterns(self, source: PatternSource) -> Seq<PatternView> {
        match self {
            PatternFile::Contents(text) => patterns_from(rules_of(text@), source),
            _ => Seq::empty(),
        }
    }

    /// The warning that the file is worth: its kind if it could not be read,
    /// and nothing otherwise.
    pub open spec fn spec_warning(self, kind: PatternFileKind) -> Seq<PatternFileKind> {
        if self is Unreadable {
            seq![kind]
        } else {
            Seq::empty()
        }
    }

    /// Whether the file exists and could not be read.
    pub fn is_unreadable(&self) -> (r: bool)
        ensures
            r == (*self is Unreadable),
    {
        match self {
            PatternFile::Unreadable => true,
            _ => false,
        }
    }

    /// Reads the rules that the file gives.
    pub fn patterns(&self, source: PatternSource) -> (r: PatternSet)
        ensures
            r@ == self.spec_patterns(source),
    {
        match self {
            PatternFile::Contents(text) => PatternSet::parse(text.as_str(), source),
            _ => PatternSet::new(),
        }
    }
}

impl PatternFiles {
    /// The files that exist and could not be read, hidden rules before
    /// ignored ones and global files before local ones.
    pub open spec fn spec_unreadable(self) -> Seq<PatternFileKind> {
        self.global_hidden.spec_warning(PatternFileKind::GlobalHidden)
            + self.local_hidden.spec_warning(PatternFileKind::LocalHidden)
            + self.global_ignored.spec_warning(PatternFileKind::GlobalIgnored)
            + self.local_ignored.spec_warning(PatternFileKind::LocalIgnored)
    }

    /// The files that exist and could not be read. Each is worth a warning
    /// and nothing more: the listing goes on without the rules of that file.
    pub fn unreadable(&self) -> (r: Vec<PatternFileKind>)
        ensures
            r@ == self.spec_unreadable(),
    {
        let mut kinds: Vec<PatternFileKind> = Vec::new();
        if self.global_hidden.is_unreadable() {
            kinds.push(PatternFileKind::GlobalHidden);
        }
        if self.local_hidden.is_unreadable() {
            kinds.push(PatternFileKind::LocalHidden);
        }
        if self.global_ignored.is_unreadable() {
            kinds.push(PatternFileKind::GlobalIgnored);
        }
        if self.local_ignored.is_unreadable() {
            kinds.push(PatternFileKind::LocalIgnored);
        }
        kinds
    }
}

impl ContextView {
    /// Ignored names are hidden names: the hidden rules match every name that
    /// the ignored rules match.
    pub open spec fn wf(self) -> bool {
        forall|name: Seq<char>| #[trigger]
            any_matches(self.ignored, name) ==> any_matches(self.hidden, name)
    }
}

/// The hidden rules and the ignored rules of one directory.
#[derive(Debug)]
pub struct DirectoryContext {
    hidden: PatternSet,
    ignored: PatternSet,
}

impl View for DirectoryContext {
    type V = ContextView;

    closed spec fn view(&self) -> ContextView {
        ContextView { hidden: self.hidden@, ignored: self.ignored@ }
    }
}

impl DirectoryContext {
    #[verifier::type_invariant]
    spec fn well_formed(&self) -> bool {
        self@.wf()
    }

    /// The context with the given rules. The ignored rules are added behind
    /// the hidden ones, so that a name that is ignored is hidden as well.
    pub fn new(hidden: PatternSet, ignored: PatternSet) -> (r: DirectoryContext)
        ensures
            r@.hidden == hidden@ + ignored@,
            r@.ignored == ignored@,
            r@.wf(),
    {
        let all = hidden.union(ignored.clone());
        proof {
            lemma_rules_added_behind(hidden@, ignored@);
        }
        DirectoryContext { hidden: all, ignored }
    }

    /// The context of a directory, from what came of reading its pattern
    /// files. Nothing is refused: a file that is missing or cannot be read
    /// gives no rules.
    pub fn resolve(files: &PatternFiles) -> (r: DirectoryContext)
        ensures
            r@ == resolved(*files),
            r@.wf(),
    {
        let hidden = files.global_hidden.patterns(PatternSource::Global).union(
            files.local_hidden.patterns(PatternSource::Local),
        );
        let ignored = files.global_ignored.patterns(PatternSource::Global).union(
            files.local_ignored.patterns(PatternSource::Local),
        );
        DirectoryContext::new(hidden, ignored)
    }

    /// The rules that say which names are hidden.
    pub fn hidden(&self) -> (r: &PatternSet)
        ensures
            r@ == self@.hidden,
            self@.wf(),
    {
        proof {
            use_type_invariant(self);
        }
        &self.hidden
    }

    /// The rules that say which names are ignored.
    pub fn ignored(&self) -> (r: &PatternSet)
        ensures
            r@ == self@.ignored,
            self@.wf(),
    {
        proof {
            use_type_invariant(self);
        }
        &self.ignored
    }
}

/// Whatever the pattern files hold, in the context that they give every
/// ignored name is a hidden name.
pub proof fn lemma_resolved_is_well_formed(files: PatternFiles)
    ensures
        resolved(files).wf(),
{
    let ignored = resolved(files).ignored;
    let hidden = files.global_hidden.spec_patterns(PatternSource::Global)
        + files.local_hidden.spec_patterns(PatternSource::Local);
    lemma_rules_added_behind(hidden, ignored);
}

/// Rules that stand behind other rules still match what they matched alone.
pub proof fn lemma_rules_added_behind(first: Seq<PatternView>, second: Seq<PatternView>)
    ensures
        (ContextView { hidden: first + second, ignored: second }).wf(),
{
    let all = first + second;
    assert forall|name: Seq<char>| #[trigger] any_matches(second, name) implies any_matches(
        all,
        name,
    ) by {
        let i = choose|i: int| 0 <= i < second.len() && #[trigger] second[i].matches(name);
        assert(all[first.len() + i] == second[i]);
    }
}

/// A name matches two sets of rules put together exactly when it matches one
/// of them: rules only add, none takes a match away.
pub proof fn lemma_any_matches_concat(
    first: Seq<PatternView>,
    second: Seq<PatternView>,
    name: Seq<char>,
)
    ensures
        any_matches(first + second, name) <==> any_matches(first, name) || any_matches(
            second,
            name,
        ),
{
    let all = first + second;
    if any_matches(first, name) {
        let i = choose|i: int| 0 <= i < first.len() && #[trigger] first[i].matches(name);
        assert(all[i].matches(name));
    }
    if any_matches(second, name) {
        let i = choose|i: int| 0 <= i < second.len() && #[trigger] second[i].matches(name);
        assert(all[first.len() + i] == second[i]);
    }
}

} // verus!
