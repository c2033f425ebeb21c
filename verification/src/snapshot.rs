//! What was observed on disk: for each directory that was looked at,
//! whether it is there and what its manifest declares.

use crate::manifest::{
    first_present, candidates, manifest_candidates, manifest_records, missing_projects_cause,
    parse_manifest, pick_manifest, FileContentView, FileProbe, FileProbeView, ParseError,
    ParseErrorView, ProjectRecord, ProjectRecordView,
};
use crate::json::json_document;
use vstd::prelude::*;

verus! {

/// What a directory's manifest came to.
#[derive(Debug, PartialEq, Eq)]
pub enum ManifestState {
    /// The directory holds no manifest.
    Absent,
    /// It holds one that could not be read or understood.
    Failed(ParseError),
    /// It holds one that declares these projects.
    Declared(Vec<ProjectRecord>),
}

/// The value of a [`ManifestState`].
pub ghost enum ManifestStateView {
    Absent,
    Failed(ParseErrorView),
    Declared(Seq<ProjectRecordView>),
}

impl View for ManifestState {
    type V = ManifestStateView;

    open spec fn view(&self) -> ManifestStateView {
        match self {
            ManifestState::Absent => ManifestStateView::Absent,
            ManifestState::Failed(error) => ManifestStateView::Failed(error@),
            ManifestState::Declared(records) => ManifestStateView::Declared(records.deep_view()),
        }
    }
}

/// One directory as it was found.
#[derive(Debug, PartialEq, Eq)]
pub struct DirProbe {
    pub path: String,
    /// Whether the path is an existing directory.
    pub is_dir: bool,
    pub manifest: ManifestState,
}

/// The value of a [`DirProbe`].
pub ghost struct DirProbeView {
    pub path: Seq<char>,
    pub is_dir: bool,
    pub manifest: ManifestStateView,
}

impl View for DirProbe {
    type V = DirProbeView;

    open spec fn view(&self) -> DirProbeView {
        DirProbeView { path: self.path@, is_dir: self.is_dir, manifest: self.manifest@ }
    }
}

impl DeepView for DirProbe {
    type V = DirProbeView;

    open spec fn deep_view(&self) -> DirProbeView {
        self@
    }
}

/// The directories that were looked at, in the order of the looking. Where
/// a directory was looked at twice, the later finding counts.
#[derive(Debug, PartialEq, Eq)]
pub struct Snapshot {
    pub entries: Vec<DirProbe>,
}

impl View for Snapshot {
    type V = Seq<DirProbeView>;

    open spec fn view(&self) -> Seq<DirProbeView> {
        self.entries.deep_view()
    }
}

/// The latest of the first `i` findings that is about `path`.
pub open spec fn probe_from(entries: Seq<DirProbeView>, path: Seq<char>, i: int) -> Option<
    DirProbeView,
>
    decreases i,
{
    if i <= 0 || i > entries.len() {
        None
    } else if entries[i - 1].path == path {
        Some(entries[i - 1])
    } else {
        probe_from(entries, path, i - 1)
    }
}

/// What is known of `path`: the latest finding about it.
pub open spec fn probe_of(entries: Seq<DirProbeView>, path: Seq<char>) -> Option<DirProbeView> {
    probe_from(entries, path, entries.len() as int)
}

/// What the manifest of `dir` came to; absent where `dir` was not looked at.
pub open spec fn manifest_of(entries: Seq<DirProbeView>, dir: Seq<char>) -> ManifestStateView {
    match probe_of(entries, dir) {
        Some(probe) => probe.manifest,
        None => ManifestStateView::Absent,
    }
}

/// Whether `path` was found to be a directory.
pub open spec fn is_directory(entries: Seq<DirProbeView>, path: Seq<char>) -> bool {
    match probe_of(entries, path) {
        Some(probe) => probe.is_dir,
        None => false,
    }
}

/// The length of the longest path among the findings.
pub open spec fn longest_path(entries: Seq<DirProbeView>) -> nat
    decreases entries.len(),
{
    if entries.len() == 0 {
        0
    } else {
        let rest = longest_path(entries.drop_last());
        if entries.last().path.len() > rest {
            entries.last().path.len()
        } else {
            rest
        }
    }
}

/// No finding is about a path longer than the longest.
pub proof fn lemma_longest_path(entries: Seq<DirProbeView>, i: int)
    requires
        0 <= i < entries.len(),
    ensures
        entries[i].path.len() <= longest_path(entries),
    decreases entries.len(),
{
    if i < entries.len() - 1 {
        lemma_longest_path(entries.drop_last(), i);
    }
}

/// A path that something is known of is no longer than the longest.
pub proof fn lemma_known_path_bounded(entries: Seq<DirProbeView>, path: Seq<char>, i: int)
    requires
        probe_from(entries, path, i) is Some,
    ensures
        path.len() <= longest_path(entries),
        probe_from(entries, path, i)->0.path == path,
    decreases i,
{
    if entries[i - 1].path == path {
        lemma_longest_path(entries, i - 1);
    } else {
        lemma_known_path_bounded(entries, path, i - 1);
    }
}

/// What a directory that holds `files` declares.
pub open spec fn observed_manifest(files: Seq<FileProbeView>, state: ManifestStateView) -> bool {
    match first_present(files, candidates(), 0) {
        None => state is Absent,
        Some((c, f)) => match files[f].content {
            FileContentView::Unreadable(cause) => state == ManifestStateView::Failed(
                ParseErrorView::Io(cause),
            ),
            FileContentView::Text(text) => match manifest_records(text) {
                Some(records) => state == ManifestStateView::Declared(records),
                None => state matches ManifestStateView::Failed(ParseErrorView::Format(cause)) && (
                json_document(text) is Some ==> cause == missing_projects_cause()),
            },
        },
    }
}

impl DirProbe {
    /// The finding about a directory, from whether it is there and the
    /// manifest candidates that were found in it.
    pub fn observe(path: &str, is_dir: bool, files: &Vec<FileProbe>) -> (r: DirProbe)
        ensures
            r@.path == path@,
            r@.is_dir == is_dir,
            observed_manifest(files.deep_view(), r@.manifest),
    {
        let table = manifest_candidates();
        let manifest = match pick_manifest(files, &table) {
            None => ManifestState::Absent,
            Some((c, f)) => match parse_manifest(&files[f].content, table[c].format) {
                Ok(records) => ManifestState::Declared(records),
                Err(error) => ManifestState::Failed(error),
            },
        };
        DirProbe { path: String::from_str(path), is_dir, manifest }
    }
}

impl Snapshot {
    /// Nothing looked at yet.
    pub fn new() -> (r: Snapshot)
        ensures
            r@ == Seq::<DirProbeView>::empty(),
    {
        let r = Snapshot { entries: Vec::new() };
        assert(r@ =~= Seq::<DirProbeView>::empty());
        r
    }

    /// Adds a finding; it replaces what was known of its path.
    pub fn record(&mut self, probe: DirProbe)
        ensures
            final(self)@ == old(self)@.push(probe@),
            probe_of(final(self)@, probe@.path) == Some(probe@),
            forall|other: Seq<char>|
                other != probe@.path ==> probe_of(final(self)@, other) == probe_of(
                    old(self)@,
                    other,
                ),
    {
        let ghost before = self@;
        let ghost added = probe@;
        self.entries.push(probe);
        assert(self@ =~= before.push(added));
        assert forall|other: Seq<char>| other != added.path implies probe_of(self@, other)
            == probe_of(before, other) by {
            lemma_probe_from_prefix(before, self@, other, before.len() as int);
        }
    }

    /// What is known of `path`.
    pub fn probe(&self, path: &str) -> (r: Option<&DirProbe>)
        ensures
            match r {
                Some(probe) => probe_of(self@, path@) == Some(probe@),
                None => probe_of(self@, path@) is None,
            },
    {
        let wanted = String::from_str(path);
        let mut i: usize = self.entries.len();
        while i > 0
            invariant
                i <= self.entries.len(),
                wanted@ == path@,
                probe_of(self@, path@) == probe_from(self@, path@, i as int),
            decreases i,
        {
            if self.entries[i - 1].path == wanted {
                return Some(&self.entries[i - 1]);
            }
            i -= 1;
        }
        None
    }

    /// Whether `path` was found to be a directory.
    pub fn is_dir(&self, path: &str) -> (r: bool)
        ensures
            r == is_directory(self@, path@),
    {
        match self.probe(path) {
            Some(probe) => probe.is_dir,
            None => false,
        }
    }
}

/// A search of the first `i` findings gives the same in any list that
/// begins with them.
pub proof fn lemma_probe_from_prefix(
    short: Seq<DirProbeView>,
    long: Seq<DirProbeView>,
    path: Seq<char>,
    i: int,
)
    requires
        0 <= i <= short.len() <= long.len(),
        forall|k: int| 0 <= k < short.len() ==> short[k] == long[k],
    ensures
        probe_from(short, path, i) == probe_from(long, path, i),
    decreases i,
{
    if i > 0 && short[i - 1].path != path {
        lemma_probe_from_prefix(short, long, path, i - 1);
    }
}

} // verus!
