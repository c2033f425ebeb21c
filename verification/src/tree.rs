//! The tree of declared projects below a root directory.

use crate::manifest::{copy_texts, ParseError, ParseErrorView, ProjectRecord, ProjectRecordView};
use crate::snapshot::{
    lemma_known_path_bounded, lemma_probe_from_prefix, longest_path, manifest_of, probe_from,
    probe_of, DirProbeView, ManifestState, ManifestStateView, Snapshot,
};
use crate::text::{is_valid_path, join, join_path, last_segment, last_segment_of, valid_path};
use vstd::prelude::*;

verus! {

/// One declared project in the tree of a walk.
#[derive(Debug, PartialEq, Eq)]
pub struct TreeNode {
    /// The last segment of the project's path.
    pub name: String,
    /// The project's path from the root of the walk.
    pub path: String,
    pub repo: Option<String>,
    pub tags: Vec<String>,
    /// Whether the project's directory holds a manifest of its own.
    pub is_meta: bool,
    /// The projects that this one declares, as far as the walk went down.
    pub children: Vec<TreeNode>,
}

/// The value of a [`TreeNode`].
pub ghost struct TreeNodeView {
    pub name: Seq<char>,
    pub path: Seq<char>,
    pub repo: Option<Seq<char>>,
    pub tags: Seq<Seq<char>>,
    pub is_meta: bool,
    pub children: Seq<TreeNodeView>,
}

/// The value of a node: the same tree, with every string and list taken by
/// its view.
pub open spec fn node_view(node: TreeNode) -> TreeNodeView
    decreases node,
{
    TreeNodeView {
        name: node.name@,
        path: node.path@,
        repo: node.repo.deep_view(),
        tags: node.tags.deep_view(),
        is_meta: node.is_meta,
        children: Seq::new(
            node.children.len() as nat,
            |i: int|
                if 0 <= i < node.children.len() {
                    node_view(node.children[i])
                } else {
                    arbitrary()
                },
        ),
    }
}

impl View for TreeNode {
    type V = TreeNodeView;

    open spec fn view(&self) -> TreeNodeView {
        node_view(*self)
    }
}

impl DeepView for TreeNode {
    type V = TreeNodeView;

    open spec fn deep_view(&self) -> TreeNodeView {
        node_view(*self)
    }
}

impl TreeNodeView {
    /// The invariant of a tree: only a project with a manifest of its own
    /// has children.
    pub open spec fn well_formed(self) -> bool
        decreases self,
    {
        &&& self.children.len() > 0 ==> self.is_meta
        &&& forall|i: int|
            0 <= i < self.children.len() ==> (#[trigger] self.children[i]).well_formed()
    }
}

/// Why a walk gave no tree.
#[derive(Clone, Debug, PartialEq, Eq)]
pub enum WalkError {
    /// The root directory has no manifest.
    ConfigNotFound(String),
    /// The root's manifest could not be read or understood.
    Parse(ParseError),
}

/// The value of a [`WalkError`].
pub ghost enum WalkErrorView {
    ConfigNotFound(Seq<char>),
    Parse(ParseErrorView),
}

impl View for WalkError {
    type V = WalkErrorView;

    open spec fn view(&self) -> WalkErrorView {
        match self {
            WalkError::ConfigNotFound(dir) => WalkErrorView::ConfigNotFound(dir@),
            WalkError::Parse(error) => WalkErrorView::Parse(error@),
        }
    }
}

impl WalkErrorView {
    /// What is said of the failure.
    pub open spec fn message(self) -> Seq<char> {
        match self {
            WalkErrorView::ConfigNotFound(dir) => "no manifest found at "@ + dir,
            WalkErrorView::Parse(error) => error.message(),
        }
    }
}

impl WalkError {
    /// What is said of the failure.
    pub fn message(&self) -> (r: String)
        ensures
            r@ == self@.message(),
    {
        match self {
            WalkError::ConfigNotFound(dir) => String::from_str("no manifest found at ").concat(
                dir.as_str(),
            ),
            WalkError::Parse(error) => error.message(),
        }
    }
}

/// A depth limit as a number of levels; `None` is no limit.
pub open spec fn levels(max_depth: Option<usize>) -> Option<nat> {
    match max_depth {
        Some(d) => Some(d as nat),
        None => None,
    }
}

/// Whether a walk with this budget goes down into a nested manifest.
pub open spec fn descends(depth: Option<nat>) -> bool {
    depth != Some(0nat)
}

/// The budget that is left one level further down.
pub open spec fn below(depth: Option<nat>) -> Option<nat> {
    match depth {
        Some(d) => Some((d - 1) as nat),
        None => None,
    }
}

/// The nodes of the first `upto` of `records`, which the manifest of `dir`
/// declares; `rel` is the path of `dir` from the root of the walk.
///
/// Each record gives one node. The node is a nested workspace where its
/// directory holds a manifest, readable or not. The walk goes down into it
/// where that manifest declares projects, the budget is not used up, and the
/// record's path is valid; otherwise the node has no children.
pub open spec fn tree_nodes(
    snap: Seq<DirProbeView>,
    dir: Seq<char>,
    rel: Seq<char>,
    depth: Option<nat>,
    records: Seq<ProjectRecordView>,
    upto: int,
) -> Seq<TreeNodeView>
    decreases longest_path(snap) - dir.len(), upto,
    via tree_nodes_terminates
{
    if upto <= 0 || upto > records.len() {
        Seq::empty()
    } else {
        let record = records[upto - 1];
        let child_dir = join(dir, record.path);
        let child_rel = join(rel, record.path);
        let state = manifest_of(snap, child_dir);
        let children = if state is Declared && descends(depth) && valid_path(record.path) {
            tree_nodes(
                snap,
                child_dir,
                child_rel,
                below(depth),
                state->Declared_0,
                state->Declared_0.len() as int,
            )
        } else {
            Seq::empty()
        };
        tree_nodes(snap, dir, rel, depth, records, upto - 1).push(
            TreeNodeView {
                name: last_segment(record.path),
                path: child_rel,
                repo: record.repo,
                tags: record.tags,
                is_meta: !(state is Absent),
                children,
            },
        )
    }
}

#[via_fn]
proof fn tree_nodes_terminates(
    snap: Seq<DirProbeView>,
    dir: Seq<char>,
    rel: Seq<char>,
    depth: Option<nat>,
    records: Seq<ProjectRecordView>,
    upto: int,
) {
    if 0 < upto <= records.len() {
        let record = records[upto - 1];
        let child_dir = join(dir, record.path);
        let state = manifest_of(snap, child_dir);
        if state is Declared && valid_path(record.path) {
            lemma_known_path_bounded(snap, child_dir, snap.len() as int);
            lemma_join_longer(dir, record.path);
        }
    }
}

/// A path below a directory is longer than the directory's.
pub proof fn lemma_join_longer(base: Seq<char>, name: Seq<char>)
    requires
        name.len() > 0,
    ensures
        join(base, name).len() > base.len(),
{
}

/// Among the directories that a walk below `dir` looks into, for the first
/// `upto` of `records`, those of which nothing is known yet, in the order
/// of the walk.
pub open spec fn unknown_below(
    snap: Seq<DirProbeView>,
    dir: Seq<char>,
    depth: Option<nat>,
    records: Seq<ProjectRecordView>,
    upto: int,
) -> Seq<Seq<char>>
    decreases longest_path(snap) - dir.len(), upto,
    via unknown_below_terminates
{
    if upto <= 0 || upto > records.len() {
        Seq::empty()
    } else {
        let record = records[upto - 1];
        let child_dir = join(dir, record.path);
        let state = manifest_of(snap, child_dir);
        let here = if probe_of(snap, child_dir) is None {
            seq![child_dir]
        } else if state is Declared && descends(depth) && valid_path(record.path) {
            unknown_below(
                snap,
                child_dir,
                below(depth),
                state->Declared_0,
                state->Declared_0.len() as int,
            )
        } else {
            Seq::empty()
        };
        unknown_below(snap, dir, depth, records, upto - 1) + here
    }
}

#[via_fn]
proof fn unknown_below_terminates(
    snap: Seq<DirProbeView>,
    dir: Seq<char>,
    depth: Option<nat>,
    records: Seq<ProjectRecordView>,
    upto: int,
) {
    if 0 < upto <= records.len() {
        let record = records[upto - 1];
        let child_dir = join(dir, record.path);
        if probe_of(snap, child_dir) is Some && valid_path(record.path) {
            lemma_known_path_bounded(snap, child_dir, snap.len() as int);
            lemma_join_longer(dir, record.path);
        }
    }
}

/// The directories that a walk from `root` looks into and of which nothing
/// is known yet.
pub open spec fn unprobed(snap: Seq<DirProbeView>, root: Seq<char>, depth: Option<nat>) -> Seq<
    Seq<char>,
> {
    match probe_of(snap, root) {
        None => seq![root],
        Some(probe) => match probe.manifest {
            ManifestStateView::Declared(records) => unknown_below(
                snap,
                root,
                depth,
                records,
                records.len() as int,
            ),
            _ => Seq::empty(),
        },
    }
}

/// What a walk from `root` gives: the tree that its manifest declares, or
/// the reason why there is none.
pub open spec fn walk_result(snap: Seq<DirProbeView>, root: Seq<char>, depth: Option<nat>)
    -> Result<Seq<TreeNodeView>, WalkErrorView> {
    match manifest_of(snap, root) {
        ManifestStateView::Absent => Err(WalkErrorView::ConfigNotFound(root)),
        ManifestStateView::Failed(error) => Err(WalkErrorView::Parse(error)),
        ManifestStateView::Declared(records) => Ok(
            tree_nodes(snap, root, Seq::empty(), depth, records, records.len() as int),
        ),
    }
}

/// The node that `record`, declared by the manifest of `dir`, gives.
pub open spec fn node_of(
    snap: Seq<DirProbeView>,
    dir: Seq<char>,
    rel: Seq<char>,
    depth: Option<nat>,
    record: ProjectRecordView,
) -> TreeNodeView {
    let child_dir = join(dir, record.path);
    let state = manifest_of(snap, child_dir);
    TreeNodeView {
        name: last_segment(record.path),
        path: join(rel, record.path),
        repo: record.repo,
        tags: record.tags,
        is_meta: !(state is Absent),
        children: if state is Declared && descends(depth) && valid_path(record.path) {
            tree_nodes(
                snap,
                child_dir,
                join(rel, record.path),
                below(depth),
                state->Declared_0,
                state->Declared_0.len() as int,
            )
        } else {
            Seq::empty()
        },
    }
}

/// Every declared project gives exactly one node, and the nodes come in the
/// order of the declarations.
pub proof fn lemma_one_node_per_record(
    snap: Seq<DirProbeView>,
    dir: Seq<char>,
    rel: Seq<char>,
    depth: Option<nat>,
    records: Seq<ProjectRecordView>,
    upto: int,
)
    requires
        0 <= upto <= records.len(),
    ensures
        tree_nodes(snap, dir, rel, depth, records, upto).len() == upto,
        forall|i: int|
            0 <= i < upto ==> #[trigger] tree_nodes(snap, dir, rel, depth, records, upto)[i]
                == node_of(snap, dir, rel, depth, records[i]),
    decreases upto,
{
    if upto > 0 {
        lemma_one_node_per_record(snap, dir, rel, depth, records, upto - 1);
    }
}

/// Every node of a walk keeps the invariant of a tree: only a project with
/// a manifest of its own has children.
pub proof fn lemma_nodes_well_formed(
    snap: Seq<DirProbeView>,
    dir: Seq<char>,
    rel: Seq<char>,
    depth: Option<nat>,
    records: Seq<ProjectRecordView>,
    upto: int,
)
    requires
        0 <= upto <= records.len(),
    ensures
        forall|i: int|
            0 <= i < upto ==> (#[trigger] tree_nodes(
                snap,
                dir,
                rel,
                depth,
                records,
                upto,
            )[i]).well_formed(),
    decreases longest_path(snap) - dir.len(), upto,
{
    if upto > 0 {
        lemma_nodes_well_formed(snap, dir, rel, depth, records, upto - 1);
        lemma_one_node_per_record(snap, dir, rel, depth, records, upto);
        let record = records[upto - 1];
        let child_dir = join(dir, record.path);
        let state = manifest_of(snap, child_dir);
        let node = node_of(snap, dir, rel, depth, record);
        if state is Declared && descends(depth) && valid_path(record.path) {
            lemma_known_path_bounded(snap, child_dir, snap.len() as int);
            lemma_join_longer(dir, record.path);
            lemma_nodes_well_formed(
                snap,
                child_dir,
                join(rel, record.path),
                below(depth),
                state->Declared_0,
                state->Declared_0.len() as int,
            );
            let below_it = tree_nodes(
                snap,
                child_dir,
                join(rel, record.path),
                below(depth),
                state->Declared_0,
                state->Declared_0.len() as int,
            );
            lemma_one_node_per_record(
                snap,
                child_dir,
                join(rel, record.path),
                below(depth),
                state->Declared_0,
                state->Declared_0.len() as int,
            );
            assert(node.children == below_it);
            assert forall|j: int| 0 <= j < node.children.len() implies (
            #[trigger] node.children[j]).well_formed() by {
                assert(below_it[j].well_formed());
            }
        }
        assert(node.well_formed());
        let nodes = tree_nodes(snap, dir, rel, depth, records, upto);
        let head = tree_nodes(snap, dir, rel, depth, records, upto - 1);
        assert forall|i: int| 0 <= i < upto implies (#[trigger] nodes[i]).well_formed() by {
            if i < upto - 1 {
                assert(nodes[i] == head[i]);
            }
        }
    }
}

/// A walk that may not go down lists the root's projects and no more: a
/// project whose directory holds a manifest is marked as a nested
/// workspace, and has no children.
pub proof fn lemma_walk_without_descent(snap: Seq<DirProbeView>, root: Seq<char>, i: int)
    requires
        manifest_of(snap, root) is Declared,
        0 <= i < manifest_of(snap, root)->Declared_0.len(),
    ensures
        walk_result(snap, root, Some(0nat)) is Ok,
        ({
            let records = manifest_of(snap, root)->Declared_0;
            let nodes = walk_result(snap, root, Some(0nat))->Ok_0;
            &&& nodes.len() == records.len()
            &&& nodes[i].children.len() == 0
            &&& nodes[i].is_meta == !(manifest_of(snap, join(root, records[i].path)) is Absent)
        }),
{
    let records = manifest_of(snap, root)->Declared_0;
    lemma_one_node_per_record(
        snap,
        root,
        Seq::empty(),
        Some(0nat),
        records,
        records.len() as int,
    );
}

/// Findings about other paths leave what is known of `path` as it is.
pub proof fn lemma_later_findings(
    snap: Seq<DirProbeView>,
    more: Seq<DirProbeView>,
    path: Seq<char>,
)
    requires
        forall|i: int| 0 <= i < more.len() ==> (#[trigger] more[i]).path != path,
    ensures
        probe_of(snap + more, path) == probe_of(snap, path),
    decreases more.len(),
{
    let all = snap + more;
    if more.len() == 0 {
        assert(all =~= snap);
    } else {
        let fewer = more.drop_last();
        lemma_later_findings(snap, fewer, path);
        assert(all[all.len() - 1] == more[more.len() - 1]);
        assert(probe_of(all, path) == probe_from(all, path, all.len() - 1));
        let shorter = snap + fewer;
        assert forall|k: int| 0 <= k < shorter.len() implies shorter[k] == all[k] by {}
        lemma_probe_from_prefix(shorter, all, path, all.len() - 1);
    }
}

/// Where a level of the walk has no directory left to look at, later
/// findings about paths that were not known do not change its nodes.
pub proof fn lemma_level_settled(
    snap: Seq<DirProbeView>,
    more: Seq<DirProbeView>,
    dir: Seq<char>,
    rel: Seq<char>,
    depth: Option<nat>,
    records: Seq<ProjectRecordView>,
    upto: int,
)
    requires
        0 <= upto <= records.len(),
        unknown_below(snap, dir, depth, records, upto).len() == 0,
        forall|i: int| 0 <= i < more.len() ==> probe_of(snap, (#[trigger] more[i]).path) is None,
    ensures
        tree_nodes(snap + more, dir, rel, depth, records, upto) == tree_nodes(
            snap,
            dir,
            rel,
            depth,
            records,
            upto,
        ),
    decreases longest_path(snap) - dir.len(), upto,
{
    if upto > 0 {
        let record = records[upto - 1];
        let child_dir = join(dir, record.path);
        let child_rel = join(rel, record.path);
        let state = manifest_of(snap, child_dir);
        assert(unknown_below(snap, dir, depth, records, upto - 1).len() == 0);
        lemma_level_settled(snap, more, dir, rel, depth, records, upto - 1);
        assert(probe_of(snap, child_dir) is Some);
        lemma_later_findings(snap, more, child_dir);
        assert(manifest_of(snap + more, child_dir) == state);
        if state is Declared && descends(depth) && valid_path(record.path) {
            lemma_known_path_bounded(snap, child_dir, snap.len() as int);
            lemma_join_longer(dir, record.path);
            lemma_level_settled(
                snap,
                more,
                child_dir,
                child_rel,
                below(depth),
                state->Declared_0,
                state->Declared_0.len() as int,
            );
        }
    }
}

/// Where a level of the walk has no directory left to look at, the
/// directory of each of its projects is known.
pub proof fn lemma_level_known(
    snap: Seq<DirProbeView>,
    dir: Seq<char>,
    depth: Option<nat>,
    records: Seq<ProjectRecordView>,
    upto: int,
    i: int,
)
    requires
        0 <= i < upto <= records.len(),
        unknown_below(snap, dir, depth, records, upto).len() == 0,
    ensures
        probe_of(snap, join(dir, records[i].path)) is Some,
    decreases upto,
{
    if i < upto - 1 {
        lemma_level_known(snap, dir, depth, records, upto - 1, i);
    }
}

/// When no directory is left to look at, the snapshot holds all that the
/// walk reads: findings that are recorded later, about paths that were not
/// known, do not change what the walk gives.
pub proof fn lemma_walk_settled(
    snap: Seq<DirProbeView>,
    more: Seq<DirProbeView>,
    root: Seq<char>,
    depth: Option<nat>,
)
    requires
        unprobed(snap, root, depth).len() == 0,
        forall|i: int| 0 <= i < more.len() ==> probe_of(snap, (#[trigger] more[i]).path) is None,
    ensures
        walk_result(snap + more, root, depth) == walk_result(snap, root, depth),
{
    lemma_later_findings(snap, more, root);
    match manifest_of(snap, root) {
        ManifestStateView::Declared(records) => {
            lemma_level_settled(
                snap,
                more,
                root,
                Seq::empty(),
                depth,
                records,
                records.len() as int,
            );
        },
        _ => {},
    }
}

fn copy_error(error: &ParseError) -> (r: ParseError)
    ensures
        r@ == error@,
{
    match error {
        ParseError::Io(cause) => ParseError::Io(cause.clone()),
        ParseError::Format(cause) => ParseError::Format(cause.clone()),
    }
}

/// The nodes of `records`, which the manifest of `dir` declares.
pub(crate) fn nodes_below(
    snapshot: &Snapshot,
    dir: &str,
    rel: &str,
    depth: Option<usize>,
    records: &Vec<ProjectRecord>,
) -> (r: Vec<TreeNode>)
    ensures
        r.deep_view() == tree_nodes(
            snapshot@,
            dir@,
            rel@,
            levels(depth),
            records.deep_view(),
            records.len() as int,
        ),
    decreases longest_path(snapshot@) - dir@.len(),
{
    let mut out: Vec<TreeNode> = Vec::new();
    let mut i: usize = 0;
    assert(out.deep_view() =~= Seq::empty());
    while i < records.len()
        invariant
            i <= records.len(),
            out.deep_view() == tree_nodes(
                snapshot@,
                dir@,
                rel@,
                levels(depth),
                records.deep_view(),
                i as int,
            ),
        decreases records.len() - i,
    {
        let ghost before = out.deep_view();
        let record = &records[i];
        let child_dir = join_path(dir, record.path.as_str());
        let child_rel = join_path(rel, record.path.as_str());
        let mut is_meta = false;
        let mut children: Vec<TreeNode> = Vec::new();
        assert(children.deep_view() =~= Seq::empty());
        match snapshot.probe(child_dir.as_str()) {
            Some(probe) => match &probe.manifest {
                ManifestState::Absent => {},
                ManifestState::Failed(_) => {
                    is_meta = true;
                },
                ManifestState::Declared(inner) => {
                    is_meta = true;
                    let goes_down = match depth {
                        Some(d) => d > 0,
                        None => true,
                    };
                    if goes_down && is_valid_path(record.path.as_str()) {
                        let rest = match depth {
                            Some(d) => Some((d - 1) as usize),
                            None => None,
                        };
                        proof {
                            lemma_known_path_bounded(
                                snapshot@,
                                child_dir@,
                                snapshot@.len() as int,
                            );
                            lemma_join_longer(dir@, record.path@);
                        }
                        children = nodes_below(
                            snapshot,
                            child_dir.as_str(),
                            child_rel.as_str(),
                            rest,
                            inner,
                        );
                    }
                },
            },
            None => {},
        }
        let repo = match &record.repo {
            Some(url) => Some(url.clone()),
            None => None,
        };
        let node = TreeNode {
            name: last_segment_of(record.path.as_str()),
            path: child_rel,
            repo,
            tags: copy_texts(&record.tags),
            is_meta,
            children,
        };
        proof {
            assert(node@.children =~= children.deep_view());
        }
        out.push(node);
        assert(out.deep_view() =~= before.push(node@));
        i += 1;
    }
    out
}

fn collect_unknown(
    snapshot: &Snapshot,
    dir: &str,
    depth: Option<usize>,
    records: &Vec<ProjectRecord>,
    out: &mut Vec<String>,
)
    ensures
        final(out).deep_view() == old(out).deep_view() + unknown_below(
            snapshot@,
            dir@,
            levels(depth),
            records.deep_view(),
            records.len() as int,
        ),
    decreases longest_path(snapshot@) - dir@.len(),
{
    let ghost start = out.deep_view();
    let mut i: usize = 0;
    assert(out.deep_view() =~= start + Seq::<Seq<char>>::empty());
    while i < records.len()
        invariant
            i <= records.len(),
            out.deep_view() == start + unknown_below(
                snapshot@,
                dir@,
                levels(depth),
                records.deep_view(),
                i as int,
            ),
        decreases records.len() - i,
    {
        let ghost before = out.deep_view();
        let ghost done = unknown_below(
            snapshot@,
            dir@,
            levels(depth),
            records.deep_view(),
            i as int,
        );
        let record = &records[i];
        let child_dir = join_path(dir, record.path.as_str());
        match snapshot.probe(child_dir.as_str()) {
            None => {
                let ghost added = child_dir@;
                out.push(child_dir);
                assert(out.deep_view() =~= before.push(added));
                assert(out.deep_view() =~= start + (done + seq![added]));
            },
            Some(probe) => match &probe.manifest {
                ManifestState::Declared(inner) => {
                    let goes_down = match depth {
                        Some(d) => d > 0,
                        None => true,
                    };
                    if goes_down && is_valid_path(record.path.as_str()) {
                        let rest = match depth {
                            Some(d) => Some((d - 1) as usize),
                            None => None,
                        };
                        proof {
                            lemma_known_path_bounded(
                                snapshot@,
                                child_dir@,
                                snapshot@.len() as int,
                            );
                            lemma_join_longer(dir@, record.path@);
                        }
                        collect_unknown(snapshot, child_dir.as_str(), rest, inner, out);
                        assert(out.deep_view() =~= start + (done + unknown_below(
                            snapshot@,
                            child_dir@,
                            below(levels(depth)),
                            inner.deep_view(),
                            inner.len() as int,
                        )));
                    } else {
                        assert(out.deep_view() =~= start + (done + Seq::<Seq<char>>::empty()));
                    }
                },
                _ => {
                    assert(out.deep_view() =~= start + (done + Seq::<Seq<char>>::empty()));
                },
            },
        }
        i += 1;
    }
}

/// The directories that a walk from `root_dir` looks into and that are not
/// in the snapshot yet. Once they are looked at and recorded, the walk may
/// reach further; when none is left, the snapshot holds all that the walk
/// reads.
pub fn unprobed_dirs(snapshot: &Snapshot, root_dir: &str, max_depth: Option<usize>) -> (r: Vec<
    String,
>)
    ensures
        r.deep_view() == unprobed(snapshot@, root_dir@, levels(max_depth)),
{
    let mut out: Vec<String> = Vec::new();
    assert(out.deep_view() =~= Seq::<Seq<char>>::empty());
    match snapshot.probe(root_dir) {
        None => {
            out.push(String::from_str(root_dir));
            assert(out.deep_view() =~= seq![root_dir@]);
        },
        Some(probe) => match &probe.manifest {
            ManifestState::Declared(records) => {
                collect_unknown(snapshot, root_dir, max_depth, records, &mut out);
                assert(out.deep_view() =~= unprobed(snapshot@, root_dir@, levels(max_depth)));
            },
            _ => {},
        },
    }
    out
}

/// Walks the workspace below `root_dir`: the projects that its manifest
/// declares, each with the projects of its own manifest, down to
/// `max_depth` nested levels (`None`: all the way down).
pub fn walk(snapshot: &Snapshot, root_dir: &str, max_depth: Option<usize>) -> (r: Result<
    Vec<TreeNode>,
    WalkError,
>)
    ensures
        match r {
            Ok(nodes) => walk_result(snapshot@, root_dir@, levels(max_depth)) == Ok::<
                Seq<TreeNodeView>,
                WalkErrorView,
            >(nodes.deep_view()),
            Err(error) => walk_result(snapshot@, root_dir@, levels(max_depth)) == Err::<
                Seq<TreeNodeView>,
                WalkErrorView,
            >(error@),
        },
        r matches Ok(nodes) ==> forall|i: int|
            0 <= i < nodes.len() ==> (#[trigger] nodes.deep_view()[i]).well_formed(),
{
    proof {
        if manifest_of(snapshot@, root_dir@) is Declared {
            let records = manifest_of(snapshot@, root_dir@)->Declared_0;
            lemma_nodes_well_formed(
                snapshot@,
                root_dir@,
                Seq::empty(),
                levels(max_depth),
                records,
                records.len() as int,
            );
            lemma_one_node_per_record(
                snapshot@,
                root_dir@,
                Seq::empty(),
                levels(max_depth),
                records,
                records.len() as int,
            );
        }
    }
    match snapshot.probe(root_dir) {
        Some(probe) => match &probe.manifest {
            ManifestState::Absent => Err(WalkError::ConfigNotFound(String::from_str(root_dir))),
            ManifestState::Failed(error) => Err(WalkError::Parse(copy_error(error))),
            ManifestState::Declared(records) => {
                proof {
                    reveal_strlit("");
                    assert(""@ =~= Seq::<char>::empty());
                }
                Ok(nodes_below(snapshot, root_dir, "", max_depth, records))
            },
        },
        None => Err(WalkError::ConfigNotFound(String::from_str(root_dir))),
    }
}

} // verus!
