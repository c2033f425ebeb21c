//! Declared projects against the directories that are there.

use crate::manifest::{ProjectRecord, ProjectRecordView};
use crate::snapshot::{is_directory, DirProbeView, Snapshot};
use crate::text::{join, join_path};
use vstd::multiset::Multiset;
use vstd::prelude::*;

verus! {

/// A declared project that is not on disk and can be fetched.
#[derive(Clone, Debug, PartialEq, Eq)]
pub struct MissingProject {
    pub path: String,
    /// The remote to fetch it from.
    pub repo: String,
}

/// The value of a [`MissingProject`].
pub ghost struct MissingProjectView {
    pub path: Seq<char>,
    pub repo: Seq<char>,
}

impl View for MissingProject {
    type V = MissingProjectView;

    open spec fn view(&self) -> MissingProjectView {
        MissingProjectView { path: self.path@, repo: self.repo@ }
    }
}

impl DeepView for MissingProject {
    type V = MissingProjectView;

    open spec fn deep_view(&self) -> MissingProjectView {
        self@
    }
}

/// How a declared project stands against the disk.
pub ghost enum Standing {
    /// It has a remote and its directory is there.
    Present,
    /// It has a remote and its directory is not there.
    Missing,
    /// It has no remote, so there is nothing to reconcile.
    Excluded,
}

/// The standing of `record`, declared by the manifest of `base`.
pub open spec fn standing(record: ProjectRecordView, base: Seq<char>, snap: Seq<DirProbeView>)
    -> Standing {
    if record.repo is None {
        Standing::Excluded
    } else if is_directory(snap, join(base, record.path)) {
        Standing::Present
    } else {
        Standing::Missing
    }
}

/// The records of `declared` with the given standing, in their order.
pub open spec fn records_standing(
    declared: Seq<ProjectRecordView>,
    base: Seq<char>,
    snap: Seq<DirProbeView>,
    wanted: Standing,
) -> Seq<ProjectRecordView>
    decreases declared.len(),
{
    if declared.len() == 0 {
        Seq::empty()
    } else {
        let head = records_standing(declared.drop_last(), base, snap, wanted);
        if standing(declared.last(), base, snap) == wanted {
            head.push(declared.last())
        } else {
            head
        }
    }
}

/// The present projects: those with a remote whose directory is there.
pub open spec fn present_of(
    declared: Seq<ProjectRecordView>,
    base: Seq<char>,
    snap: Seq<DirProbeView>,
) -> Seq<ProjectRecordView> {
    records_standing(declared, base, snap, Standing::Present)
}

/// The path and remote of a record that has a remote.
pub open spec fn to_fetch(record: ProjectRecordView) -> MissingProjectView {
    MissingProjectView { path: record.path, repo: record.repo->0 }
}

/// The missing projects: those with a remote whose directory is not there.
pub open spec fn missing_of(
    declared: Seq<ProjectRecordView>,
    base: Seq<char>,
    snap: Seq<DirProbeView>,
) -> Seq<MissingProjectView> {
    records_standing(declared, base, snap, Standing::Missing).map_values(
        |record: ProjectRecordView| to_fetch(record),
    )
}

/// The projects that are left out: those without a remote.
pub open spec fn excluded_of(
    declared: Seq<ProjectRecordView>,
    base: Seq<char>,
    snap: Seq<DirProbeView>,
) -> Seq<ProjectRecordView> {
    records_standing(declared, base, snap, Standing::Excluded)
}

/// A record is in the list of a standing as often as it is declared, if
/// that is its standing, and not at all otherwise.
pub proof fn lemma_standing_counts(
    declared: Seq<ProjectRecordView>,
    base: Seq<char>,
    snap: Seq<DirProbeView>,
    wanted: Standing,
    record: ProjectRecordView,
)
    ensures
        records_standing(declared, base, snap, wanted).to_multiset().count(record) == (if standing(
            record,
            base,
            snap,
        ) == wanted {
            declared.to_multiset().count(record)
        } else {
            0
        }),
    decreases declared.len(),
{
    broadcast use vstd::seq_lib::to_multiset_build;
    broadcast use vstd::multiset::group_multiset_axioms;

    if declared.len() == 0 {
        assert(declared.to_multiset() =~= Multiset::<ProjectRecordView>::empty()) by {
            declared.to_multiset_ensures();
            assert(declared.to_multiset().len() == 0);
        }
        let none = records_standing(declared, base, snap, wanted);
        assert(none.to_multiset() =~= Multiset::<ProjectRecordView>::empty()) by {
            none.to_multiset_ensures();
            assert(none.to_multiset().len() == 0);
        }
    } else {
        let head = declared.drop_last();
        let last = declared.last();
        lemma_standing_counts(head, base, snap, wanted, record);
        assert(declared =~= head.push(last));
        assert(declared.to_multiset() =~= head.to_multiset().insert(last));
    }
}

/// The lengths of the three lists add up to the number of declared
/// projects.
pub proof fn lemma_standing_lengths(
    declared: Seq<ProjectRecordView>,
    base: Seq<char>,
    snap: Seq<DirProbeView>,
)
    ensures
        records_standing(declared, base, snap, Standing::Present).len() + records_standing(
            declared,
            base,
            snap,
            Standing::Missing,
        ).len() + records_standing(declared, base, snap, Standing::Excluded).len()
            == declared.len(),
    decreases declared.len(),
{
    if declared.len() > 0 {
        lemma_standing_lengths(declared.drop_last(), base, snap);
    }
}

/// Reconciling sorts the declared projects into the present, the missing
/// and the excluded: every declared project is in exactly one of the three
/// lists, as often as it is declared, and the list it is in is the one of
/// its standing. The missing that are handed out are the path and remote of
/// the records with that standing, one for one.
pub proof fn lemma_reconcile_partitions(
    declared: Seq<ProjectRecordView>,
    base: Seq<char>,
    snap: Seq<DirProbeView>,
)
    ensures
        ({
            let present = present_of(declared, base, snap);
            let missing = records_standing(declared, base, snap, Standing::Missing);
            let excluded = excluded_of(declared, base, snap);
            &&& present.len() + missing.len() + excluded.len() == declared.len()
            &&& missing_of(declared, base, snap).len() == missing.len()
            &&& present.to_multiset().add(missing.to_multiset()).add(excluded.to_multiset())
                == declared.to_multiset()
            &&& forall|record: ProjectRecordView| #[trigger]
                present.contains(record) ==> !missing.contains(record) && !excluded.contains(
                    record,
                )
            &&& forall|record: ProjectRecordView| #[trigger]
                missing.contains(record) ==> !excluded.contains(record)
            &&& forall|i: int|
                0 <= i < present.len() ==> standing(#[trigger] present[i], base, snap)
                    == Standing::Present
            &&& forall|i: int|
                0 <= i < missing.len() ==> standing(#[trigger] missing[i], base, snap)
                    == Standing::Missing
            &&& forall|i: int|
                0 <= i < excluded.len() ==> standing(#[trigger] excluded[i], base, snap)
                    == Standing::Excluded
        }),
{
    broadcast use vstd::multiset::group_multiset_axioms;

    let present = present_of(declared, base, snap);
    let missing = records_standing(declared, base, snap, Standing::Missing);
    let excluded = excluded_of(declared, base, snap);
    lemma_standing_lengths(declared, base, snap);
    let union = present.to_multiset().add(missing.to_multiset()).add(excluded.to_multiset());
    assert forall|record: ProjectRecordView| union.count(record) == declared.to_multiset().count(
        record,
    ) by {
        lemma_standing_counts(declared, base, snap, Standing::Present, record);
        lemma_standing_counts(declared, base, snap, Standing::Missing, record);
        lemma_standing_counts(declared, base, snap, Standing::Excluded, record);
    }
    assert(union =~= declared.to_multiset());
    assert forall|record: ProjectRecordView| #[trigger]
        present.contains(record) implies !missing.contains(record) && !excluded.contains(
        record,
    ) by {
        lemma_standing_counts(declared, base, snap, Standing::Present, record);
        lemma_standing_counts(declared, base, snap, Standing::Missing, record);
        lemma_standing_counts(declared, base, snap, Standing::Excluded, record);
        present.to_multiset_ensures();
        missing.to_multiset_ensures();
        excluded.to_multiset_ensures();
    }
    assert forall|record: ProjectRecordView| #[trigger]
        missing.contains(record) implies !excluded.contains(record) by {
        lemma_standing_counts(declared, base, snap, Standing::Missing, record);
        lemma_standing_counts(declared, base, snap, Standing::Excluded, record);
        missing.to_multiset_ensures();
        excluded.to_multiset_ensures();
    }
    assert forall|i: int| 0 <= i < present.len() implies standing(
        #[trigger] present[i],
        base,
        snap,
    ) == Standing::Present by {
        lemma_standing_counts(declared, base, snap, Standing::Present, present[i]);
        present.to_multiset_ensures();
        assert(present.contains(present[i]));
    }
    assert forall|i: int| 0 <= i < missing.len() implies standing(
        #[trigger] missing[i],
        base,
        snap,
    ) == Standing::Missing by {
        lemma_standing_counts(declared, base, snap, Standing::Missing, missing[i]);
        missing.to_multiset_ensures();
        assert(missing.contains(missing[i]));
    }
    assert forall|i: int| 0 <= i < excluded.len() implies standing(
        #[trigger] excluded[i],
        base,
        snap,
    ) == Standing::Excluded by {
        lemma_standing_counts(declared, base, snap, Standing::Excluded, excluded[i]);
        excluded.to_multiset_ensures();
        assert(excluded.contains(excluded[i]));
    }
}

/// How many of the declared projects have their directory on disk.
pub open spec fn directories_there(
    declared: Seq<ProjectRecordView>,
    base: Seq<char>,
    snap: Seq<DirProbeView>,
) -> nat
    decreases declared.len(),
{
    if declared.len() == 0 {
        0
    } else {
        let before = directories_there(declared.drop_last(), base, snap);
        if is_directory(snap, join(base, declared.last().path)) {
            before + 1
        } else {
            before
        }
    }
}

/// Where no project without a remote has a directory on disk, the present
/// are as many as the directories that are there, and the missing and the
/// excluded are the rest.
pub proof fn lemma_present_count(
    declared: Seq<ProjectRecordView>,
    base: Seq<char>,
    snap: Seq<DirProbeView>,
)
    requires
        forall|i: int|
            0 <= i < declared.len() && (#[trigger] declared[i]).repo is None ==> !is_directory(
                snap,
                join(base, declared[i].path),
            ),
    ensures
        present_of(declared, base, snap).len() == directories_there(declared, base, snap),
        missing_of(declared, base, snap).len() + excluded_of(declared, base, snap).len()
            == declared.len() - directories_there(declared, base, snap),
    decreases declared.len(),
{
    lemma_standing_lengths(declared, base, snap);
    if declared.len() > 0 {
        let head = declared.drop_last();
        assert forall|i: int| 0 <= i < head.len() && (#[trigger] head[i]).repo is None implies
            !is_directory(snap, join(base, head[i].path)) by {
            assert(head[i] == declared[i]);
        }
        lemma_present_count(head, base, snap);
        assert(declared.last() == declared[declared.len() - 1]);
    }
}

/// The place in `declared` of the `k`-th record with the standing `wanted`.
pub open spec fn place_of(
    declared: Seq<ProjectRecordView>,
    base: Seq<char>,
    snap: Seq<DirProbeView>,
    wanted: Standing,
    k: int,
) -> int
    decreases declared.len(),
{
    if declared.len() == 0 {
        -1
    } else if k < records_standing(declared.drop_last(), base, snap, wanted).len() {
        place_of(declared.drop_last(), base, snap, wanted, k)
    } else {
        declared.len() - 1
    }
}

/// The list of a standing keeps the manifest's order: its `k`-th record is
/// the declared record at `place_of(.., k)`, and the places rise with `k`.
pub proof fn lemma_standing_keeps_order(
    declared: Seq<ProjectRecordView>,
    base: Seq<char>,
    snap: Seq<DirProbeView>,
    wanted: Standing,
    k: int,
)
    requires
        0 <= k < records_standing(declared, base, snap, wanted).len(),
    ensures
        0 <= place_of(declared, base, snap, wanted, k) < declared.len(),
        declared[place_of(declared, base, snap, wanted, k)] == records_standing(
            declared,
            base,
            snap,
            wanted,
        )[k],
        k + 1 < records_standing(declared, base, snap, wanted).len() ==> place_of(
            declared,
            base,
            snap,
            wanted,
            k,
        ) < place_of(declared, base, snap, wanted, k + 1),
    decreases declared.len(),
{
    let head = declared.drop_last();
    let n = records_standing(head, base, snap, wanted).len();
    if k < n {
        lemma_standing_keeps_order(head, base, snap, wanted, k);
        assert(declared[place_of(head, base, snap, wanted, k)] == head[place_of(
            head,
            base,
            snap,
            wanted,
            k,
        )]);
    }
}

/// Sorts the declared projects of the manifest of `base_dir` into those that
/// are present and those that are missing. Both keep the manifest's order;
/// a project without a remote is in neither.
pub fn reconcile(declared: &Vec<ProjectRecord>, base_dir: &str, snapshot: &Snapshot) -> (r: (
    Vec<ProjectRecord>,
    Vec<MissingProject>,
))
    ensures
        r.0.deep_view() == present_of(declared.deep_view(), base_dir@, snapshot@),
        r.1.deep_view() == missing_of(declared.deep_view(), base_dir@, snapshot@),
{
    let mut present: Vec<ProjectRecord> = Vec::new();
    let mut missing: Vec<MissingProject> = Vec::new();
    let mut i: usize = 0;
    let ghost all = declared.deep_view();
    assert(all.take(0) =~= Seq::empty());
    assert(present.deep_view() =~= present_of(all.take(0), base_dir@, snapshot@));
    assert(missing.deep_view() =~= missing_of(all.take(0), base_dir@, snapshot@));
    while i < declared.len()
        invariant
            i <= declared.len(),
            all == declared.deep_view(),
            present.deep_view() == present_of(all.take(i as int), base_dir@, snapshot@),
            missing.deep_view() == missing_of(all.take(i as int), base_dir@, snapshot@),
        decreases declared.len() - i,
    {
        let ghost present_before = present.deep_view();
        let ghost missing_before = missing.deep_view();
        proof {
            let next = all.take(i as int + 1);
            assert(next.drop_last() =~= all.take(i as int));
            assert(next.last() == declared[i as int]@);
        }
        let record = &declared[i];
        match &record.repo {
            Some(url) => {
                let target = join_path(base_dir, record.path.as_str());
                if snapshot.is_dir(target.as_str()) {
                    present.push(record.clone());
                    assert(present.deep_view() =~= present_before.push(record@));
                } else {
                    missing.push(MissingProject { path: record.path.clone(), repo: url.clone() });
                    assert(missing.deep_view() =~= missing_before.push(to_fetch(record@)));
                }
            },
            None => {},
        }
        proof {
            assert(missing.deep_view() =~= missing_of(
                all.take(i as int + 1),
                base_dir@,
                snapshot@,
            ));
        }
        i += 1;
    }
    assert(all.take(declared.len() as int) =~= all);
    (present, missing)
}

/// The declared projects that are to be fetched: those with a remote whose
/// directory below `base_dir` is not there.
pub fn find_missing_projects(projects: &Vec<ProjectRecord>, base_dir: &str, snapshot: &Snapshot)
    -> (r: Vec<MissingProject>)
    ensures
        r.deep_view() == missing_of(projects.deep_view(), base_dir@, snapshot@),
{
    reconcile(projects, base_dir, snapshot).1
}

} // verus!
