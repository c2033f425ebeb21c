use meta_project::json::{Json, Member};
use meta_project::manifest::ProjectRecord;
use meta_project::plan::{build_plan, ExecutionPlan, PlannedCommand};
use meta_project::reconcile::{find_missing_projects, reconcile, MissingProject};
use meta_project::snapshot::{DirProbe, ManifestState, Snapshot};

fn record(path: &str, repo: Option<&str>) -> ProjectRecord {
    ProjectRecord { path: path.to_string(), repo: repo.map(|r| r.to_string()), tags: vec![] }
}

fn missing(path: &str, repo: &str) -> MissingProject {
    MissingProject { path: path.to_string(), repo: repo.to_string() }
}

fn disk(dirs: &[&str], not_dirs: &[&str]) -> Snapshot {
    let mut snapshot = Snapshot::new();
    for dir in dirs {
        snapshot.record(DirProbe {
            path: dir.to_string(),
            is_dir: true,
            manifest: ManifestState::Absent,
        });
    }
    for path in not_dirs {
        snapshot.record(DirProbe {
            path: path.to_string(),
            is_dir: false,
            manifest: ManifestState::Absent,
        });
    }
    snapshot
}

fn declared() -> Vec<ProjectRecord> {
    vec![
        record("here", Some("u-here")),
        record("gone", Some("u-gone")),
        record("local", None),
        record("local-there", None),
        record("also-gone", Some("u-also")),
        record("also-here", Some("u-too")),
    ]
}

fn the_disk() -> Snapshot {
    disk(&["/w/here", "/w/also-here", "/w/local-there"], &["/w/gone"])
}

#[test]
fn present_and_missing_keep_manifest_order() {
    let (present, absent) = reconcile(&declared(), "/w", &the_disk());
    assert_eq!(present, vec![record("here", Some("u-here")), record("also-here", Some("u-too"))]);
    assert_eq!(absent, vec![missing("gone", "u-gone"), missing("also-gone", "u-also")]);
}

#[test]
fn projects_without_remote_are_in_neither_list() {
    let (present, absent) = reconcile(&declared(), "/w", &the_disk());
    assert!(present.iter().all(|r| r.path != "local" && r.path != "local-there"));
    assert!(absent.iter().all(|m| m.path != "local" && m.path != "local-there"));
}

#[test]
fn the_three_standings_partition_the_declared() {
    let all = declared();
    let (present, absent) = reconcile(&all, "/w", &the_disk());
    let excluded: Vec<&ProjectRecord> = all.iter().filter(|r| r.repo.is_none()).collect();
    assert_eq!(present.len() + absent.len() + excluded.len(), all.len());
    for r in &all {
        let in_present = present.iter().filter(|p| p.path == r.path).count();
        let in_missing = absent.iter().filter(|m| m.path == r.path).count();
        let in_excluded = excluded.iter().filter(|x| x.path == r.path).count();
        assert_eq!(in_present + in_missing + in_excluded, 1, "for {}", r.path);
    }
}

#[test]
fn a_path_that_is_a_file_is_missing() {
    let snapshot = disk(&[], &["/w/a"]);
    assert_eq!(
        find_missing_projects(&vec![record("a", Some("u"))], "/w", &snapshot),
        vec![missing("a", "u")]
    );
}

#[test]
fn a_directory_that_was_not_looked_at_counts_as_missing() {
    assert_eq!(
        find_missing_projects(&vec![record("a", Some("u"))], "/w", &Snapshot::new()),
        vec![missing("a", "u")]
    );
}

#[test]
fn nothing_declared_nothing_missing() {
    let (present, absent) = reconcile(&vec![], "/w", &the_disk());
    assert!(present.is_empty());
    assert!(absent.is_empty());
    assert!(find_missing_projects(&vec![], "/w", &the_disk()).is_empty());
}

#[test]
fn find_missing_is_the_missing_half_of_reconcile() {
    let (_, absent) = reconcile(&declared(), "/w", &the_disk());
    assert_eq!(find_missing_projects(&declared(), "/w", &the_disk()), absent);
}

#[test]
fn presence_is_judged_below_the_base_directory() {
    let snapshot = disk(&["/other/a"], &[]);
    assert_eq!(
        find_missing_projects(&vec![record("a", Some("u"))], "/w", &snapshot),
        vec![missing("a", "u")]
    );
    assert!(find_missing_projects(&vec![record("a", Some("u"))], "/other", &snapshot).is_empty());
}

#[test]
fn plan_has_one_clone_command_for_each_missing_project() {
    let plan = build_plan(&vec![missing("gone", "u-gone"), missing("also-gone", "u-also")], "/w");
    assert_eq!(
        plan,
        ExecutionPlan {
            commands: vec![
                PlannedCommand {
                    dir: "/w".to_string(),
                    cmd: "git clone u-gone /w/gone".to_string(),
                    env: None,
                },
                PlannedCommand {
                    dir: "/w".to_string(),
                    cmd: "git clone u-also /w/also-gone".to_string(),
                    env: None,
                },
            ],
            parallel: false,
            max_parallel: None,
            nothing_to_do: false,
        }
    );
}

#[test]
fn plan_for_nothing_says_so() {
    let plan = build_plan(&vec![], "/w");
    assert!(plan.commands.is_empty());
    assert!(plan.nothing_to_do);
    assert!(!plan.parallel);
    assert_eq!(plan.max_parallel, None);
}

#[test]
fn plan_keeps_the_order_it_is_given() {
    let wanted = vec![missing("z", "u1"), missing("a", "u2"), missing("m", "u3")];
    let plan = build_plan(&wanted, "/w");
    assert_eq!(plan.commands.len(), 3);
    for (command, project) in plan.commands.iter().zip(wanted.iter()) {
        assert_eq!(command.cmd, format!("git clone {} /w/{}", project.repo, project.path));
    }
}

#[test]
fn plan_can_be_made_parallel() {
    let plan = build_plan(&vec![missing("a", "u")], "/w").in_parallel(Some(4));
    assert!(plan.parallel);
    assert_eq!(plan.max_parallel, Some(4));
    assert_eq!(plan.commands.len(), 1);
    assert!(!plan.nothing_to_do);
    let unbounded = build_plan(&vec![], "/w").in_parallel(None);
    assert!(unbounded.parallel);
    assert_eq!(unbounded.max_parallel, None);
    assert!(unbounded.nothing_to_do);
}

#[test]
fn plan_document_has_commands_and_parallelism() {
    let plan = build_plan(&vec![missing("a", "u")], "/w");
    assert_eq!(
        plan.to_json(),
        Json::object(vec![Member::new(
            "plan",
            Json::object(vec![
                Member::new(
                    "commands",
                    Json::array(vec![Json::object(vec![
                        Member::new("dir", Json::text("/w")),
                        Member::new("cmd", Json::text("git clone u /w/a")),
                    ])]),
                ),
                Member::new("parallel", Json::Bool(false)),
            ]),
        )])
    );
}

#[test]
fn plan_document_shows_bound_and_environment_where_set() {
    let plan = ExecutionPlan {
        commands: vec![PlannedCommand {
            dir: "/w".to_string(),
            cmd: "true".to_string(),
            env: Some(vec![("K".to_string(), "v".to_string())]),
        }],
        parallel: true,
        max_parallel: Some(12),
        nothing_to_do: false,
    };
    assert_eq!(
        plan.to_json(),
        Json::object(vec![Member::new(
            "plan",
            Json::object(vec![
                Member::new(
                    "commands",
                    Json::array(vec![Json::object(vec![
                        Member::new("dir", Json::text("/w")),
                        Member::new("cmd", Json::text("true")),
                        Member::new("env", Json::object(vec![Member::new("K", Json::text("v"))])),
                    ])]),
                ),
                Member::new("parallel", Json::Bool(true)),
                Member::new("max_parallel", Json::Number("12".to_string())),
            ]),
        )])
    );
}
