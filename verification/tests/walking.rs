use meta_project::manifest::{FileContent, FileProbe, ParseError, ProjectRecord};
use meta_project::snapshot::{DirProbe, ManifestState, Snapshot};
use meta_project::tree::{unprobed_dirs, walk, TreeNode, WalkError};

fn manifest_file(text: &str) -> Vec<FileProbe> {
    vec![FileProbe { name: ".meta".to_string(), content: FileContent::Text(text.to_string()) }]
}

fn workspace(path: &str, text: &str) -> DirProbe {
    DirProbe::observe(path, true, &manifest_file(text))
}

fn plain_dir(path: &str) -> DirProbe {
    DirProbe::observe(path, true, &vec![])
}

fn absent(path: &str) -> DirProbe {
    DirProbe::observe(path, false, &vec![])
}

fn snapshot_of(probes: Vec<DirProbe>) -> Snapshot {
    let mut snapshot = Snapshot::new();
    for probe in probes {
        snapshot.record(probe);
    }
    snapshot
}

fn leaf(name: &str, path: &str, repo: &str, is_meta: bool) -> TreeNode {
    TreeNode {
        name: name.to_string(),
        path: path.to_string(),
        repo: Some(repo.to_string()),
        tags: vec![],
        is_meta,
        children: vec![],
    }
}

fn nested() -> Snapshot {
    snapshot_of(vec![
        workspace("/w", "{\"projects\": {\"child\": \"u-child\", \"plain\": \"u-plain\"}}"),
        workspace("/w/child", "{\"projects\": {\"grandchild\": \"u-grand\"}}"),
        plain_dir("/w/plain"),
        workspace("/w/child/grandchild", "{\"projects\": {\"deep\": \"u-deep\"}}"),
        absent("/w/child/grandchild/deep"),
    ])
}

#[test]
fn observe_without_candidate_is_absent() {
    let probe = DirProbe::observe("/w/x", true, &vec![]);
    assert_eq!(probe.path, "/w/x");
    assert!(probe.is_dir);
    assert_eq!(probe.manifest, ManifestState::Absent);
}

#[test]
fn observe_parses_the_manifest() {
    let probe = workspace("/w", "{\"projects\": {\"a\": \"u\"}}");
    assert_eq!(
        probe.manifest,
        ManifestState::Declared(vec![ProjectRecord {
            path: "a".to_string(),
            repo: Some("u".to_string()),
            tags: vec![],
        }])
    );
}

#[test]
fn observe_keeps_the_reason_of_a_failure() {
    let unreadable = DirProbe::observe(
        "/w",
        true,
        &vec![FileProbe {
            name: ".meta".to_string(),
            content: FileContent::Unreadable("denied".to_string()),
        }],
    );
    assert_eq!(unreadable.manifest, ManifestState::Failed(ParseError::Io("denied".to_string())));
    let malformed = workspace("/w", "{\"other\": 1}");
    assert_eq!(
        malformed.manifest,
        ManifestState::Failed(ParseError::Format("No 'projects' key in .meta".to_string()))
    );
    let broken = workspace("/w", "{");
    assert!(matches!(broken.manifest, ManifestState::Failed(ParseError::Format(_))));
}

#[test]
fn snapshot_answers_with_the_latest_finding() {
    let mut snapshot = Snapshot::new();
    assert!(snapshot.probe("/w").is_none());
    assert!(!snapshot.is_dir("/w"));
    snapshot.record(absent("/w"));
    assert!(!snapshot.is_dir("/w"));
    snapshot.record(plain_dir("/other"));
    snapshot.record(plain_dir("/w"));
    assert!(snapshot.is_dir("/w"));
    assert!(snapshot.is_dir("/other"));
    assert_eq!(snapshot.probe("/w"), Some(&plain_dir("/w")));
    assert_eq!(snapshot.entries.len(), 3);
}

#[test]
fn walk_without_root_manifest_is_config_not_found() {
    let snapshot = snapshot_of(vec![plain_dir("/w")]);
    assert_eq!(walk(&snapshot, "/w", None), Err(WalkError::ConfigNotFound("/w".to_string())));
    assert_eq!(
        walk(&Snapshot::new(), "/w", None),
        Err(WalkError::ConfigNotFound("/w".to_string()))
    );
}

#[test]
fn walk_with_unusable_root_manifest_is_a_parse_error() {
    let snapshot = snapshot_of(vec![workspace("/w", "{\"projects\": 1}")]);
    assert_eq!(
        walk(&snapshot, "/w", None),
        Err(WalkError::Parse(ParseError::Format("No 'projects' key in .meta".to_string())))
    );
}

#[test]
fn depth_zero_marks_nested_workspaces_and_stays_above() {
    let nodes = walk(&nested(), "/w", Some(0)).unwrap();
    assert_eq!(
        nodes,
        vec![leaf("child", "child", "u-child", true), leaf("plain", "plain", "u-plain", false)]
    );
}

#[test]
fn depth_one_lists_grandchildren_only() {
    let nodes = walk(&nested(), "/w", Some(1)).unwrap();
    let mut child = leaf("child", "child", "u-child", true);
    child.children = vec![leaf("grandchild", "child/grandchild", "u-grand", true)];
    assert_eq!(nodes, vec![child, leaf("plain", "plain", "u-plain", false)]);
}

#[test]
fn unbounded_walk_goes_all_the_way_down() {
    let nodes = walk(&nested(), "/w", None).unwrap();
    let mut grandchild = leaf("grandchild", "child/grandchild", "u-grand", true);
    grandchild.children = vec![leaf("deep", "child/grandchild/deep", "u-deep", false)];
    let mut child = leaf("child", "child", "u-child", true);
    child.children = vec![grandchild];
    assert_eq!(nodes, vec![child, leaf("plain", "plain", "u-plain", false)]);
    assert_eq!(walk(&nested(), "/w", Some(2)).unwrap(), nodes);
    assert_eq!(walk(&nested(), "/w", Some(usize::MAX)).unwrap(), nodes);
}

#[test]
fn malformed_nested_manifest_is_a_leaf() {
    let snapshot = snapshot_of(vec![
        workspace("/w", "{\"projects\": {\"bad\": \"u1\", \"good\": \"u2\"}}"),
        workspace("/w/bad", "not json at all"),
        workspace("/w/good", "{\"projects\": {\"x\": \"u3\"}}"),
    ]);
    let nodes = walk(&snapshot, "/w", None).unwrap();
    let mut good = leaf("good", "good", "u2", true);
    good.children = vec![leaf("x", "good/x", "u3", false)];
    assert_eq!(nodes, vec![leaf("bad", "bad", "u1", true), good]);
}

#[test]
fn node_name_is_the_last_segment_and_keeps_tags() {
    let snapshot = snapshot_of(vec![workspace(
        "/w",
        "{\"projects\": {\"libs/core\": {\"repo\": \"u\", \"tags\": [\"a\", \"b\"]}, \"docs\": {}}}",
    )]);
    let nodes = walk(&snapshot, "/w", None).unwrap();
    assert_eq!(
        nodes,
        vec![
            TreeNode {
                name: "core".to_string(),
                path: "libs/core".to_string(),
                repo: Some("u".to_string()),
                tags: vec!["a".to_string(), "b".to_string()],
                is_meta: false,
                children: vec![],
            },
            TreeNode {
                name: "docs".to_string(),
                path: "docs".to_string(),
                repo: None,
                tags: vec![],
                is_meta: false,
                children: vec![],
            },
        ]
    );
}

#[test]
fn walk_does_not_descend_through_a_record_with_an_invalid_path() {
    let mut snapshot = Snapshot::new();
    snapshot.record(DirProbe {
        path: "".to_string(),
        is_dir: true,
        manifest: ManifestState::Declared(vec![ProjectRecord {
            path: "".to_string(),
            repo: None,
            tags: vec![],
        }]),
    });
    let nodes = walk(&snapshot, "", None).unwrap();
    assert_eq!(nodes.len(), 1);
    assert!(nodes[0].is_meta);
    assert!(nodes[0].children.is_empty());
}

#[test]
fn unprobed_asks_for_the_root_first() {
    assert_eq!(unprobed_dirs(&Snapshot::new(), "/w", None), vec!["/w".to_string()]);
}

#[test]
fn unprobed_asks_level_by_level() {
    let mut snapshot =
        snapshot_of(vec![workspace("/w", "{\"projects\": {\"a\": \"u\", \"b\": \"v\"}}")]);
    assert_eq!(
        unprobed_dirs(&snapshot, "/w", None),
        vec!["/w/a".to_string(), "/w/b".to_string()]
    );
    snapshot.record(workspace("/w/a", "{\"projects\": {\"x\": \"u\"}}"));
    assert_eq!(
        unprobed_dirs(&snapshot, "/w", None),
        vec!["/w/a/x".to_string(), "/w/b".to_string()]
    );
    assert_eq!(unprobed_dirs(&snapshot, "/w", Some(0)), vec!["/w/b".to_string()]);
    snapshot.record(absent("/w/b"));
    snapshot.record(plain_dir("/w/a/x"));
    assert_eq!(unprobed_dirs(&snapshot, "/w", None), Vec::<String>::new());
}

#[test]
fn unprobed_is_empty_where_the_root_has_no_manifest() {
    let snapshot = snapshot_of(vec![plain_dir("/w")]);
    assert_eq!(unprobed_dirs(&snapshot, "/w", None), Vec::<String>::new());
}

#[test]
fn later_findings_about_other_paths_do_not_change_a_settled_walk() {
    let mut snapshot = nested();
    assert_eq!(unprobed_dirs(&snapshot, "/w", None), Vec::<String>::new());
    let before = walk(&snapshot, "/w", None).unwrap();
    snapshot.record(workspace("/elsewhere", "{\"projects\": {\"q\": \"u\"}}"));
    snapshot.record(plain_dir("/w/unrelated"));
    assert_eq!(walk(&snapshot, "/w", None).unwrap(), before);
}

#[test]
fn walk_with_unreadable_root_manifest_is_an_io_error() {
    let snapshot = snapshot_of(vec![DirProbe::observe(
        "/w",
        true,
        &vec![FileProbe {
            name: ".meta".to_string(),
            content: FileContent::Unreadable("denied".to_string()),
        }],
    )]);
    assert_eq!(
        walk(&snapshot, "/w", Some(3)),
        Err(WalkError::Parse(ParseError::Io("denied".to_string())))
    );
}

#[test]
fn walk_errors_say_what_went_wrong() {
    assert_eq!(
        WalkError::ConfigNotFound("/w".to_string()).message(),
        "no manifest found at /w"
    );
    assert_eq!(
        WalkError::Parse(ParseError::Io("denied".to_string())).message(),
        "failed to parse manifest: denied"
    );
    assert_eq!(
        ParseError::Format("expected value".to_string()).message(),
        "failed to parse manifest: expected value"
    );
}

#[test]
fn unreadable_nested_manifest_is_a_leaf() {
    let snapshot = snapshot_of(vec![
        workspace("/w", "{\"projects\": {\"locked\": \"u\"}}"),
        DirProbe::observe(
            "/w/locked",
            true,
            &vec![FileProbe {
                name: ".meta".to_string(),
                content: FileContent::Unreadable("denied".to_string()),
            }],
        ),
    ]);
    assert_eq!(walk(&snapshot, "/w", None).unwrap(), vec![leaf("locked", "locked", "u", true)]);
}

#[test]
fn walk_from_a_root_with_a_trailing_separator() {
    let snapshot = snapshot_of(vec![
        workspace("/w/", "{\"projects\": {\"a\": \"u\"}}"),
        workspace("/w/a", "{\"projects\": {\"b\": \"v\"}}"),
    ]);
    let nodes = walk(&snapshot, "/w/", None).unwrap();
    let mut a = leaf("a", "a", "u", true);
    a.children = vec![leaf("b", "a/b", "v", false)];
    assert_eq!(nodes, vec![a]);
}
