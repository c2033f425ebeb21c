use meta_project::json::{Json, Member};
use meta_project::manifest::{FileContent, FileProbe};
use meta_project::plan::{ExecutionPlan, PlannedCommand};
use meta_project::plugin::{
    check_report, list_structured, list_text, missing_notices, ExecuteOptions, MissingNotice,
    Reply, Request, Response,
};
use meta_project::reconcile::MissingProject;
use meta_project::snapshot::{DirProbe, Snapshot};
use meta_project::ProjectPlugin;

/// A directory of a made-up disk: its path and, if it holds one, the text
/// of its manifest.
fn look(disk: &[(&str, Option<&str>)], path: &str) -> DirProbe {
    match disk.iter().find(|(dir, _)| *dir == path) {
        Some((_, Some(text))) => DirProbe::observe(
            path,
            true,
            &vec![FileProbe {
                name: ".meta".to_string(),
                content: FileContent::Text(text.to_string()),
            }],
        ),
        Some((_, None)) => DirProbe::observe(path, true, &vec![]),
        None => DirProbe::observe(path, false, &vec![]),
    }
}

/// Looks at the disk until the plugin asks for nothing more, then answers.
fn run(disk: &[(&str, Option<&str>)], request: &Request) -> Reply {
    let plugin = ProjectPlugin;
    let mut snapshot = Snapshot::new();
    let mut rounds = 0;
    loop {
        let wanted = plugin.required_probes(request, &snapshot);
        if wanted.is_empty() {
            break;
        }
        for path in wanted {
            snapshot.record(look(disk, &path));
        }
        rounds += 1;
        assert!(rounds < 100, "probing does not settle");
    }
    plugin.execute(request, &snapshot)
}

fn request(command: &str) -> Request {
    Request {
        command: command.to_string(),
        args: vec![],
        cwd: "/w".to_string(),
        options: ExecuteOptions::default(),
        root_repo: None,
    }
}

const ALPHA: &str = "{\"projects\": {\"alpha\": \"https://x/a.git\"}}";

fn alpha_notice() -> MissingNotice {
    MissingNotice {
        name: "alpha".to_string(),
        url: "https://x/a.git".to_string(),
        target: "/w/alpha".to_string(),
    }
}

#[test]
fn plugin_is_called_project() {
    assert_eq!(ProjectPlugin.name(), "project");
}

#[test]
fn plugin_names_its_commands() {
    assert_eq!(
        ProjectPlugin.commands(),
        vec!["project list", "project ls", "project check", "project sync", "project update"]
    );
}

#[test]
fn check_report_counts_the_missing() {
    assert_eq!(check_report(0), "All projects are cloned and present.");
    assert_eq!(check_report(1), "1 project(s) missing");
    assert_eq!(check_report(12), "12 project(s) missing");
}

#[test]
fn check_with_one_missing_project() {
    let reply = run(&[("/w", Some(ALPHA))], &request("project check"));
    assert_eq!(reply.response, Response::Message("1 project(s) missing".to_string()));
    assert_eq!(reply.notices, vec![alpha_notice()]);
}

#[test]
fn sync_with_one_missing_project_plans_one_clone() {
    let reply = run(&[("/w", Some(ALPHA))], &request("project sync"));
    match &reply.response {
        Response::Plan(plan) => {
            assert_eq!(plan.commands.len(), 1);
            assert!(plan.commands[0].cmd.contains("https://x/a.git"));
            assert!(!plan.parallel);
        }
        other => panic!("expected a plan, got {:?}", other),
    }
    assert_eq!(
        reply.response,
        Response::Plan(ExecutionPlan {
            commands: vec![PlannedCommand {
                dir: "/w".to_string(),
                cmd: "git clone https://x/a.git /w/alpha".to_string(),
                env: None,
            }],
            parallel: false,
            max_parallel: None,
            nothing_to_do: false,
        })
    );
    assert_eq!(reply.notices, vec![alpha_notice()]);
}

#[test]
fn update_plans_as_sync_does() {
    let disk = [("/w", Some(ALPHA))];
    assert_eq!(run(&disk, &request("project update")), run(&disk, &request("project sync")));
}

#[test]
fn sync_in_parallel_where_the_caller_asks_for_it() {
    let mut parallel = request("project sync");
    parallel.options.parallel = true;
    match run(&[("/w", Some(ALPHA))], &parallel).response {
        Response::Plan(plan) => assert!(plan.parallel),
        other => panic!("expected a plan, got {:?}", other),
    }
}

#[test]
fn check_with_an_empty_manifest() {
    let reply = run(&[("/w", Some("{\"projects\": {}}"))], &request("project check"));
    assert_eq!(
        reply.response,
        Response::Message("All projects are cloned and present.".to_string())
    );
    assert!(reply.notices.is_empty());
}

#[test]
fn check_where_everything_is_present() {
    let reply = run(&[("/w", Some(ALPHA)), ("/w/alpha", None)], &request("project check"));
    assert_eq!(
        reply.response,
        Response::Message("All projects are cloned and present.".to_string())
    );
    assert!(reply.notices.is_empty());
}

#[test]
fn sync_with_nothing_missing_is_a_message_not_a_plan() {
    let reply = run(&[("/w", Some(ALPHA)), ("/w/alpha", None)], &request("project sync"));
    assert_eq!(
        reply.response,
        Response::Message("All projects are cloned and present. Nothing to do.".to_string())
    );
    assert!(reply.notices.is_empty());
}

#[test]
fn every_command_fails_without_a_manifest() {
    for command in ["project check", "project sync", "project list", "nonsense"] {
        let reply = run(&[("/w", None)], &request(command));
        assert_eq!(reply.response, Response::Error("no manifest found at /w".to_string()));
        assert!(reply.notices.is_empty());
    }
    let nowhere = run(&[], &request("project check"));
    assert_eq!(nowhere.response, Response::Error("no manifest found at /w".to_string()));
}

#[test]
fn every_command_fails_on_an_unusable_manifest() {
    let reply = run(&[("/w", Some("{\"projects\": []}"))], &request("project check"));
    assert_eq!(
        reply.response,
        Response::Error("failed to parse manifest: No 'projects' key in .meta".to_string())
    );
    match run(&[("/w", Some("{oops"))], &request("project list")).response {
        Response::Error(text) => {
            assert!(text.starts_with("failed to parse manifest: "), "text was {:?}", text);
            assert!(text.len() > "failed to parse manifest: ".len());
        }
        other => panic!("expected an error, got {:?}", other),
    }
}

#[test]
fn unknown_command_is_refused_by_name() {
    let reply = run(&[("/w", Some(ALPHA))], &request("project frobnicate"));
    assert_eq!(
        reply.response,
        Response::Error("unrecognized command 'project frobnicate'".to_string())
    );
    assert_eq!(reply.notices, vec![alpha_notice()]);
}

#[test]
fn bare_command_is_pointed_to_the_full_one() {
    let reply = run(&[("/w", Some(ALPHA))], &request("check"));
    assert_eq!(
        reply.response,
        Response::Error(
            "unrecognized command 'check' (did you mean 'project check'?)".to_string()
        )
    );
    for bare in ["list", "ls", "sync", "update"] {
        match run(&[("/w", Some(ALPHA))], &request(bare)).response {
            Response::Error(text) => assert_eq!(
                text,
                format!("unrecognized command '{}' (did you mean 'project {}'?)", bare, bare)
            ),
            other => panic!("expected an error, got {:?}", other),
        }
    }
}

const NESTED: [(&str, Option<&str>); 3] = [
    ("/w", Some("{\"projects\": {\"child\": \"u-child\"}}")),
    ("/w/child", Some("{\"projects\": {\"grandchild\": \"u-grand\"}}")),
    ("/w/child/grandchild", None),
];

#[test]
fn recursive_structured_listing_of_two_levels() {
    let mut list = request("project list");
    list.options.recursive = true;
    list.options.json_output = true;
    list.root_repo = Some("u-root".to_string());
    let reply = run(&NESTED, &list);
    assert_eq!(
        reply.response,
        Response::Structured(Json::object(vec![
            Member::new("path", Json::text(".")),
            Member::new("repo", Json::text("u-root")),
            Member::new(
                "projects",
                Json::array(vec![Json::object(vec![
                    Member::new("name", Json::text("child")),
                    Member::new("path", Json::text("child")),
                    Member::new("repo", Json::text("u-child")),
                    Member::new("is_meta", Json::Bool(true)),
                    Member::new(
                        "children",
                        Json::array(vec![Json::object(vec![
                            Member::new("name", Json::text("grandchild")),
                            Member::new("path", Json::text("child/grandchild")),
                            Member::new("repo", Json::text("u-grand")),
                            Member::new("is_meta", Json::Bool(false)),
                        ])]),
                    ),
                ])]),
            ),
        ]))
    );
    assert!(reply.notices.is_empty());
}

#[test]
fn flat_listing_marks_the_nested_workspace_and_stops() {
    let mut list = request("project ls");
    list.options.json_output = true;
    let reply = run(&NESTED, &list);
    assert_eq!(
        reply.response,
        Response::Structured(Json::object(vec![
            Member::new("path", Json::text(".")),
            Member::new("repo", Json::text("")),
            Member::new(
                "projects",
                Json::array(vec![Json::object(vec![
                    Member::new("name", Json::text("child")),
                    Member::new("path", Json::text("child")),
                    Member::new("repo", Json::text("u-child")),
                    Member::new("is_meta", Json::Bool(true)),
                ])]),
            ),
        ]))
    );
}

#[test]
fn recursive_listing_honours_the_depth() {
    let disk = [
        ("/w", Some("{\"projects\": {\"a\": \"u\"}}")),
        ("/w/a", Some("{\"projects\": {\"b\": \"u\"}}")),
        ("/w/a/b", Some("{\"projects\": {\"c\": \"u\"}}")),
        ("/w/a/b/c", None),
    ];
    let mut list = request("project list");
    list.options.recursive = true;
    list.options.depth = Some(1);
    assert_eq!(
        run(&disk, &list).response,
        Response::Message(". ()\n└── a (a)\n    └── b (a/b)\n".to_string())
    );
    list.options.depth = None;
    assert_eq!(
        run(&disk, &list).response,
        Response::Message(". ()\n└── a (a)\n    └── b (a/b)\n        └── c (a/b/c)\n".to_string())
    );
}

#[test]
fn text_listing_starts_with_the_root_and_its_remote() {
    let mut list = request("project list");
    list.root_repo = Some("git@h:root.git".to_string());
    let reply = run(
        &[("/w", Some("{\"projects\": {\"a\": \"u\", \"b\": \"v\"}}")), ("/w/a", None)],
        &list,
    );
    assert_eq!(
        reply.response,
        Response::Message(". (git@h:root.git)\n├── a (a)\n└── b (b)\n".to_string())
    );
    assert_eq!(
        reply.notices,
        vec![MissingNotice {
            name: "b".to_string(),
            url: "v".to_string(),
            target: "/w/b".to_string(),
        }]
    );
}

#[test]
fn probing_asks_only_for_what_the_command_reads() {
    let plugin = ProjectPlugin;
    let mut snapshot = Snapshot::new();
    let check = request("project check");
    assert_eq!(plugin.required_probes(&check, &snapshot), vec!["/w".to_string()]);
    snapshot.record(look(&NESTED, "/w"));
    assert_eq!(plugin.required_probes(&check, &snapshot), vec!["/w/child".to_string()]);
    snapshot.record(look(&NESTED, "/w/child"));
    assert!(plugin.required_probes(&check, &snapshot).is_empty());
    let mut list = request("project list");
    assert!(plugin.required_probes(&list, &snapshot).is_empty());
    list.options.recursive = true;
    assert_eq!(
        plugin.required_probes(&list, &snapshot),
        vec!["/w/child/grandchild".to_string()]
    );
}

#[test]
fn notices_name_the_project_its_remote_and_its_place() {
    let missing = vec![
        MissingProject { path: "libs/core".to_string(), repo: "u1".to_string() },
        MissingProject { path: "docs".to_string(), repo: "u2".to_string() },
    ];
    assert_eq!(
        missing_notices(&missing, "/w"),
        vec![
            MissingNotice {
                name: "libs/core".to_string(),
                url: "u1".to_string(),
                target: "/w/libs/core".to_string(),
            },
            MissingNotice {
                name: "docs".to_string(),
                url: "u2".to_string(),
                target: "/w/docs".to_string(),
            },
        ]
    );
    assert!(missing_notices(&vec![], "/w").is_empty());
}

#[test]
fn listing_of_an_empty_workspace() {
    assert_eq!(list_text(&None, &vec![]), ". ()\n");
    assert_eq!(list_text(&Some("u".to_string()), &vec![]), ". (u)\n");
    assert_eq!(
        list_structured(&None, &vec![]),
        Json::object(vec![
            Member::new("path", Json::text(".")),
            Member::new("repo", Json::text("")),
            Member::new("projects", Json::array(vec![])),
        ])
    );
}
