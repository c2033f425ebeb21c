//! The plugin's face: its name, its commands, and what each command answers.

use crate::json::{Json, JsonView, Member};
use crate::manifest::ProjectRecordView;
use crate::plan::{build_plan, fetch_plan, ExecutionPlan, ExecutionPlanView};
use crate::reconcile::{
    find_missing_projects, missing_of, records_standing, MissingProject, MissingProjectView,
    Standing,
};
use crate::render::{render_structured, render_text, structured_nodes, tree_text};
use crate::snapshot::{
    manifest_of, probe_of, DirProbeView, ManifestState, ManifestStateView, Snapshot,
};
use crate::text::{decimal, decimal_digits, join, join_path};
use crate::tree::{
    lemma_later_findings, lemma_level_known, lemma_level_settled, levels, nodes_below, tree_nodes,
    unprobed, unprobed_dirs, TreeNode, TreeNodeView, WalkErrorView,
};
use vstd::prelude::*;

verus! {

/// The project plugin.
#[derive(Clone, Copy, Debug, Default)]
pub struct ProjectPlugin;

/// What the caller asks for beside the command itself.
#[derive(Clone, Copy, Debug, Default, PartialEq, Eq)]
pub struct ExecuteOptions {
    /// Answer a listing as a structured document instead of text.
    pub json_output: bool,
    /// List the projects of nested workspaces too.
    pub recursive: bool,
    /// How many nested levels a recursive listing goes down; `None`: all.
    pub depth: Option<usize>,
    /// Let the fetch commands of a plan run at the same time.
    pub parallel: bool,
}

/// One call of the plugin.
#[derive(Clone, Debug, PartialEq, Eq)]
pub struct Request {
    pub command: String,
    pub args: Vec<String>,
    /// The directory of the workspace that the command is about.
    pub cwd: String,
    pub options: ExecuteOptions,
    /// The remote of the workspace's own repository, where it has one.
    pub root_repo: Option<String>,
}

/// A line for the operator about one missing project.
#[derive(Clone, Debug, PartialEq, Eq)]
pub struct MissingNotice {
    pub name: String,
    pub url: String,
    /// Where the project would be fetched to.
    pub target: String,
}

/// The value of a [`MissingNotice`].
pub ghost struct MissingNoticeView {
    pub name: Seq<char>,
    pub url: Seq<char>,
    pub target: Seq<char>,
}

impl View for MissingNotice {
    type V = MissingNoticeView;

    open spec fn view(&self) -> MissingNoticeView {
        MissingNoticeView { name: self.name@, url: self.url@, target: self.target@ }
    }
}

impl DeepView for MissingNotice {
    type V = MissingNoticeView;

    open spec fn deep_view(&self) -> MissingNoticeView {
        self@
    }
}

/// What a command answers.
#[derive(Debug, PartialEq, Eq)]
pub enum Response {
    Message(String),
    Structured(Json),
    Plan(ExecutionPlan),
    Error(String),
}

/// The value of a [`Response`].
pub ghost enum ResponseView {
    Message(Seq<char>),
    Structured(JsonView),
    Plan(ExecutionPlanView),
    Error(Seq<char>),
}

impl View for Response {
    type V = ResponseView;

    open spec fn view(&self) -> ResponseView {
        match self {
            Response::Message(text) => ResponseView::Message(text@),
            Response::Structured(document) => ResponseView::Structured(document@),
            Response::Plan(plan) => ResponseView::Plan(plan@),
            Response::Error(text) => ResponseView::Error(text@),
        }
    }
}

/// The answer to a call: the response, and the missing projects to tell the
/// operator of.
#[derive(Debug, PartialEq, Eq)]
pub struct Reply {
    pub notices: Vec<MissingNotice>,
    pub response: Response,
}

/// The value of a [`Reply`].
pub ghost struct ReplyView {
    pub notices: Seq<MissingNoticeView>,
    pub response: ResponseView,
}

impl View for Reply {
    type V = ReplyView;

    open spec fn view(&self) -> ReplyView {
        ReplyView { notices: self.notices.deep_view(), response: self.response@ }
    }
}

/// The commands that the plugin answers.
pub open spec fn command_names() -> Seq<Seq<char>> {
    seq![
        "project list"@,
        "project ls"@,
        "project check"@,
        "project sync"@,
        "project update"@,
    ]
}

/// The notices for `missing`, in the same order: each project by its path,
/// with its remote and its place below `cwd`.
pub open spec fn notices_of(missing: Seq<MissingProjectView>, cwd: Seq<char>) -> Seq<
    MissingNoticeView,
> {
    Seq::new(
        missing.len(),
        |i: int|
            MissingNoticeView {
                name: missing[i].path,
                url: missing[i].repo,
                target: join(cwd, missing[i].path),
            },
    )
}

/// What a check reports of `count` missing projects.
pub open spec fn check_message(count: nat) -> Seq<char> {
    if count == 0 {
        "All projects are cloned and present."@
    } else {
        decimal_digits(count) + " project(s) missing"@
    }
}

/// The text of a remote that may be absent.
pub open spec fn remote_text(repo: Option<Seq<char>>) -> Seq<char> {
    match repo {
        Some(url) => url,
        None => Seq::empty(),
    }
}

/// A listing as text: a line for the root with its remote, then the tree.
pub open spec fn listing_text(root_repo: Option<Seq<char>>, nodes: Seq<TreeNodeView>) -> Seq<char> {
    ". ("@ + remote_text(root_repo) + ")\n"@ + tree_text(nodes, Seq::empty())
}

/// A listing as a document: the root's path and remote, and the tree.
pub open spec fn listing_document(root_repo: Option<Seq<char>>, nodes: Seq<TreeNodeView>)
    -> JsonView {
    JsonView::Object(
        seq![
            ("path"@, JsonView::Text("."@)),
            ("repo"@, JsonView::Text(remote_text(root_repo))),
            ("projects"@, JsonView::Array(structured_nodes(nodes))),
        ],
    )
}

/// The depth that a listing walks to: the root's projects alone unless the
/// listing is recursive.
pub open spec fn listing_depth(recursive: bool, depth: Option<usize>) -> Option<nat> {
    if recursive {
        levels(depth)
    } else {
        Some(0nat)
    }
}

/// Whether `command` is a command of the plugin without the plugin's name
/// in front.
pub open spec fn bare_command(command: Seq<char>) -> bool {
    command == "list"@ || command == "ls"@ || command == "check"@ || command == "sync"@
        || command == "update"@
}

/// What is said of a command that the plugin does not have; where the
/// plugin's name alone is left out, the full command is pointed to.
pub open spec fn unrecognized(command: Seq<char>) -> Seq<char> {
    if bare_command(command) {
        "unrecognized command '"@ + command + "' (did you mean 'project "@ + command + "'?)"@
    } else {
        "unrecognized command '"@ + command + "'"@
    }
}

/// What an answer depends on in a [`Request`]: all of it but the arguments.
pub ghost struct RequestView {
    pub command: Seq<char>,
    pub cwd: Seq<char>,
    pub json_output: bool,
    pub recursive: bool,
    pub depth: Option<usize>,
    pub parallel: bool,
    pub root_repo: Option<Seq<char>>,
}

impl View for Request {
    type V = RequestView;

    open spec fn view(&self) -> RequestView {
        RequestView {
            command: self.command@,
            cwd: self.cwd@,
            json_output: self.options.json_output,
            recursive: self.options.recursive,
            depth: self.options.depth,
            parallel: self.options.parallel,
            root_repo: self.root_repo.deep_view(),
        }
    }
}

/// The response to a command in a workspace whose manifest declares
/// `records`.
pub open spec fn response_to(
    request: RequestView,
    records: Seq<ProjectRecordView>,
    snap: Seq<DirProbeView>,
) -> ResponseView {
    let missing = missing_of(records, request.cwd, snap);
    if request.command == "project check"@ {
        ResponseView::Message(check_message(missing.len()))
    } else if request.command == "project sync"@ || request.command == "project update"@ {
        if missing.len() == 0 {
            ResponseView::Message("All projects are cloned and present. Nothing to do."@)
        } else {
            ResponseView::Plan(
                ExecutionPlanView {
                    parallel: request.parallel,
                    ..fetch_plan(missing, request.cwd)
                },
            )
        }
    } else if request.command == "project list"@ || request.command == "project ls"@ {
        let nodes = tree_nodes(
            snap,
            request.cwd,
            Seq::empty(),
            listing_depth(request.recursive, request.depth),
            records,
            records.len() as int,
        );
        if request.json_output {
            ResponseView::Structured(listing_document(request.root_repo, nodes))
        } else {
            ResponseView::Message(listing_text(request.root_repo, nodes))
        }
    } else {
        ResponseView::Error(unrecognized(request.command))
    }
}

/// The depth to which a command reads the workspace: a listing as far as it
/// lists, every other command the root's projects alone.
pub open spec fn reading_depth(request: RequestView) -> Option<nat> {
    if request.command == "project list"@ || request.command == "project ls"@ {
        listing_depth(request.recursive, request.depth)
    } else {
        Some(0nat)
    }
}

/// The answer to a call. Without a usable manifest in the working directory
/// every command fails; with one, the missing projects are always told of.
pub open spec fn reply_to(request: RequestView, snap: Seq<DirProbeView>) -> ReplyView {
    match manifest_of(snap, request.cwd) {
        ManifestStateView::Absent => ReplyView {
            notices: Seq::empty(),
            response: ResponseView::Error(
                WalkErrorView::ConfigNotFound(request.cwd).message(),
            ),
        },
        ManifestStateView::Failed(error) => ReplyView {
            notices: Seq::empty(),
            response: ResponseView::Error(WalkErrorView::Parse(error).message()),
        },
        ManifestStateView::Declared(records) => ReplyView {
            notices: notices_of(missing_of(records, request.cwd, snap), request.cwd),
            response: response_to(request, records, snap),
        },
    }
}

/// A command is answered with a plan only where something is to be
/// fetched: the runner is never handed a plan without commands.
pub proof fn lemma_plan_has_work(
    request: RequestView,
    records: Seq<ProjectRecordView>,
    snap: Seq<DirProbeView>,
)
    ensures
        response_to(request, records, snap) matches ResponseView::Plan(plan) ==> {
            &&& plan.commands.len() == missing_of(records, request.cwd, snap).len()
            &&& plan.commands.len() > 0
            &&& !plan.nothing_to_do
            &&& plan.parallel == request.parallel
        },
{
}

/// In a workspace with a usable manifest, the commands that are refused
/// are exactly those that the plugin does not name.
pub proof fn lemma_refused_commands(
    request: RequestView,
    records: Seq<ProjectRecordView>,
    snap: Seq<DirProbeView>,
)
    ensures
        response_to(request, records, snap) is Error <==> !command_names().contains(
            request.command,
        ),
{
    let names = command_names();
    if request.command == "project list"@ {
        assert(names[0] == request.command);
    } else if request.command == "project ls"@ {
        assert(names[1] == request.command);
    } else if request.command == "project check"@ {
        assert(names[2] == request.command);
    } else if request.command == "project sync"@ {
        assert(names[3] == request.command);
    } else if request.command == "project update"@ {
        assert(names[4] == request.command);
    }
}

/// Findings that leave the directories of the declared projects as they
/// are leave each list of the reconciliation as it is.
proof fn lemma_standing_settled(
    declared: Seq<ProjectRecordView>,
    base: Seq<char>,
    snap: Seq<DirProbeView>,
    later: Seq<DirProbeView>,
    wanted: Standing,
)
    requires
        forall|i: int|
            0 <= i < declared.len() ==> probe_of(later, join(base, (#[trigger] declared[i]).path))
                == probe_of(snap, join(base, declared[i].path)),
    ensures
        records_standing(declared, base, later, wanted) == records_standing(
            declared,
            base,
            snap,
            wanted,
        ),
    decreases declared.len(),
{
    if declared.len() > 0 {
        let head = declared.drop_last();
        assert forall|i: int| 0 <= i < head.len() implies probe_of(
            later,
            join(base, (#[trigger] head[i]).path),
        ) == probe_of(snap, join(base, head[i].path)) by {
            assert(head[i] == declared[i]);
        }
        lemma_standing_settled(head, base, snap, later, wanted);
        assert(declared.last() == declared[declared.len() - 1]);
    }
}

/// Once `required_probes` asks for nothing more, the answer stands: what is
/// recorded later, about paths that were not known, does not change it.
pub proof fn lemma_reply_settled(
    request: RequestView,
    snap: Seq<DirProbeView>,
    more: Seq<DirProbeView>,
)
    requires
        unprobed(snap, request.cwd, reading_depth(request)).len() == 0,
        forall|i: int| 0 <= i < more.len() ==> probe_of(snap, (#[trigger] more[i]).path) is None,
    ensures
        reply_to(request, snap + more) == reply_to(request, snap),
{
    lemma_later_findings(snap, more, request.cwd);
    match manifest_of(snap, request.cwd) {
        ManifestStateView::Declared(records) => {
            let depth = reading_depth(request);
            assert forall|i: int| 0 <= i < records.len() implies probe_of(
                snap + more,
                join(request.cwd, (#[trigger] records[i]).path),
            ) == probe_of(snap, join(request.cwd, records[i].path)) by {
                lemma_level_known(snap, request.cwd, depth, records, records.len() as int, i);
                lemma_later_findings(snap, more, join(request.cwd, records[i].path));
            }
            lemma_standing_settled(records, request.cwd, snap, snap + more, Standing::Missing);
            lemma_level_settled(
                snap,
                more,
                request.cwd,
                Seq::empty(),
                depth,
                records,
                records.len() as int,
            );
        },
        _ => {},
    }
}

fn refusal(text: String) -> (r: Reply)
    ensures
        r@ == (ReplyView { notices: Seq::empty(), response: ResponseView::Error(text@) }),
{
    let notices: Vec<MissingNotice> = Vec::new();
    assert(notices.deep_view() =~= Seq::empty());
    Reply { notices, response: Response::Error(text) }
}

fn same_text(a: &str, b: &str) -> (r: bool)
    ensures
        r == (a@ == b@),
{
    String::from_str(a) == String::from_str(b)
}

/// The notices for `missing`, in the same order.
pub fn missing_notices(missing: &Vec<MissingProject>, cwd: &str) -> (r: Vec<MissingNotice>)
    ensures
        r.deep_view() == notices_of(missing.deep_view(), cwd@),
{
    let mut out: Vec<MissingNotice> = Vec::new();
    let mut i: usize = 0;
    while i < missing.len()
        invariant
            i <= missing.len(),
            out.len() == i,
            forall|k: int|
                0 <= k < i ==> out[k]@ == notices_of(missing.deep_view(), cwd@)[k],
        decreases missing.len() - i,
    {
        out.push(
            MissingNotice {
                name: missing[i].path.clone(),
                url: missing[i].repo.clone(),
                target: join_path(cwd, missing[i].path.as_str()),
            },
        );
        i += 1;
    }
    assert(out.deep_view() =~= notices_of(missing.deep_view(), cwd@));
    out
}

/// What a check reports of `count` missing projects.
pub fn check_report(count: usize) -> (r: String)
    ensures
        r@ == check_message(count as nat),
{
    if count == 0 {
        String::from_str("All projects are cloned and present.")
    } else {
        decimal(count).concat(" project(s) missing")
    }
}

fn remote_or_empty(root_repo: &Option<String>) -> (r: String)
    ensures
        r@ == remote_text(root_repo.deep_view()),
{
    match root_repo {
        Some(url) => url.clone(),
        None => String::new(),
    }
}

/// A listing as text: a line for the root with its remote, then the tree.
pub fn list_text(root_repo: &Option<String>, nodes: &Vec<TreeNode>) -> (r: String)
    ensures
        r@ == listing_text(root_repo.deep_view(), nodes.deep_view()),
{
    proof {
        reveal_strlit("");
        assert(""@ =~= Seq::<char>::empty());
    }
    let tree = render_text(nodes, "");
    let remote = remote_or_empty(root_repo);
    String::from_str(". (").concat(remote.as_str()).concat(")\n").concat(tree.as_str())
}

/// A listing as a document: the root's path and remote, and the tree.
pub fn list_structured(root_repo: &Option<String>, nodes: &Vec<TreeNode>) -> (r: Json)
    ensures
        r@ == listing_document(root_repo.deep_view(), nodes.deep_view()),
{
    let mut members: Vec<Member> = Vec::new();
    members.push(Member::new("path", Json::text(".")));
    members.push(Member::new("repo", Json::Text(remote_or_empty(root_repo))));
    members.push(Member::new("projects", render_structured(nodes)));
    assert(members.deep_view() =~= listing_document(
        root_repo.deep_view(),
        nodes.deep_view(),
    )->Object_0);
    Json::object(members)
}

fn unrecognized_command(command: &str) -> (r: String)
    ensures
        r@ == unrecognized(command@),
{
    let bare = same_text(command, "list") || same_text(command, "ls") || same_text(
        command,
        "check",
    ) || same_text(command, "sync") || same_text(command, "update");
    if bare {
        String::from_str("unrecognized command '").concat(command).concat(
            "' (did you mean 'project ",
        ).concat(command).concat("'?)")
    } else {
        String::from_str("unrecognized command '").concat(command).concat("'")
    }
}

impl ProjectPlugin {
    /// The name under which the plugin registers.
    pub fn name(&self) -> (r: &'static str)
        ensures
            r@ == "project"@,
    {
        "project"
    }

    /// The commands that the plugin answers.
    pub fn commands(&self) -> (r: Vec<&'static str>)
        ensures
            r.deep_view() == command_names(),
    {
        let mut names: Vec<&'static str> = Vec::new();
        names.push("project list");
        names.push("project ls");
        names.push("project check");
        names.push("project sync");
        names.push("project update");
        assert(names.deep_view() =~= command_names());
        names
    }

    /// The directories that the answer to a call depends on and that are
    /// not in the snapshot yet. The caller looks at them, records what it
    /// finds and asks again, until none is left.
    pub fn required_probes(&self, request: &Request, snapshot: &Snapshot) -> (r: Vec<String>)
        ensures
            r.deep_view() == unprobed(snapshot@, request@.cwd, reading_depth(request@)),
    {
        let command = request.command.as_str();
        let depth = if same_text(command, "project list") || same_text(command, "project ls") {
            if request.options.recursive {
                request.options.depth
            } else {
                Some(0)
            }
        } else {
            Some(0)
        };
        unprobed_dirs(snapshot, request.cwd.as_str(), depth)
    }

    /// Answers a call from what was found on disk.
    pub fn execute(&self, request: &Request, snapshot: &Snapshot) -> (r: Reply)
        ensures
            r@ == reply_to(request@, snapshot@),
    {
        let cwd = request.cwd.as_str();
        let records = match snapshot.probe(cwd) {
            Some(probe) => match &probe.manifest {
                ManifestState::Declared(records) => records,
                ManifestState::Failed(error) => {
                    return refusal(error.message());
                },
                ManifestState::Absent => {
                    return refusal(String::from_str("no manifest found at ").concat(cwd));
                },
            },
            None => {
                return refusal(String::from_str("no manifest found at ").concat(cwd));
            },
        };
        let missing = find_missing_projects(records, cwd, snapshot);
        let notices = missing_notices(&missing, cwd);
        let command = request.command.as_str();
        let response = if same_text(command, "project check") {
            Response::Message(check_report(missing.len()))
        } else if same_text(command, "project sync") || same_text(command, "project update") {
            if missing.len() == 0 {
                Response::Message(
                    String::from_str("All projects are cloned and present. Nothing to do."),
                )
            } else {
                let plan = build_plan(&missing, cwd);
                Response::Plan(
                    ExecutionPlan {
                        commands: plan.commands,
                        parallel: request.options.parallel,
                        max_parallel: None,
                        nothing_to_do: plan.nothing_to_do,
                    },
                )
            }
        } else if same_text(command, "project list") || same_text(command, "project ls") {
            let depth = if request.options.recursive {
                request.options.depth
            } else {
                Some(0)
            };
            proof {
                reveal_strlit("");
                assert(""@ =~= Seq::<char>::empty());
            }
            let nodes = nodes_below(snapshot, cwd, "", depth, records);
            if request.options.json_output {
                Response::Structured(list_structured(&request.root_repo, &nodes))
            } else {
                Response::Message(list_text(&request.root_repo, &nodes))
            }
        } else {
            Response::Error(unrecognized_command(command))
        };
        Reply { notices, response }
    }
}

} // verus!
