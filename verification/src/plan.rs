//! Fetch plans: one command for each missing project.

use crate::json::{Json, JsonView, Member};
use crate::manifest::ProjectRecordView;
use crate::reconcile::{
    lemma_standing_keeps_order, missing_of, place_of, to_fetch, MissingProject,
    MissingProjectView, Standing,
};
use crate::snapshot::DirProbeView;
use crate::text::{decimal, decimal_digits, join, join_path};
use vstd::prelude::*;

verus! {

/// One unit of work for the command runner.
#[derive(Clone, Debug, PartialEq, Eq)]
pub struct PlannedCommand {
    /// The directory to run the command in.
    pub dir: String,
    /// The command, as one shell invocation.
    pub cmd: String,
    /// Environment variables to set for the command, if any.
    pub env: Option<Vec<(String, String)>>,
}

/// The value of a [`PlannedCommand`].
pub ghost struct PlannedCommandView {
    pub dir: Seq<char>,
    pub cmd: Seq<char>,
    pub env: Option<Seq<(Seq<char>, Seq<char>)>>,
}

impl View for PlannedCommand {
    type V = PlannedCommandView;

    open spec fn view(&self) -> PlannedCommandView {
        PlannedCommandView { dir: self.dir@, cmd: self.cmd@, env: self.env.deep_view() }
    }
}

impl DeepView for PlannedCommand {
    type V = PlannedCommandView;

    open spec fn deep_view(&self) -> PlannedCommandView {
        self@
    }
}

/// The commands to run, in order, and how to run them.
#[derive(Clone, Debug, PartialEq, Eq)]
pub struct ExecutionPlan {
    pub commands: Vec<PlannedCommand>,
    /// Whether the commands may run at the same time.
    pub parallel: bool,
    /// How many may run at the same time, where that is bounded.
    pub max_parallel: Option<usize>,
    /// Set where nothing is missing: the runner need not be called at all.
    pub nothing_to_do: bool,
}

/// The value of an [`ExecutionPlan`].
pub ghost struct ExecutionPlanView {
    pub commands: Seq<PlannedCommandView>,
    pub parallel: bool,
    pub max_parallel: Option<nat>,
    pub nothing_to_do: bool,
}

impl View for ExecutionPlan {
    type V = ExecutionPlanView;

    open spec fn view(&self) -> ExecutionPlanView {
        ExecutionPlanView {
            commands: self.commands.deep_view(),
            parallel: self.parallel,
            max_parallel: match self.max_parallel {
                Some(n) => Some(n as nat),
                None => None,
            },
            nothing_to_do: self.nothing_to_do,
        }
    }
}

/// The command that fetches a missing project of the workspace at `base`:
/// run at the workspace root, it clones the remote into the project's place.
pub open spec fn fetch_command(base: Seq<char>, missing: MissingProjectView) -> PlannedCommandView {
    PlannedCommandView {
        dir: base,
        cmd: "git clone "@ + missing.repo + " "@ + join(base, missing.path),
        env: None,
    }
}

/// The plan that fetches `missing`: the command of each, in the same order,
/// run one after the other.
pub open spec fn fetch_plan(missing: Seq<MissingProjectView>, base: Seq<char>)
    -> ExecutionPlanView {
    ExecutionPlanView {
        commands: Seq::new(missing.len(), |i: int| fetch_command(base, missing[i])),
        parallel: false,
        max_parallel: None,
        nothing_to_do: missing.len() == 0,
    }
}

/// Where nothing is missing the plan has no command and says that there is
/// nothing to do; where something is missing it says the opposite.
pub proof fn lemma_nothing_to_fetch(missing: Seq<MissingProjectView>, base: Seq<char>)
    ensures
        fetch_plan(missing, base).commands.len() == missing.len(),
        fetch_plan(missing, base).nothing_to_do <==> missing.len() == 0,
        fetch_plan(missing, base).nothing_to_do <==> fetch_plan(missing, base).commands.len() == 0,
        !fetch_plan(missing, base).parallel,
{
}

/// The plan for the missing projects of a manifest follows the manifest's
/// order: its `k`-th command fetches the `k`-th of the declared projects
/// that are missing, and a later command fetches a project that is declared
/// later.
pub proof fn lemma_plan_follows_manifest(
    declared: Seq<ProjectRecordView>,
    base: Seq<char>,
    snap: Seq<DirProbeView>,
    k: int,
)
    requires
        0 <= k < missing_of(declared, base, snap).len(),
    ensures
        ({
            let plan = fetch_plan(missing_of(declared, base, snap), base);
            let place = place_of(declared, base, snap, Standing::Missing, k);
            &&& plan.commands.len() == missing_of(declared, base, snap).len()
            &&& 0 <= place < declared.len()
            &&& plan.commands[k] == fetch_command(base, to_fetch(declared[place]))
            &&& k + 1 < plan.commands.len() ==> place < place_of(
                declared,
                base,
                snap,
                Standing::Missing,
                k + 1,
            )
        }),
{
    lemma_standing_keeps_order(declared, base, snap, Standing::Missing, k);
}

fn fetch_command_for(base_dir: &str, missing: &MissingProject) -> (r: PlannedCommand)
    ensures
        r@ == fetch_command(base_dir@, missing@),
{
    let target = join_path(base_dir, missing.path.as_str());
    let cmd = String::from_str("git clone ").concat(missing.repo.as_str()).concat(" ").concat(
        target.as_str(),
    );
    PlannedCommand { dir: String::from_str(base_dir), cmd, env: None }
}

/// Plans the fetching of `missing` into the workspace at `base_dir`: the
/// i-th command fetches the i-th missing project. The plan is sequential.
/// Where nothing is missing it has no command and says so.
pub fn build_plan(missing: &Vec<MissingProject>, base_dir: &str) -> (r: ExecutionPlan)
    ensures
        r@ == fetch_plan(missing.deep_view(), base_dir@),
        r.commands.len() == missing.len(),
        forall|i: int|
            0 <= i < missing.len() ==> (#[trigger] r@.commands[i]) == fetch_command(
                base_dir@,
                missing[i]@,
            ),
        r.nothing_to_do <==> missing.len() == 0,
        !r.parallel,
{
    let mut commands: Vec<PlannedCommand> = Vec::new();
    let mut i: usize = 0;
    while i < missing.len()
        invariant
            i <= missing.len(),
            commands.len() == i,
            forall|k: int| 0 <= k < i ==> commands[k]@ == fetch_command(base_dir@, missing[k]@),
        decreases missing.len() - i,
    {
        commands.push(fetch_command_for(base_dir, &missing[i]));
        i += 1;
    }
    assert(commands.deep_view() =~= fetch_plan(missing.deep_view(), base_dir@).commands);
    ExecutionPlan {
        commands,
        parallel: false,
        max_parallel: None,
        nothing_to_do: missing.len() == 0,
    }
}

/// The members of an object that gives each variable its value.
pub open spec fn env_members(env: Seq<(Seq<char>, Seq<char>)>) -> Seq<(Seq<char>, JsonView)> {
    Seq::new(env.len(), |i: int| (env[i].0, JsonView::Text(env[i].1)))
}

/// The member `env` of a command's document; none where no variable is set.
pub open spec fn env_member(env: Option<Seq<(Seq<char>, Seq<char>)>>) -> Seq<
    (Seq<char>, JsonView),
> {
    match env {
        Some(vars) => seq![("env"@, JsonView::Object(env_members(vars)))],
        None => Seq::empty(),
    }
}

/// A command as a document: `dir`, `cmd`, and `env` where it is set.
pub open spec fn command_document(command: PlannedCommandView) -> JsonView {
    JsonView::Object(
        seq![("dir"@, JsonView::Text(command.dir)), ("cmd"@, JsonView::Text(command.cmd))]
            + env_member(command.env),
    )
}

/// The member `max_parallel` of a plan's document; none where there is no
/// bound.
pub open spec fn bound_member(max_parallel: Option<nat>) -> Seq<(Seq<char>, JsonView)> {
    match max_parallel {
        Some(n) => seq![("max_parallel"@, JsonView::Number(decimal_digits(n)))],
        None => Seq::empty(),
    }
}

/// A plan as the document that is handed to the runner: an object whose
/// member `plan` holds the commands and the parallelism.
pub open spec fn plan_document(plan: ExecutionPlanView) -> JsonView {
    JsonView::Object(
        seq![
            (
                "plan"@,
                JsonView::Object(
                    seq![
                        (
                            "commands"@,
                            JsonView::Array(
                                Seq::new(
                                    plan.commands.len(),
                                    |i: int| command_document(plan.commands[i]),
                                ),
                            ),
                        ),
                        ("parallel"@, JsonView::Bool(plan.parallel)),
                    ] + bound_member(plan.max_parallel),
                ),
            ),
        ],
    )
}

impl PlannedCommand {
    /// The command as a document.
    pub fn to_json(&self) -> (r: Json)
        ensures
            r@ == command_document(self@),
    {
        let mut members: Vec<Member> = Vec::new();
        members.push(Member::new("dir", Json::Text(self.dir.clone())));
        members.push(Member::new("cmd", Json::Text(self.cmd.clone())));
        match &self.env {
            Some(vars) => {
                let mut set: Vec<Member> = Vec::new();
                let mut i: usize = 0;
                while i < vars.len()
                    invariant
                        i <= vars.len(),
                        set.len() == i,
                        forall|k: int|
                            0 <= k < i ==> set[k]@ == (vars[k].0@, JsonView::Text(vars[k].1@)),
                    decreases vars.len() - i,
                {
                    set.push(Member::new(vars[i].0.as_str(), Json::Text(vars[i].1.clone())));
                    i += 1;
                }
                assert(set.deep_view() =~= env_members(vars.deep_view()));
                members.push(Member::new("env", Json::object(set)));
            },
            None => {},
        }
        assert(members.deep_view() =~= command_document(self@)->Object_0);
        Json::object(members)
    }
}

impl ExecutionPlan {
    /// The same plan, to be run in parallel, at most `max_parallel` commands
    /// at a time where a bound is given.
    pub fn in_parallel(self, max_parallel: Option<usize>) -> (r: ExecutionPlan)
        ensures
            r@.commands == self@.commands,
            r@.nothing_to_do == self@.nothing_to_do,
            r@.parallel,
            r.max_parallel == max_parallel,
    {
        ExecutionPlan {
            commands: self.commands,
            parallel: true,
            max_parallel,
            nothing_to_do: self.nothing_to_do,
        }
    }

    /// The plan as the document that is handed to the runner.
    pub fn to_json(&self) -> (r: Json)
        ensures
            r@ == plan_document(self@),
    {
        let mut commands: Vec<Json> = Vec::new();
        let mut i: usize = 0;
        while i < self.commands.len()
            invariant
                i <= self.commands.len(),
                commands.len() == i,
                forall|k: int| 0 <= k < i ==> commands[k]@ == command_document(self.commands[k]@),
            decreases self.commands.len() - i,
        {
            commands.push(self.commands[i].to_json());
            i += 1;
        }
        assert(commands.deep_view() =~= Seq::new(
            self@.commands.len(),
            |i: int| command_document(self@.commands[i]),
        ));
        let mut inner: Vec<Member> = Vec::new();
        inner.push(Member::new("commands", Json::array(commands)));
        inner.push(Member::new("parallel", Json::Bool(self.parallel)));
        match self.max_parallel {
            Some(n) => {
                inner.push(Member::new("max_parallel", Json::Number(decimal(n))));
            },
            None => {},
        }
        assert(inner.deep_view() =~= plan_document(self@)->Object_0[0].1->Object_0);
        let mut outer: Vec<Member> = Vec::new();
        outer.push(Member::new("plan", Json::object(inner)));
        assert(outer.deep_view() =~= plan_document(self@)->Object_0);
        Json::object(outer)
    }
}

} // verus!
