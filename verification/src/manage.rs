//! The decisions of the source-tree manager: which action is asked for, and which commands
//! each repository gets for it.
use vstd::prelude::*;
use crate::cli::arg_views;
use crate::text::{cat, chars_eq, chars_of, replace_all, replace_text, string_views, text_of};

verus! {

/// The actions of the source-tree manager.
#[derive(Debug, Clone, Copy, PartialEq, Eq, Structural)]
pub enum ManageAction {
    Update,
    Default,
    Init,
    Bupdate,
    Null,
    Release,
    Delete,
}

/// Why the manager refuses its arguments.
#[derive(Debug, Clone, Copy, PartialEq, Eq, Structural)]
pub enum ManageError {
    /// No action was given.
    MissingAction,
    /// The action would change the source tree on CI.
    RefusedOnCi,
    /// The action takes no further argument, yet some were given.
    UnexpectedArguments,
    /// `release` or `delete` was given without a tag name.
    MissingTag,
    /// `release` or `delete` was given more than one further argument.
    ExtraTagArguments,
    /// The action is none of the known ones.
    UnrecognizedAction,
}

/// An accepted request: the action and, for `release` and `delete`, the tag name.
pub struct ManageRequest {
    pub action: ManageAction,
    pub tag: String,
}

/// The action that `name` names.
pub open spec fn action_named(name: Seq<char>) -> Option<ManageAction> {
    if name == "update"@ {
        Some(ManageAction::Update)
    } else if name == "default"@ {
        Some(ManageAction::Default)
    } else if name == "init"@ {
        Some(ManageAction::Init)
    } else if name == "bupdate"@ {
        Some(ManageAction::Bupdate)
    } else if name == "null"@ {
        Some(ManageAction::Null)
    } else if name == "release"@ {
        Some(ManageAction::Release)
    } else if name == "delete"@ {
        Some(ManageAction::Delete)
    } else {
        None
    }
}

/// Whether the `IS_CI` variable says the manager runs on CI.
pub open spec fn on_ci(ci: Option<Seq<char>>) -> bool {
    ci == Some("true"@)
}

/// The request that the arguments and the `IS_CI` variable make, or why it is refused. On CI
/// only `init` is allowed; `release` and `delete` take exactly one tag name, the others
/// nothing.
pub open spec fn manage_request_of(args: Seq<Seq<char>>, ci: Option<Seq<char>>) -> Result<
    (ManageAction, Seq<char>),
    ManageError,
> {
    if args.len() < 2 {
        Err(ManageError::MissingAction)
    } else {
        match action_named(args[1]) {
            None => Err(ManageError::UnrecognizedAction),
            Some(a) => if a == ManageAction::Release || a == ManageAction::Delete {
                if on_ci(ci) {
                    Err(ManageError::RefusedOnCi)
                } else if args.len() < 3 {
                    Err(ManageError::MissingTag)
                } else if args.len() != 3 {
                    Err(ManageError::ExtraTagArguments)
                } else {
                    Ok((a, args[2]))
                }
            } else {
                if on_ci(ci) && a != ManageAction::Init {
                    Err(ManageError::RefusedOnCi)
                } else if args.len() != 2 {
                    Err(ManageError::UnexpectedArguments)
                } else {
                    Ok((a, Seq::empty()))
                }
            },
        }
    }
}

/// The characters of an optional string.
pub open spec fn opt_view(o: Option<String>) -> Option<Seq<char>> {
    match o {
        Some(s) => Some(s@),
        None => None,
    }
}

/// The action named `name`, if any.
pub fn parse_action(name: &String) -> (r: Option<ManageAction>)
    ensures
        r == action_named(name@),
{
    let n = chars_of(name.as_str());
    if chars_eq(&n, &chars_of("update")) {
        Some(ManageAction::Update)
    } else if chars_eq(&n, &chars_of("default")) {
        Some(ManageAction::Default)
    } else if chars_eq(&n, &chars_of("init")) {
        Some(ManageAction::Init)
    } else if chars_eq(&n, &chars_of("bupdate")) {
        Some(ManageAction::Bupdate)
    } else if chars_eq(&n, &chars_of("null")) {
        Some(ManageAction::Null)
    } else if chars_eq(&n, &chars_of("release")) {
        Some(ManageAction::Release)
    } else if chars_eq(&n, &chars_of("delete")) {
        Some(ManageAction::Delete)
    } else {
        None
    }
}

/// Checks the manager's arguments and the value of `IS_CI`.
pub fn manage_request(args: &Vec<String>, ci: Option<String>) -> (r: Result<ManageRequest, ManageError>)
    ensures
        match r {
            Ok(q) => manage_request_of(arg_views(args@), opt_view(ci)) == Ok::<
                (ManageAction, Seq<char>),
                ManageError,
            >((q.action, q.tag@)),
            Err(e) => manage_request_of(arg_views(args@), opt_view(ci)) == Err::<
                (ManageAction, Seq<char>),
                ManageError,
            >(e),
        },
{
    let on_ci = match &ci {
        Some(c) => chars_eq(&chars_of(c.as_str()), &chars_of("true")),
        None => false,
    };
    if args.len() < 2 {
        return Err(ManageError::MissingAction);
    }
    match parse_action(&args[1]) {
        None => Err(ManageError::UnrecognizedAction),
        Some(a) => {
            if a == ManageAction::Release || a == ManageAction::Delete {
                if on_ci {
                    Err(ManageError::RefusedOnCi)
                } else if args.len() < 3 {
                    Err(ManageError::MissingTag)
                } else if args.len() != 3 {
                    Err(ManageError::ExtraTagArguments)
                } else {
                    Ok(ManageRequest { action: a, tag: args[2].clone() })
                }
            } else {
                if on_ci && a != ManageAction::Init {
                    Err(ManageError::RefusedOnCi)
                } else if args.len() != 2 {
                    Err(ManageError::UnexpectedArguments)
                } else {
                    Ok(ManageRequest { action: a, tag: String::new() })
                }
            }
        },
    }
}

/// One thing for the manager to do, in order.
#[derive(Debug, Clone, PartialEq, Eq)]
pub enum Step {
    /// Print a line.
    Say { text: String },
    /// Run `program` with `args` and wait for it; where it cannot be started, stop with
    /// `failure`, a colon and the error (with no `failure`, carry on).
    Run { program: String, args: Vec<String>, failure: Option<String> },
    /// Change the working directory to `dir`; where that fails, stop with `failure`.
    Enter { dir: String, failure: String },
    /// Replace each `from` by `to` in the file `file`; where writing fails, stop with
    /// `failure`.
    Rewrite { file: String, from: String, to: String, failure: String },
    /// Run `git diff --quiet`, print `CHANGES=` and the changes flag, and where there are
    /// changes run `git` with `args`, stopping with `failure` where it cannot be started.
    CommitIfChanged { args: Vec<String>, failure: String },
    /// Read the branch name again from the build configuration.
    ReloadBranch,
    /// Rename the directory `from` to `to`; where that fails, stop with `failure`.
    Rename { from: String, to: String, failure: String },
}

/// The model of a step.
pub enum StepView {
    Say(Seq<char>),
    Run(Seq<char>, Seq<Seq<char>>, Option<Seq<char>>),
    Enter(Seq<char>, Seq<char>),
    Rewrite(Seq<char>, Seq<char>, Seq<char>, Seq<char>),
    CommitIfChanged(Seq<Seq<char>>, Seq<char>),
    ReloadBranch,
    Rename(Seq<char>, Seq<char>, Seq<char>),
}

impl View for Step {
    type V = StepView;

    open spec fn view(&self) -> StepView {
        match self {
            Step::Say { text } => StepView::Say(text@),
            Step::Run { program, args, failure } => StepView::Run(
                program@,
                string_views(args@),
                opt_view(*failure),
            ),
            Step::Enter { dir, failure } => StepView::Enter(dir@, failure@),
            Step::Rewrite { file, from, to, failure } => StepView::Rewrite(
                file@,
                from@,
                to@,
                failure@,
            ),
            Step::CommitIfChanged { args, failure } => StepView::CommitIfChanged(
                string_views(args@),
                failure@,
            ),
            Step::ReloadBranch => StepView::ReloadBranch,
            Step::Rename { from, to, failure } => StepView::Rename(from@, to@, failure@),
        }
    }
}

/// The models of a list of steps.
pub open spec fn step_views(v: Seq<Step>) -> Seq<StepView> {
    v.map_values(|s: Step| s@)
}

/// What the manager works with besides its request.
pub struct ManageContext {
    pub action: ManageAction,
    pub tag: String,
    pub branch: String,
    pub graphene_tag: String,
    pub graphene_tag_old: String,
    pub lineage_branch: String,
}

/// The model of a context.
pub struct ContextView {
    pub action: ManageAction,
    pub tag: Seq<char>,
    pub branch: Seq<char>,
    pub graphene_tag: Seq<char>,
    pub graphene_tag_old: Seq<char>,
    pub lineage_branch: Seq<char>,
}

impl View for ManageContext {
    type V = ContextView;

    open spec fn view(&self) -> ContextView {
        ContextView {
            action: self.action,
            tag: self.tag@,
            branch: self.branch@,
            graphene_tag: self.graphene_tag@,
            graphene_tag_old: self.graphene_tag_old@,
            lineage_branch: self.lineage_branch@,
        }
    }
}

/// A step that stops the manager with `failure` where the program cannot be started.
pub open spec fn run_or_stop(program: Seq<char>, args: Seq<Seq<char>>, failure: Seq<char>) -> StepView {
    StepView::Run(program, args, Some(failure))
}

/// The heading printed before a repository is handled.
pub open spec fn heading(name: Seq<char>) -> Seq<StepView> {
    seq![StepView::Say("\n>>> Handling "@ + name)]
}

/// Cloning `url` where the action is `init`.
pub open spec fn clone_steps(c: ContextView, url: Seq<char>, name: Seq<char>) -> Seq<StepView> {
    if c.action == ManageAction::Init {
        seq![run_or_stop("git"@, seq!["clone"@, url], "Error cloning "@ + name)]
    } else {
        seq![]
    }
}

/// Entering the repository's directory.
pub open spec fn enter_steps(name: Seq<char>) -> Seq<StepView> {
    seq![StepView::Enter(name, "Failed to change directory to "@ + name)]
}

/// Checking out the branch, or, for `bupdate`, creating it from `origin` and pushing it.
pub open spec fn checkout_steps(c: ContextView, name: Seq<char>) -> Seq<StepView> {
    if c.action != ManageAction::Bupdate {
        seq![run_or_stop("git"@, seq!["checkout"@, c.branch], "Error checking out branch "@ + c.branch)]
    } else {
        seq![
            run_or_stop("git"@, seq!["checkout"@, "origin"@], "Error checking out origin for "@ + name),
            run_or_stop("git"@, seq!["pull"@], "Error pulling changes for "@ + name),
            run_or_stop("git"@, seq!["switch"@, "-c"@, c.branch], "Error switching to branch "@ + c.branch),
            run_or_stop(
                "git"@,
                seq!["push"@, "--set-upstream"@, "origin"@, c.branch],
                "Error pushing "@ + c.branch + " to upstream"@,
            ),
        ]
    }
}

/// Pulling the current branch.
pub open spec fn pull_steps(name: Seq<char>) -> Seq<StepView> {
    seq![run_or_stop("git"@, seq!["pull"@], "Error pulling changes for "@ + name)]
}

/// Deleting the tag locally and remotely, whatever comes of it.
pub open spec fn delete_steps(c: ContextView) -> Seq<StepView> {
    seq![
        StepView::Run("git"@, seq!["tag"@, "-d"@, c.tag], None),
        StepView::Run("git"@, seq!["push"@, "origin"@, "--delete"@, c.tag], None),
    ]
}

/// Creating the signed release tag and pushing it.
pub open spec fn tag_steps(c: ContextView) -> Seq<StepView> {
    seq![
        run_or_stop("git"@, seq!["tag"@, "-s"@, c.tag, "-m"@, c.tag], "Error creating release tag "@ + c.tag),
        run_or_stop("git"@, seq!["push"@, "origin"@, c.tag], "Error pushing release tag "@ + c.tag),
    ]
}

/// Making the branch the default branch on GitHub.
pub open spec fn default_steps(c: ContextView, name: Seq<char>) -> Seq<StepView> {
    seq![
        run_or_stop(
            "gh"@,
            seq!["repo"@, "edit"@, "dot166/"@ + name, "--default-branch"@, c.branch],
            "Error editing default branch for "@ + name,
        ),
    ]
}

/// Adding the upstream remote and fetching its tags where the action is `init`.
pub open spec fn upstream_steps(c: ContextView, url: Seq<char>, name: Seq<char>) -> Seq<StepView> {
    if c.action == ManageAction::Init {
        seq![
            run_or_stop("git"@, seq!["remote"@, "add"@, "upstream"@, url], "Error adding upstream for "@ + name),
            run_or_stop("git"@, seq!["fetch"@, "upstream"@, "--tags"@], "Error fetching upstream tags for "@ + name),
        ]
    } else {
        seq![]
    }
}

/// Going back to the parent directory.
pub open spec fn leave_steps() -> Seq<StepView> {
    seq![StepView::Enter(".."@, "Failed to change back to parent directory"@)]
}

/// What the `script` repository gets for the action.
pub open spec fn script_action_steps(c: ContextView) -> Seq<StepView> {
    match c.action {
        ManageAction::Delete => delete_steps(c),
        ManageAction::Release => tag_steps(c),
        ManageAction::Update => seq![
            run_or_stop("git"@, seq!["fetch"@, "upstream"@, "--tags"@, "--force"@], "Error fetching upstream tags"@),
            run_or_stop(
                "git"@,
                seq!["rebase"@, "--onto"@, c.graphene_tag, c.graphene_tag_old],
                "Error rebasing script"@,
            ),
            StepView::ReloadBranch,
            run_or_stop("git"@, seq!["push"@, "-f"@], "Error pushing changes for script"@),
        ],
        ManageAction::Default => default_steps(c, "script"@),
        _ => seq![],
    }
}

/// Everything the `script` repository gets.
pub open spec fn script_plan(c: ContextView) -> Seq<StepView> {
    heading("script"@) + clone_steps(c, "https://github.com/dot166/script"@, "script"@) + enter_steps(
        "script"@,
    ) + (if c.action != ManageAction::Bupdate {
        seq![run_or_stop("git"@, seq!["checkout"@, c.branch], "Error checking out branch "@ + c.branch)]
    } else {
        seq![]
    }) + pull_steps("script"@) + script_action_steps(c) + upstream_steps(
        c,
        "https://github.com/grapheneos/script"@,
        "script"@,
    ) + leave_steps()
}

/// Rewriting the manifest for a release on the `tmp` branch.
pub open spec fn manifest_release_steps(c: ContextView, name: Seq<char>) -> Seq<StepView> {
    seq![
        run_or_stop("git"@, seq!["checkout"@, "-B"@, "tmp"@], "Error checking out tmp branch for "@ + name),
        StepView::Rewrite("default.xml"@, c.branch, c.tag, "Error updating default.xml for "@ + name),
        run_or_stop(
            "git"@,
            seq!["commit"@, "default.xml"@, "-m"@, c.tag],
            "Error committing default.xml for "@ + name,
        ),
        run_or_stop("git"@, seq!["push"@, "-fu"@, "origin"@, "tmp"@], "Error pushing tmp branch for "@ + name),
    ]
}

/// Rebasing a GrapheneOS fork onto the new tag; the manifest moves its tags in `default.xml`
/// and commits where that changed anything.
pub open spec fn graphene_rebase_steps(c: ContextView, name: Seq<char>) -> Seq<StepView> {
    if name == "platform_manifest"@ {
        seq![
            run_or_stop(
                "git"@,
                seq!["rebase"@, "--onto"@, c.graphene_tag + "~1"@, c.graphene_tag_old + "~1"@],
                "Error rebasing "@ + name,
            ),
            StepView::Rewrite(
                "default.xml"@,
                c.graphene_tag_old,
                c.graphene_tag,
                "Error updating default.xml for manifest"@,
            ),
            StepView::CommitIfChanged(
                seq!["commit"@, "default.xml"@, "-m"@, "GrapheneOS "@ + c.graphene_tag],
                "Error committing default.xml for "@ + name,
            ),
        ]
    } else {
        seq![
            run_or_stop(
                "git"@,
                seq!["rebase"@, "--onto"@, c.graphene_tag, c.graphene_tag_old],
                "Error rebasing "@ + name,
            ),
        ]
    }
}

/// What a GrapheneOS fork gets for the action.
pub open spec fn graphene_action_steps(c: ContextView, name: Seq<char>) -> Seq<StepView> {
    match c.action {
        ManageAction::Delete => delete_steps(c),
        ManageAction::Release => (if name == "jOS_manifest"@ {
            manifest_release_steps(c, name)
        } else {
            seq![]
        }) + tag_steps(c),
        ManageAction::Update => seq![
            run_or_stop("git"@, seq!["fetch"@, "upstream"@, "--tags"@, "--force"@], "Error fetching upstream tags"@),
        ] + graphene_rebase_steps(c, name) + seq![
            run_or_stop("git"@, seq!["push"@, "-f"@], "Error pushing changes for "@ + name),
        ],
        ManageAction::Default => default_steps(c, name),
        _ => seq![],
    }
}

/// Everything a GrapheneOS fork gets.
pub open spec fn graphene_plan(c: ContextView, name: Seq<char>) -> Seq<StepView> {
    heading(name) + clone_steps(c, "https://github.com/dot166/"@ + name, name) + enter_steps(name)
        + checkout_steps(c, name) + pull_steps(name) + graphene_action_steps(c, name)
        + upstream_steps(c, "https://github.com/grapheneos/"@ + name, name) + leave_steps()
}

/// What a LineageOS fork gets for the action.
pub open spec fn lineage_action_steps(c: ContextView, name: Seq<char>) -> Seq<StepView> {
    match c.action {
        ManageAction::Delete => delete_steps(c),
        ManageAction::Release => tag_steps(c),
        ManageAction::Update => seq![
            run_or_stop("git"@, seq!["fetch"@, "upstream"@], "Error fetching upstream"@),
            run_or_stop(
                "git"@,
                seq!["rebase"@, "upstream/"@ + c.lineage_branch],
                "Error during rebase for "@ + name,
            ),
            run_or_stop("git"@, seq!["push"@, "-f"@], "Error pushing changes"@),
        ],
        ManageAction::Default => default_steps(c, name),
        _ => seq![],
    }
}

/// Everything a LineageOS fork gets; its upstream is the LineageOS repository whose name has
/// "android" where the fork's has "platform".
pub open spec fn lineage_plan(c: ContextView, name: Seq<char>) -> Seq<StepView> {
    heading(name) + clone_steps(c, "https://github.com/dot166/"@ + name, name) + enter_steps(name)
        + checkout_steps(c, name) + pull_steps(name) + lineage_action_steps(c, name)
        + upstream_steps(
        c,
        "https://github.com/LineageOS/"@ + replace_all(name, "platform"@, "android"@),
        name,
    ) + leave_steps()
}

/// The name of the repository that publishes the update metadata and images.
pub open spec fn updates_repo() -> Seq<char> {
    "jOS-Updates"@
}

/// Publishing a release from the update repository.
pub open spec fn updates_release_steps(c: ContextView, name: Seq<char>) -> Seq<StepView> {
    let d = "../../grapheneos/releases/"@ + c.tag + "/release-oriole-"@ + c.tag + "/"@;
    seq![
        run_or_stop("cp"@, seq!["-T"@, d + "oriole-stable"@, "oriole-stable"@], "Error copying stable release for "@ + name),
        run_or_stop("cp"@, seq!["-T"@, d + "oriole-beta"@, "oriole-beta"@], "Error copying beta release for "@ + name),
        run_or_stop("cp"@, seq!["-T"@, d + "oriole-alpha"@, "oriole-alpha"@], "Error copying alpha release for "@ + name),
        run_or_stop("git"@, seq!["add"@, "."@], "Error adding files for "@ + name),
        run_or_stop(
            "git"@,
            seq!["commit"@, "-m"@, "add new version information"@],
            "Error committing files for "@ + name,
        ),
        run_or_stop("git"@, seq!["push"@], "Error pushing changes for "@ + name),
        run_or_stop(
            "gh"@,
            seq![
                "release"@,
                "create"@,
                c.tag,
                "--latest=true"@,
                "--notes"@,
                "i keep forgetting to write changelogs"@,
                d + "oriole-ota_update-"@ + c.tag + ".zip"@,
                d + "oriole-install-"@ + c.tag + ".zip"@,
            ],
            "Error creating release for "@ + name,
        ),
    ]
}

/// What an independent repository gets for the action.
pub open spec fn independent_action_steps(c: ContextView, name: Seq<char>) -> Seq<StepView> {
    match c.action {
        ManageAction::Delete => delete_steps(c),
        ManageAction::Release => if name == updates_repo() {
            updates_release_steps(c, name)
        } else {
            seq![
                run_or_stop("git"@, seq!["tag"@, "-s"@, c.tag, "-m"@, c.tag], "Error tagging "@ + name),
                run_or_stop("git"@, seq!["push"@, "origin"@, c.tag], "Error pushing tag "@ + name),
            ]
        },
        ManageAction::Default => if name != updates_repo() {
            default_steps(c, name)
        } else {
            seq![]
        },
        _ => seq![],
    }
}

/// Everything an independent repository gets; the update repository stays on `main`.
pub open spec fn independent_plan(c: ContextView, name: Seq<char>) -> Seq<StepView> {
    heading(name) + clone_steps(c, "https://github.com/dot166/"@ + name, name) + enter_steps(name)
        + (if name != updates_repo() {
        checkout_steps(c, name)
    } else {
        seq![run_or_stop("git"@, seq!["checkout"@, "main"@], "Error checking out main for "@ + name)]
    }) + pull_steps(name) + independent_action_steps(c, name) + leave_steps()
}

/// What is left after all repositories: for `bupdate`, running the update and the default
/// actions of the freshly built manager.
pub open spec fn final_plan(c: ContextView) -> Seq<StepView> {
    if c.action == ManageAction::Bupdate {
        seq![
            run_or_stop("script/jOS/manage"@, seq!["update"@], "Error running update"@),
            run_or_stop("script/jOS/manage"@, seq!["default"@], "Error running default"@),
        ]
    } else {
        seq![]
    }
}

/// The changes flag printed after `git diff --quiet`: 0 where it ran and reported no change,
/// 1 otherwise (`None`: it could not be started; `Some(ok)`: whether it succeeded).
pub open spec fn changes_flag_of(diff: Option<bool>) -> u8 {
    if diff == Some(true) {
        0
    } else {
        1
    }
}

/// The changes flag for the outcome of `git diff --quiet`.
pub fn changes_flag(diff: Option<bool>) -> (r: u8)
    ensures
        r == changes_flag_of(diff),
{
    match diff {
        Some(true) => 0,
        _ => 1,
    }
}

/// What a `CommitIfChanged` step does once `git diff --quiet` has reported `diff`: print
/// `CHANGES=` and the changes flag, then, where the flag is 1, run `git` with `args`,
/// stopping with `failure` where it cannot be started.
pub open spec fn commit_after_diff_plan(
    diff: Option<bool>,
    args: Seq<Seq<char>>,
    failure: Seq<char>,
) -> Seq<StepView> {
    if changes_flag_of(diff) == 1 {
        seq![StepView::Say("CHANGES=1"@), run_or_stop("git"@, args, failure)]
    } else {
        seq![StepView::Say("CHANGES=0"@)]
    }
}

/// The steps that finish a `CommitIfChanged` step, given what `git diff --quiet` reported.
pub fn commit_after_diff(diff: Option<bool>, args: &Vec<String>, failure: &str) -> (r: Vec<Step>)
    ensures
        step_views(r@) == commit_after_diff_plan(diff, string_views(args@), failure@),
{
    if changes_flag(diff) == 1 {
        let mut a: Vec<String> = Vec::new();
        let mut k: usize = 0;
        while k < args.len()
            invariant
                k <= args.len(),
                string_views(a@) == string_views(args@).take(k as int),
            decreases args.len() - k,
        {
            let ghost before = a@;
            a.push(text_of(args[k].as_str()));
            assert(string_views(a@) =~= string_views(before).push(args@[k as int]@));
            assert(string_views(args@).take(k + 1) =~= string_views(args@).take(k as int).push(
                args@[k as int]@,
            ));
            k = k + 1;
        }
        assert(string_views(args@).take(args.len() as int) =~= string_views(args@));
        two(say(text_of("CHANGES=1")), run_step("git", a, text_of(failure)))
    } else {
        one(say(text_of("CHANGES=0")))
    }
}

/// Argument lists of one to eight strings.
pub(crate) fn args1(a0: String) -> (r: Vec<String>)
    ensures
        string_views(r@) == seq![a0@],
{
    let r = vec![a0];
    assert(string_views(r@) =~= seq![a0@]);
    r
}

pub(crate) fn args2(a0: String, a1: String) -> (r: Vec<String>)
    ensures
        string_views(r@) == seq![a0@, a1@],
{
    let r = vec![a0, a1];
    assert(string_views(r@) =~= seq![a0@, a1@]);
    r
}

pub(crate) fn args3(a0: String, a1: String, a2: String) -> (r: Vec<String>)
    ensures
        string_views(r@) == seq![a0@, a1@, a2@],
{
    let r = vec![a0, a1, a2];
    assert(string_views(r@) =~= seq![a0@, a1@, a2@]);
    r
}

pub(crate) fn args4(a0: String, a1: String, a2: String, a3: String) -> (r: Vec<String>)
    ensures
        string_views(r@) == seq![a0@, a1@, a2@, a3@],
{
    let r = vec![a0, a1, a2, a3];
    assert(string_views(r@) =~= seq![a0@, a1@, a2@, a3@]);
    r
}

pub(crate) fn args5(a0: String, a1: String, a2: String, a3: String, a4: String) -> (r: Vec<String>)
    ensures
        string_views(r@) == seq![a0@, a1@, a2@, a3@, a4@],
{
    let r = vec![a0, a1, a2, a3, a4];
    assert(string_views(r@) =~= seq![a0@, a1@, a2@, a3@, a4@]);
    r
}

pub(crate) fn args6(a0: String, a1: String, a2: String, a3: String, a4: String, a5: String) -> (r: Vec<String>)
    ensures
        string_views(r@) == seq![a0@, a1@, a2@, a3@, a4@, a5@],
{
    let r = vec![a0, a1, a2, a3, a4, a5];
    assert(string_views(r@) =~= seq![a0@, a1@, a2@, a3@, a4@, a5@]);
    r
}

pub(crate) fn args7(a0: String, a1: String, a2: String, a3: String, a4: String, a5: String, a6: String) -> (r: Vec<String>)
    ensures
        string_views(r@) == seq![a0@, a1@, a2@, a3@, a4@, a5@, a6@],
{
    let r = vec![a0, a1, a2, a3, a4, a5, a6];
    assert(string_views(r@) =~= seq![a0@, a1@, a2@, a3@, a4@, a5@, a6@]);
    r
}

pub(crate) fn args8(a0: String, a1: String, a2: String, a3: String, a4: String, a5: String, a6: String, a7: String) -> (r: Vec<String>)
    ensures
        string_views(r@) == seq![a0@, a1@, a2@, a3@, a4@, a5@, a6@, a7@],
{
    let r = vec![a0, a1, a2, a3, a4, a5, a6, a7];
    assert(string_views(r@) =~= seq![a0@, a1@, a2@, a3@, a4@, a5@, a6@, a7@]);
    r
}

pub(crate) fn args11(
    a0: String,
    a1: String,
    a2: String,
    a3: String,
    a4: String,
    a5: String,
    a6: String,
    a7: String,
    a8: String,
    a9: String,
    a10: String,
) -> (r: Vec<String>)
    ensures
        string_views(r@) == seq![a0@, a1@, a2@, a3@, a4@, a5@, a6@, a7@, a8@, a9@, a10@],
{
    let r = vec![a0, a1, a2, a3, a4, a5, a6, a7, a8, a9, a10];
    assert(string_views(r@) =~= seq![a0@, a1@, a2@, a3@, a4@, a5@, a6@, a7@, a8@, a9@, a10@]);
    r
}

/// A step that prints `text`.
fn say(text: String) -> (r: Step)
    ensures
        r@ == StepView::Say(text@),
{
    Step::Say { text }
}

/// A step that runs `program` and stops with `failure` where it cannot be started.
pub(crate) fn run_step(program: &str, args: Vec<String>, failure: String) -> (r: Step)
    ensures
        r@ == run_or_stop(program@, string_views(args@), failure@),
{
    Step::Run { program: text_of(program), args, failure: Some(failure) }
}

/// A step that runs `program` whatever comes of it.
fn run_quiet(program: &str, args: Vec<String>) -> (r: Step)
    ensures
        r@ == StepView::Run(program@, string_views(args@), None),
{
    Step::Run { program: text_of(program), args, failure: None }
}

/// Appends the steps `more` to `out`.
pub(crate) fn push_steps(out: &mut Vec<Step>, more: Vec<Step>)
    ensures
        step_views(final(out)@) == step_views(old(out)@) + step_views(more@),
{
    let ghost o = out@;
    let ghost m = more@;
    let mut more = more;
    out.append(&mut more);
    assert(step_views(out@) =~= step_views(o) + step_views(m));
}

/// A list of one step.
pub(crate) fn one(a: Step) -> (r: Vec<Step>)
    ensures
        step_views(r@) == seq![a@],
{
    let r = vec![a];
    assert(step_views(r@) =~= seq![a@]);
    r
}

/// A list of two steps.
pub(crate) fn two(a: Step, b: Step) -> (r: Vec<Step>)
    ensures
        step_views(r@) == seq![a@, b@],
{
    let r = vec![a, b];
    assert(step_views(r@) =~= seq![a@, b@]);
    r
}

/// No steps.
pub(crate) fn none() -> (r: Vec<Step>)
    ensures
        step_views(r@) == Seq::<StepView>::empty(),
{
    let r: Vec<Step> = Vec::new();
    assert(step_views(r@) =~= Seq::<StepView>::empty());
    r
}

/// Whether `name` is the literal `lit`.
fn is_named(name: &str, lit: &str) -> (r: bool)
    ensures
        r == (name@ == lit@),
{
    chars_eq(&chars_of(name), &chars_of(lit))
}

fn heading_exec(name: &str) -> (r: Vec<Step>)
    ensures
        step_views(r@) == heading(name@),
{
    one(say(cat("\n>>> Handling ", name)))
}

fn clone_exec(c: &ManageContext, url: &str, name: &str) -> (r: Vec<Step>)
    ensures
        step_views(r@) == clone_steps(c@, url@, name@),
{
    if c.action == ManageAction::Init {
        one(run_step("git", args2(text_of("clone"), text_of(url)), cat("Error cloning ", name)))
    } else {
        none()
    }
}

fn enter_exec(name: &str) -> (r: Vec<Step>)
    ensures
        step_views(r@) == enter_steps(name@),
{
    one(Step::Enter { dir: text_of(name), failure: cat("Failed to change directory to ", name) })
}

fn branch_checkout_step(c: &ManageContext) -> (r: Step)
    ensures
        r@ == run_or_stop(
            "git"@,
            seq!["checkout"@, c@.branch],
            "Error checking out branch "@ + c@.branch,
        ),
{
    run_step(
        "git",
        args2(text_of("checkout"), c.branch.clone()),
        cat("Error checking out branch ", c.branch.as_str()),
    )
}

fn checkout_exec(c: &ManageContext, name: &str) -> (r: Vec<Step>)
    ensures
        step_views(r@) == checkout_steps(c@, name@),
{
    if c.action != ManageAction::Bupdate {
        one(branch_checkout_step(c))
    } else {
        let mut v = two(
            run_step("git", args2(text_of("checkout"), text_of("origin")), cat("Error checking out origin for ", name)),
            run_step("git", args1(text_of("pull")), cat("Error pulling changes for ", name)),
        );
        let b = c.branch.as_str();
        let mut to_upstream = cat("Error pushing ", b);
        to_upstream = cat(to_upstream.as_str(), " to upstream");
        push_steps(
            &mut v,
            two(
                run_step("git", args3(text_of("switch"), text_of("-c"), c.branch.clone()), cat("Error switching to branch ", b)),
                run_step(
                    "git",
                    args4(text_of("push"), text_of("--set-upstream"), text_of("origin"), c.branch.clone()),
                    to_upstream,
                ),
            ),
        );
        v
    }
}

fn pull_exec(name: &str) -> (r: Vec<Step>)
    ensures
        step_views(r@) == pull_steps(name@),
{
    one(run_step("git", args1(text_of("pull")), cat("Error pulling changes for ", name)))
}

fn delete_exec(c: &ManageContext) -> (r: Vec<Step>)
    ensures
        step_views(r@) == delete_steps(c@),
{
    two(
        run_quiet("git", args3(text_of("tag"), text_of("-d"), c.tag.clone())),
        run_quiet("git", args4(text_of("push"), text_of("origin"), text_of("--delete"), c.tag.clone())),
    )
}

fn tag_exec(c: &ManageContext) -> (r: Vec<Step>)
    ensures
        step_views(r@) == tag_steps(c@),
{
    let t = c.tag.as_str();
    two(
        run_step(
            "git",
            args5(text_of("tag"), text_of("-s"), c.tag.clone(), text_of("-m"), c.tag.clone()),
            cat("Error creating release tag ", t),
        ),
        run_step("git", args3(text_of("push"), text_of("origin"), c.tag.clone()), cat("Error pushing release tag ", t)),
    )
}

fn default_exec(c: &ManageContext, name: &str) -> (r: Vec<Step>)
    ensures
        step_views(r@) == default_steps(c@, name@),
{
    one(
        run_step(
            "gh",
            args5(
                text_of("repo"),
                text_of("edit"),
                cat("dot166/", name),
                text_of("--default-branch"),
                c.branch.clone(),
            ),
            cat("Error editing default branch for ", name),
        ),
    )
}

fn upstream_exec(c: &ManageContext, url: &str, name: &str) -> (r: Vec<Step>)
    ensures
        step_views(r@) == upstream_steps(c@, url@, name@),
{
    if c.action == ManageAction::Init {
        two(
            run_step(
                "git",
                args4(text_of("remote"), text_of("add"), text_of("upstream"), text_of(url)),
                cat("Error adding upstream for ", name),
            ),
            run_step(
                "git",
                args3(text_of("fetch"), text_of("upstream"), text_of("--tags")),
                cat("Error fetching upstream tags for ", name),
            ),
        )
    } else {
        none()
    }
}

fn leave_exec() -> (r: Vec<Step>)
    ensures
        step_views(r@) == leave_steps(),
{
    one(Step::Enter { dir: text_of(".."), failure: text_of("Failed to change back to parent directory") })
}

fn fetch_tags_force_step() -> (r: Step)
    ensures
        r@ == run_or_stop(
            "git"@,
            seq!["fetch"@, "upstream"@, "--tags"@, "--force"@],
            "Error fetching upstream tags"@,
        ),
{
    run_step(
        "git",
        args4(text_of("fetch"), text_of("upstream"), text_of("--tags"), text_of("--force")),
        text_of("Error fetching upstream tags"),
    )
}

fn script_action_exec(c: &ManageContext) -> (r: Vec<Step>)
    ensures
        step_views(r@) == script_action_steps(c@),
{
    match c.action {
        ManageAction::Delete => delete_exec(c),
        ManageAction::Release => tag_exec(c),
        ManageAction::Update => {
            let mut v = two(
                fetch_tags_force_step(),
                run_step(
                    "git",
                    args4(text_of("rebase"), text_of("--onto"), c.graphene_tag.clone(), c.graphene_tag_old.clone()),
                    text_of("Error rebasing script"),
                ),
            );
            push_steps(
                &mut v,
                two(
                    Step::ReloadBranch,
                    run_step("git", args2(text_of("push"), text_of("-f")), text_of("Error pushing changes for script")),
                ),
            );
            v
        },
        ManageAction::Default => default_exec(c, "script"),
        _ => none(),
    }
}

/// The steps for the `script` repository, which holds the manager itself.
pub fn script_steps(c: &ManageContext) -> (r: Vec<Step>)
    ensures
        step_views(r@) == script_plan(c@),
{
    let mut v = heading_exec("script");
    push_steps(&mut v, clone_exec(c, "https://github.com/dot166/script", "script"));
    push_steps(&mut v, enter_exec("script"));
    if c.action != ManageAction::Bupdate {
        push_steps(&mut v, one(branch_checkout_step(c)));
    } else {
        push_steps(&mut v, none());
    }
    push_steps(&mut v, pull_exec("script"));
    push_steps(&mut v, script_action_exec(c));
    push_steps(&mut v, upstream_exec(c, "https://github.com/grapheneos/script", "script"));
    push_steps(&mut v, leave_exec());
    v
}

fn manifest_release_exec(c: &ManageContext, name: &str) -> (r: Vec<Step>)
    ensures
        step_views(r@) == manifest_release_steps(c@, name@),
{
    let mut v = two(
        run_step(
            "git",
            args3(text_of("checkout"), text_of("-B"), text_of("tmp")),
            cat("Error checking out tmp branch for ", name),
        ),
        Step::Rewrite {
            file: text_of("default.xml"),
            from: c.branch.clone(),
            to: c.tag.clone(),
            failure: cat("Error updating default.xml for ", name),
        },
    );
    push_steps(
        &mut v,
        two(
            run_step(
                "git",
                args4(text_of("commit"), text_of("default.xml"), text_of("-m"), c.tag.clone()),
                cat("Error committing default.xml for ", name),
            ),
            run_step(
                "git",
                args4(text_of("push"), text_of("-fu"), text_of("origin"), text_of("tmp")),
                cat("Error pushing tmp branch for ", name),
            ),
        ),
    );
    v
}

fn graphene_rebase_exec(c: &ManageContext, name: &str) -> (r: Vec<Step>)
    ensures
        step_views(r@) == graphene_rebase_steps(c@, name@),
{
    if is_named(name, "platform_manifest") {
        let mut v = two(
            run_step(
                "git",
                args4(
                    text_of("rebase"),
                    text_of("--onto"),
                    cat(c.graphene_tag.as_str(), "~1"),
                    cat(c.graphene_tag_old.as_str(), "~1"),
                ),
                cat("Error rebasing ", name),
            ),
            Step::Rewrite {
                file: text_of("default.xml"),
                from: c.graphene_tag_old.clone(),
                to: c.graphene_tag.clone(),
                failure: text_of("Error updating default.xml for manifest"),
            },
        );
        push_steps(
            &mut v,
            one(
                Step::CommitIfChanged {
                    args: args4(
                        text_of("commit"),
                        text_of("default.xml"),
                        text_of("-m"),
                        cat("GrapheneOS ", c.graphene_tag.as_str()),
                    ),
                    failure: cat("Error committing default.xml for ", name),
                },
            ),
        );
        v
    } else {
        one(
            run_step(
                "git",
                args4(text_of("rebase"), text_of("--onto"), c.graphene_tag.clone(), c.graphene_tag_old.clone()),
                cat("Error rebasing ", name),
            ),
        )
    }
}

fn graphene_action_exec(c: &ManageContext, name: &str) -> (r: Vec<Step>)
    ensures
        step_views(r@) == graphene_action_steps(c@, name@),
{
    match c.action {
        ManageAction::Delete => delete_exec(c),
        ManageAction::Release => {
            let mut v = if is_named(name, "jOS_manifest") {
                manifest_release_exec(c, name)
            } else {
                none()
            };
            push_steps(&mut v, tag_exec(c));
            v
        },
        ManageAction::Update => {
            let mut v = one(fetch_tags_force_step());
            push_steps(&mut v, graphene_rebase_exec(c, name));
            push_steps(
                &mut v,
                one(run_step("git", args2(text_of("push"), text_of("-f")), cat("Error pushing changes for ", name))),
            );
            v
        },
        ManageAction::Default => default_exec(c, name),
        _ => none(),
    }
}

/// The steps for a fork of a GrapheneOS repository.
pub fn graphene_steps(c: &ManageContext, name: &str) -> (r: Vec<Step>)
    ensures
        step_views(r@) == graphene_plan(c@, name@),
{
    let mut v = heading_exec(name);
    push_steps(&mut v, clone_exec(c, cat("https://github.com/dot166/", name).as_str(), name));
    push_steps(&mut v, enter_exec(name));
    push_steps(&mut v, checkout_exec(c, name));
    push_steps(&mut v, pull_exec(name));
    push_steps(&mut v, graphene_action_exec(c, name));
    push_steps(&mut v, upstream_exec(c, cat("https://github.com/grapheneos/", name).as_str(), name));
    push_steps(&mut v, leave_exec());
    v
}

fn lineage_action_exec(c: &ManageContext, name: &str) -> (r: Vec<Step>)
    ensures
        step_views(r@) == lineage_action_steps(c@, name@),
{
    match c.action {
        ManageAction::Delete => delete_exec(c),
        ManageAction::Release => tag_exec(c),
        ManageAction::Update => {
            let mut v = two(
                run_step("git", args2(text_of("fetch"), text_of("upstream")), text_of("Error fetching upstream")),
                run_step(
                    "git",
                    args2(text_of("rebase"), cat("upstream/", c.lineage_branch.as_str())),
                    cat("Error during rebase for ", name),
                ),
            );
            push_steps(
                &mut v,
                one(run_step("git", args2(text_of("push"), text_of("-f")), text_of("Error pushing changes"))),
            );
            v
        },
        ManageAction::Default => default_exec(c, name),
        _ => none(),
    }
}

/// The steps for a fork of a LineageOS repository.
pub fn lineage_steps(c: &ManageContext, name: &str) -> (r: Vec<Step>)
    ensures
        step_views(r@) == lineage_plan(c@, name@),
{
    let mut v = heading_exec(name);
    push_steps(&mut v, clone_exec(c, cat("https://github.com/dot166/", name).as_str(), name));
    push_steps(&mut v, enter_exec(name));
    push_steps(&mut v, checkout_exec(c, name));
    push_steps(&mut v, pull_exec(name));
    push_steps(&mut v, lineage_action_exec(c, name));
    let upstream_name = replace_text(name, "platform", "android");
    push_steps(
        &mut v,
        upstream_exec(c, cat("https://github.com/LineageOS/", upstream_name.as_str()).as_str(), name),
    );
    push_steps(&mut v, leave_exec());
    v
}

fn updates_release_exec(c: &ManageContext, name: &str) -> (r: Vec<Step>)
    ensures
        step_views(r@) == updates_release_steps(c@, name@),
{
    let t = c.tag.as_str();
    let mut d = cat("../../grapheneos/releases/", t);
    d = cat(d.as_str(), "/release-oriole-");
    d = cat(d.as_str(), t);
    d = cat(d.as_str(), "/");
    let ds = d.as_str();
    let mut v = two(
        run_step(
            "cp",
            args3(text_of("-T"), cat(ds, "oriole-stable"), text_of("oriole-stable")),
            cat("Error copying stable release for ", name),
        ),
        run_step(
            "cp",
            args3(text_of("-T"), cat(ds, "oriole-beta"), text_of("oriole-beta")),
            cat("Error copying beta release for ", name),
        ),
    );
    push_steps(
        &mut v,
        two(
            run_step(
                "cp",
                args3(text_of("-T"), cat(ds, "oriole-alpha"), text_of("oriole-alpha")),
                cat("Error copying alpha release for ", name),
            ),
            run_step("git", args2(text_of("add"), text_of(".")), cat("Error adding files for ", name)),
        ),
    );
    push_steps(
        &mut v,
        two(
            run_step(
                "git",
                args3(text_of("commit"), text_of("-m"), text_of("add new version information")),
                cat("Error committing files for ", name),
            ),
            run_step("git", args1(text_of("push")), cat("Error pushing changes for ", name)),
        ),
    );
    let mut ota = cat(ds, "oriole-ota_update-");
    ota = cat(ota.as_str(), t);
    ota = cat(ota.as_str(), ".zip");
    let mut install = cat(ds, "oriole-install-");
    install = cat(install.as_str(), t);
    install = cat(install.as_str(), ".zip");
    push_steps(
        &mut v,
        one(
            run_step(
                "gh",
                args8(
                    text_of("release"),
                    text_of("create"),
                    c.tag.clone(),
                    text_of("--latest=true"),
                    text_of("--notes"),
                    text_of("i keep forgetting to write changelogs"),
                    ota,
                    install,
                ),
                cat("Error creating release for ", name),
            ),
        ),
    );
    v
}

fn independent_action_exec(c: &ManageContext, name: &str) -> (r: Vec<Step>)
    ensures
        step_views(r@) == independent_action_steps(c@, name@),
{
    match c.action {
        ManageAction::Delete => delete_exec(c),
        ManageAction::Release => {
            if is_named(name, "jOS-Updates") {
                updates_release_exec(c, name)
            } else {
                two(
                    run_step(
                        "git",
                        args5(text_of("tag"), text_of("-s"), c.tag.clone(), text_of("-m"), c.tag.clone()),
                        cat("Error tagging ", name),
                    ),
                    run_step(
                        "git",
                        args3(text_of("push"), text_of("origin"), c.tag.clone()),
                        cat("Error pushing tag ", name),
                    ),
                )
            }
        },
        ManageAction::Default => {
            if !is_named(name, "jOS-Updates") {
                default_exec(c, name)
            } else {
                none()
            }
        },
        _ => none(),
    }
}

/// The steps for a repository of the project's own.
pub fn independent_steps(c: &ManageContext, name: &str) -> (r: Vec<Step>)
    ensures
        step_views(r@) == independent_plan(c@, name@),
{
    let mut v = heading_exec(name);
    push_steps(&mut v, clone_exec(c, cat("https://github.com/dot166/", name).as_str(), name));
    push_steps(&mut v, enter_exec(name));
    if !is_named(name, "jOS-Updates") {
        push_steps(&mut v, checkout_exec(c, name));
    } else {
        push_steps(
            &mut v,
            one(run_step("git", args2(text_of("checkout"), text_of("main")), cat("Error checking out main for ", name))),
        );
    }
    push_steps(&mut v, pull_exec(name));
    push_steps(&mut v, independent_action_exec(c, name));
    push_steps(&mut v, leave_exec());
    v
}

/// The steps after all repositories.
pub fn final_steps(c: &ManageContext) -> (r: Vec<Step>)
    ensures
        step_views(r@) == final_plan(c@),
{
    if c.action == ManageAction::Bupdate {
        two(
            run_step("script/jOS/manage", args1(text_of("update")), text_of("Error running update")),
            run_step("script/jOS/manage", args1(text_of("default")), text_of("Error running default")),
        )
    } else {
        none()
    }
}

/// Appends the literal `name` to `v`.
fn push_name(v: &mut Vec<String>, name: &str)
    ensures
        string_views(final(v)@) == string_views(old(v)@).push(name@),
{
    let ghost v0 = v@;
    v.push(text_of(name));
    assert(string_views(v@) =~= string_views(v0).push(name@));
}

/// The forks of GrapheneOS repositories, in the order they are handled.
pub open spec fn grapheneos_fork_names() -> Seq<Seq<char>> {
    seq![
        "platform_build"@,
        "platform_build_release"@,
        "platform_frameworks_base"@,
        "platform_frameworks_libs_systemui"@,
        "platform_manifest"@,
        "platform_packages_apps_DeskClock"@,
        "platform_packages_apps_Dialer"@,
        "platform_packages_apps_ExactCalculator"@,
        "platform_packages_apps_Launcher3"@,
        "platform_packages_apps_Settings"@,
        "platform_packages_apps_SetupWizard2"@,
        "platform_packages_apps_Updater"@,
        "platform_packages_inputmethods_LatinIME"@,
        "platform_packages_services_telecomm"@,
    ]
}

/// The forks of LineageOS repositories, in the order they are handled.
pub open spec fn lineageos_fork_names() -> Seq<Seq<char>> {
    seq![
        "platform_packages_apps_Recorder"@,
        "platform_packages_apps_Etar"@,
    ]
}

/// The project's own repositories, in the order they are handled.
pub open spec fn independent_names() -> Seq<Seq<char>> {
    seq![
        "jOS-Updates"@,
    ]
}

/// The forks of GrapheneOS repositories, in the order they are handled.
pub fn grapheneos_forks() -> (r: Vec<String>)
    ensures
        string_views(r@) == grapheneos_fork_names(),
{
    let mut v: Vec<String> = Vec::new();
    push_name(&mut v, "platform_build");
    push_name(&mut v, "platform_build_release");
    push_name(&mut v, "platform_frameworks_base");
    push_name(&mut v, "platform_frameworks_libs_systemui");
    push_name(&mut v, "platform_manifest");
    push_name(&mut v, "platform_packages_apps_DeskClock");
    push_name(&mut v, "platform_packages_apps_Dialer");
    push_name(&mut v, "platform_packages_apps_ExactCalculator");
    push_name(&mut v, "platform_packages_apps_Launcher3");
    push_name(&mut v, "platform_packages_apps_Settings");
    push_name(&mut v, "platform_packages_apps_SetupWizard2");
    push_name(&mut v, "platform_packages_apps_Updater");
    push_name(&mut v, "platform_packages_inputmethods_LatinIME");
    push_name(&mut v, "platform_packages_services_telecomm");
    assert(string_views(v@) =~= grapheneos_fork_names());
    v
}

/// The forks of LineageOS repositories, in the order they are handled.
pub fn lineageos_forks() -> (r: Vec<String>)
    ensures
        string_views(r@) == lineageos_fork_names(),
{
    let mut v: Vec<String> = Vec::new();
    push_name(&mut v, "platform_packages_apps_Recorder");
    push_name(&mut v, "platform_packages_apps_Etar");
    assert(string_views(v@) =~= lineageos_fork_names());
    v
}

/// The project's own repositories, in the order they are handled.
pub fn independent_repos() -> (r: Vec<String>)
    ensures
        string_views(r@) == independent_names(),
{
    let mut v: Vec<String> = Vec::new();
    push_name(&mut v, "jOS-Updates");
    assert(string_views(v@) =~= independent_names());
    v
}

/// On CI only `init` is accepted: every other action would change the source tree.
pub proof fn lemma_ci_accepts_only_init(args: Seq<Seq<char>>, ci: Option<Seq<char>>)
    requires
        on_ci(ci),
        manage_request_of(args, ci) is Ok,
    ensures
        manage_request_of(args, ci)->Ok_0.0 == ManageAction::Init,
{
}

/// An accepted `release` or `delete` carries the one argument after the action as its tag;
/// every other accepted action carries no tag and came with no further argument.
pub proof fn lemma_request_tag(args: Seq<Seq<char>>, ci: Option<Seq<char>>)
    requires
        manage_request_of(args, ci) is Ok,
    ensures
        ({
            let (a, tag) = manage_request_of(args, ci)->Ok_0;
            if a == ManageAction::Release || a == ManageAction::Delete {
                args.len() == 3 && tag == args[2]
            } else {
                args.len() == 2 && tag == Seq::<char>::empty()
            }
        }),
{
}

/// Each action word names the action of the same name: with no further argument (one tag
/// name for `release` and `delete`) and off CI, the word is accepted as that action, and an
/// accepted request's action is the one its word names.
pub proof fn lemma_action_words(args: Seq<Seq<char>>, ci: Option<Seq<char>>)
    requires
        args.len() >= 2,
    ensures
        !on_ci(ci) && args.len() == 2 ==> {
            &&& args[1] == "update"@ ==> manage_request_of(args, ci) == Ok::<(ManageAction, Seq<char>), ManageError>((ManageAction::Update, Seq::empty()))
            &&& args[1] == "default"@ ==> manage_request_of(args, ci) == Ok::<(ManageAction, Seq<char>), ManageError>((ManageAction::Default, Seq::empty()))
            &&& args[1] == "init"@ ==> manage_request_of(args, ci) == Ok::<(ManageAction, Seq<char>), ManageError>((ManageAction::Init, Seq::empty()))
            &&& args[1] == "bupdate"@ ==> manage_request_of(args, ci) == Ok::<(ManageAction, Seq<char>), ManageError>((ManageAction::Bupdate, Seq::empty()))
            &&& args[1] == "null"@ ==> manage_request_of(args, ci) == Ok::<(ManageAction, Seq<char>), ManageError>((ManageAction::Null, Seq::empty()))
        },
        !on_ci(ci) && args.len() == 3 ==> {
            &&& args[1] == "release"@ ==> manage_request_of(args, ci) == Ok::<(ManageAction, Seq<char>), ManageError>((ManageAction::Release, args[2]))
            &&& args[1] == "delete"@ ==> manage_request_of(args, ci) == Ok::<(ManageAction, Seq<char>), ManageError>((ManageAction::Delete, args[2]))
        },
        args.len() == 2 && args[1] == "init"@ ==> manage_request_of(args, ci) == Ok::<(ManageAction, Seq<char>), ManageError>((ManageAction::Init, Seq::empty())),
        manage_request_of(args, ci) is Ok ==> match manage_request_of(args, ci)->Ok_0.0 {
            ManageAction::Update => args[1] == "update"@,
            ManageAction::Default => args[1] == "default"@,
            ManageAction::Init => args[1] == "init"@,
            ManageAction::Bupdate => args[1] == "bupdate"@,
            ManageAction::Null => args[1] == "null"@,
            ManageAction::Release => args[1] == "release"@,
            ManageAction::Delete => args[1] == "delete"@,
        },
{
    reveal_strlit("update");
    reveal_strlit("default");
    reveal_strlit("init");
    reveal_strlit("bupdate");
    reveal_strlit("null");
    reveal_strlit("release");
    reveal_strlit("delete");
    assert("update"@[0] == 'u');
    assert("default"@[0] == 'd' && "default"@[2] == 'f');
    assert("init"@[0] == 'i');
    assert("bupdate"@[0] == 'b');
    assert("null"@[0] == 'n');
    assert("release"@[0] == 'r');
    assert("delete"@[0] == 'd' && "delete"@[2] == 'l');
}

/// Updating a GrapheneOS fork rebases it onto the new GrapheneOS tag: its plan runs
/// `git rebase --onto <new tag> <old tag>` (for the manifest, the commits before both tags),
/// as the `script` repository's plan does.
pub proof fn lemma_update_rebases_onto_new_tag(c: ContextView, name: Seq<char>)
    requires
        c.action == ManageAction::Update,
    ensures
        name != "platform_manifest"@ ==> graphene_plan(c, name).contains(
            StepView::Run(
                "git"@,
                seq!["rebase"@, "--onto"@, c.graphene_tag, c.graphene_tag_old],
                Some("Error rebasing "@ + name),
            ),
        ),
        name == "platform_manifest"@ ==> graphene_plan(c, name).contains(
            StepView::Run(
                "git"@,
                seq!["rebase"@, "--onto"@, c.graphene_tag + "~1"@, c.graphene_tag_old + "~1"@],
                Some("Error rebasing "@ + name),
            ),
        ),
        script_plan(c).contains(
            StepView::Run(
                "git"@,
                seq!["rebase"@, "--onto"@, c.graphene_tag, c.graphene_tag_old],
                Some("Error rebasing script"@),
            ),
        ),
{
    let pre = heading(name) + clone_steps(c, "https://github.com/dot166/"@ + name, name)
        + enter_steps(name) + checkout_steps(c, name) + pull_steps(name);
    let act = graphene_action_steps(c, name);
    let post = upstream_steps(c, "https://github.com/grapheneos/"@ + name, name) + leave_steps();
    assert(graphene_plan(c, name) =~= pre + act + post);
    assert((pre + act + post)[pre.len() as int + 1] == act[1]);
    assert(graphene_plan(c, name)[pre.len() as int + 1] == act[1]);
    let spre = heading("script"@) + clone_steps(c, "https://github.com/dot166/script"@, "script"@)
        + enter_steps("script"@) + (if c.action != ManageAction::Bupdate {
        seq![run_or_stop("git"@, seq!["checkout"@, c.branch], "Error checking out branch "@ + c.branch)]
    } else {
        seq![]
    }) + pull_steps("script"@);
    let sact = script_action_steps(c);
    let spost = upstream_steps(c, "https://github.com/grapheneos/script"@, "script"@)
        + leave_steps();
    assert(script_plan(c) =~= spre + sact + spost);
    assert((spre + sact + spost)[spre.len() as int + 1] == sact[1]);
    assert(script_plan(c)[spre.len() as int + 1] == sact[1]);
}

/// The directories that the steps enter, in order.
pub open spec fn entered_dirs(v: Seq<StepView>) -> Seq<Seq<char>> {
    v.filter_map(
        |s: StepView|
            match s {
                StepView::Enter(d, _) => Some(d),
                _ => None,
            },
    )
}

proof fn lemma_entered_append(a: Seq<StepView>, b: Seq<StepView>)
    ensures
        entered_dirs(a + b) == entered_dirs(a) + entered_dirs(b),
    decreases b.len(),
{
    if b.len() == 0 {
        assert(a + b =~= a);
        assert(entered_dirs(a) + entered_dirs(b) =~= entered_dirs(a));
    } else {
        lemma_entered_append(a, b.drop_last());
        assert((a + b).drop_last() =~= a + b.drop_last());
        assert((a + b).last() == b.last());
        assert(entered_dirs(a) + entered_dirs(b.drop_last()) + (match b.last() {
            StepView::Enter(d, _) => seq![d],
            _ => Seq::<Seq<char>>::empty(),
        }) =~= entered_dirs(a) + entered_dirs(b));
    }
}

proof fn lemma_entered_none(v: Seq<StepView>)
    requires
        forall|i: int| 0 <= i < v.len() ==> !(#[trigger] v[i] is Enter),
    ensures
        entered_dirs(v) == Seq::<Seq<char>>::empty(),
    decreases v.len(),
{
    if v.len() > 0 {
        assert forall|i: int| 0 <= i < v.drop_last().len() implies !(#[trigger] v.drop_last()[i] is Enter) by {
            assert(v.drop_last()[i] == v[i]);
        }
        lemma_entered_none(v.drop_last());
        assert(!(v[v.len() - 1] is Enter));
    }
}

proof fn lemma_entered_single(x: StepView)
    ensures
        entered_dirs(seq![x]) == match x {
            StepView::Enter(d, _) => seq![d],
            _ => Seq::<Seq<char>>::empty(),
        },
{
    assert(seq![x].drop_last() =~= Seq::<StepView>::empty());
    assert(seq![x].last() == x);
    assert(entered_dirs(Seq::<StepView>::empty()) =~= Seq::<Seq<char>>::empty());
}

/// Every repository is handled inside its own directory and the manager then goes back to
/// the parent directory: the only directories the steps of a repository enter are the
/// repository's and `..`, in that order. The steps after all repositories enter none.
pub proof fn lemma_plans_return_to_parent(c: ContextView, name: Seq<char>)
    ensures
        entered_dirs(script_plan(c)) == seq!["script"@, ".."@],
        entered_dirs(graphene_plan(c, name)) == seq![name, ".."@],
        entered_dirs(lineage_plan(c, name)) == seq![name, ".."@],
        entered_dirs(independent_plan(c, name)) == seq![name, ".."@],
        entered_dirs(final_plan(c)) == Seq::<Seq<char>>::empty(),
{
    let e = Seq::<Seq<char>>::empty();
    lemma_entered_single(heading(name)[0]);
    assert(heading(name) =~= seq![heading(name)[0]]);
    lemma_entered_single(heading("script"@)[0]);
    assert(heading("script"@) =~= seq![heading("script"@)[0]]);
    lemma_entered_single(enter_steps(name)[0]);
    assert(enter_steps(name) =~= seq![enter_steps(name)[0]]);
    lemma_entered_single(enter_steps("script"@)[0]);
    assert(enter_steps("script"@) =~= seq![enter_steps("script"@)[0]]);
    lemma_entered_single(leave_steps()[0]);
    assert(leave_steps() =~= seq![leave_steps()[0]]);
    lemma_entered_none(clone_steps(c, "https://github.com/dot166/"@ + name, name));
    lemma_entered_none(clone_steps(c, "https://github.com/dot166/script"@, "script"@));
    lemma_entered_none(checkout_steps(c, name));
    let script_checkout = if c.action != ManageAction::Bupdate {
        seq![run_or_stop("git"@, seq!["checkout"@, c.branch], "Error checking out branch "@ + c.branch)]
    } else {
        Seq::<StepView>::empty()
    };
    lemma_entered_none(script_checkout);
    let main_checkout = if name != updates_repo() {
        checkout_steps(c, name)
    } else {
        seq![run_or_stop("git"@, seq!["checkout"@, "main"@], "Error checking out main for "@ + name)]
    };
    lemma_entered_none(main_checkout);
    lemma_entered_none(pull_steps(name));
    lemma_entered_none(pull_steps("script"@));
    lemma_entered_none(script_action_steps(c));
    assert forall|i: int| 0 <= i < graphene_action_steps(c, name).len() implies !(
    #[trigger] graphene_action_steps(c, name)[i] is Enter) by {
        if c.action == ManageAction::Release && name == "jOS_manifest"@ {
            assert(graphene_action_steps(c, name) =~= manifest_release_steps(c, name) + tag_steps(c));
        }
        if c.action == ManageAction::Update {
            let x = graphene_action_steps(c, name);
            let r = graphene_rebase_steps(c, name);
            assert(x =~= seq![x[0]] + r + seq![x[x.len() - 1]]);
        }
    }
    lemma_entered_none(graphene_action_steps(c, name));
    lemma_entered_none(lineage_action_steps(c, name));
    lemma_entered_none(independent_action_steps(c, name));
    lemma_entered_none(upstream_steps(c, "https://github.com/grapheneos/"@ + name, name));
    lemma_entered_none(upstream_steps(c, "https://github.com/grapheneos/script"@, "script"@));
    lemma_entered_none(upstream_steps(
        c,
        "https://github.com/LineageOS/"@ + replace_all(name, "platform"@, "android"@),
        name,
    ));
    lemma_entered_none(final_plan(c));
    // graphene
    let g1 = heading(name) + clone_steps(c, "https://github.com/dot166/"@ + name, name);
    let g2 = g1 + enter_steps(name);
    let g3 = g2 + checkout_steps(c, name);
    let g4 = g3 + pull_steps(name);
    let g5 = g4 + graphene_action_steps(c, name);
    let g6 = g5 + upstream_steps(c, "https://github.com/grapheneos/"@ + name, name);
    lemma_entered_append(heading(name), clone_steps(c, "https://github.com/dot166/"@ + name, name));
    lemma_entered_append(g1, enter_steps(name));
    lemma_entered_append(g2, checkout_steps(c, name));
    lemma_entered_append(g3, pull_steps(name));
    lemma_entered_append(g4, graphene_action_steps(c, name));
    lemma_entered_append(g5, upstream_steps(c, "https://github.com/grapheneos/"@ + name, name));
    lemma_entered_append(g6, leave_steps());
    assert(entered_dirs(graphene_plan(c, name)) =~= seq![name, ".."@]);
    // lineage
    let l5 = g4 + lineage_action_steps(c, name);
    let lu = upstream_steps(
        c,
        "https://github.com/LineageOS/"@ + replace_all(name, "platform"@, "android"@),
        name,
    );
    let l6 = l5 + lu;
    lemma_entered_append(g4, lineage_action_steps(c, name));
    lemma_entered_append(l5, lu);
    lemma_entered_append(l6, leave_steps());
    assert(entered_dirs(lineage_plan(c, name)) =~= seq![name, ".."@]);
    // independent
    let i3 = g2 + main_checkout;
    let i4 = i3 + pull_steps(name);
    let i5 = i4 + independent_action_steps(c, name);
    lemma_entered_append(g2, main_checkout);
    lemma_entered_append(i3, pull_steps(name));
    lemma_entered_append(i4, independent_action_steps(c, name));
    lemma_entered_append(i5, leave_steps());
    assert(entered_dirs(independent_plan(c, name)) =~= seq![name, ".."@]);
    // script
    let s1 = heading("script"@) + clone_steps(c, "https://github.com/dot166/script"@, "script"@);
    let s2 = s1 + enter_steps("script"@);
    let s3 = s2 + script_checkout;
    let s4 = s3 + pull_steps("script"@);
    let s5 = s4 + script_action_steps(c);
    let s6 = s5 + upstream_steps(c, "https://github.com/grapheneos/script"@, "script"@);
    lemma_entered_append(heading("script"@), clone_steps(c, "https://github.com/dot166/script"@, "script"@));
    lemma_entered_append(s1, enter_steps("script"@));
    lemma_entered_append(s2, script_checkout);
    lemma_entered_append(s3, pull_steps("script"@));
    lemma_entered_append(s4, script_action_steps(c));
    lemma_entered_append(s5, upstream_steps(c, "https://github.com/grapheneos/script"@, "script"@));
    lemma_entered_append(s6, leave_steps());
    assert(entered_dirs(script_plan(c)) =~= seq!["script"@, ".."@]);
}

} // verus!
