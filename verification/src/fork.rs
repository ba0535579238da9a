//! Forking an AOSP repository into the project's GitHub organisation.
use vstd::prelude::*;
use crate::manage::{
    args1, args2, args3, args4, args11, none, one, opt_view, push_steps, run_or_stop, run_step,
    step_views, two, Step, StepView,
};
use crate::text::{
    char_replacer, chars_of, concat_chars, flat_chars, lemma_replace_char, replace_all,
    replace_all_chars, string_of, string_views, text_of,
};

verus! {

/// `s` without its trailing `'/'` characters (`str::trim_end_matches('/')`).
pub open spec fn trim_trailing_slashes(s: Seq<char>) -> Seq<char>
    decreases s.len(),
{
    if s.len() > 0 && s.last() == '/' {
        trim_trailing_slashes(s.drop_last())
    } else {
        s
    }
}

/// The characters after the last `'/'` of `p` (all of `p` where it has none).
pub open spec fn last_segment(p: Seq<char>) -> Seq<char>
    decreases p.len(),
{
    if p.len() == 0 || p.last() == '/' {
        seq![]
    } else {
        last_segment(p.drop_last()).push(p.last())
    }
}

/// The last component of the path `p`, as `Path::components` splits it: the last of its
/// `'/'`-separated parts that is neither empty nor `"."`.
pub open spec fn last_component(p: Seq<char>) -> Option<Seq<char>>
    decreases p.len(),
{
    if p.len() == 0 {
        None
    } else if p.last() == '/' {
        last_component(p.drop_last())
    } else if last_segment(p) == seq!['.'] {
        last_component(p.drop_last())
    } else {
        Some(last_segment(p))
    }
}

/// What `Path::file_name` gives for the path `p`: its last component, or `None` where it has
/// none or that component is `".."`.
pub open spec fn path_file_name(p: Seq<char>) -> Option<Seq<char>> {
    match last_component(p) {
        Some(c) => if c == seq!['.', '.'] {
            None
        } else {
            Some(c)
        },
        None => None,
    }
}

/// Calls `Path::new(p).file_name()` and takes the name as text. As the documentation of
/// `Path::file_name` and `Path::components` says, the name is the last component of the path,
/// where repeated and trailing separators and `"."` parts are ignored, and there is none where
/// the path ends in `".."` or has no component (`""`, `"/"`, `"."`). `to_str` always gives the
/// name back for a path made from a `&str`.
#[verifier::external_body]
fn file_name_of(p: &str) -> (r: Option<String>)
    ensures
        opt_view(r) == path_file_name(p@),
{
    match std::path::Path::new(p).file_name() {
        Some(n) => match n.to_str() {
            Some(s) => Some(s.to_string()),
            None => None,
        },
        None => None,
    }
}

/// The names that forking an AOSP repository uses.
pub struct ForkNames {
    /// The repository's path under android.googlesource.com.
    pub repo: String,
    /// The directory it is moved to: the path with `'/'` replaced by `'_'`.
    pub local_repo: String,
    /// The URL it is cloned from.
    pub upstream: String,
    /// The directory that `git clone` creates: the last component of the path, where it has
    /// one.
    pub clone_dir: Option<String>,
    /// The GitHub repository it is pushed to.
    pub github_repo: String,
}

/// The names for forking `arg`: the path without trailing slashes, the local directory,
/// the upstream URL, the directory that cloning creates, and the GitHub repository.
pub open spec fn fork_names(arg: Seq<char>) -> (Seq<char>, Seq<char>, Seq<char>, Option<Seq<char>>, Seq<char>) {
    let repo = trim_trailing_slashes(arg);
    let local = replace_all(repo, "/"@, "_"@);
    (repo, local, "https://android.googlesource.com/"@ + repo, path_file_name(repo), "dot166/"@ + local)
}

/// The names for forking the AOSP repository `arg`.
pub fn fork_names_for(arg: &str) -> (r: ForkNames)
    ensures
        fork_names(arg@) == (
            r.repo@,
            r.local_repo@,
            r.upstream@,
            opt_view(r.clone_dir),
            r.github_repo@,
        ),
{
    let a = chars_of(arg);
    let mut end = a.len();
    assert(a@.subrange(0, end as int) =~= a@);
    while end > 0 && a[end - 1] == '/'
        invariant
            end <= a.len(),
            trim_trailing_slashes(a@) == trim_trailing_slashes(a@.subrange(0, end as int)),
        decreases end,
    {
        assert(a@.subrange(0, end as int).drop_last() =~= a@.subrange(0, end - 1));
        end = end - 1;
    }
    let repo = crate::text::copy_range(&a, 0, end);
    let local = replace_all_chars(&repo, &chars_of("/"), &chars_of("_"));
    let repo_s = string_of(&repo);
    let dir = file_name_of(repo_s.as_str());
    let upstream = concat_chars(&chars_of("https://android.googlesource.com/"), &repo);
    let github = concat_chars(&chars_of("dot166/"), &local);
    ForkNames {
        repo: repo_s,
        local_repo: string_of(&local),
        upstream: string_of(&upstream),
        clone_dir: dir,
        github_repo: string_of(&github),
    }
}

/// The steps of forking: clone the tag, then (where the path has a last component) move the
/// clone to the local directory, branch, re-point the remotes and publish it on GitHub.
pub open spec fn fork_plan(
    n: (Seq<char>, Seq<char>, Seq<char>, Option<Seq<char>>, Seq<char>),
    aosp_tag: Seq<char>,
    branch: Seq<char>,
) -> Seq<StepView> {
    let (repo, local, upstream, dir, github) = n;
    seq![
        run_or_stop("git"@, seq!["clone"@, upstream, "-b"@, aosp_tag], "Failed to clone repository"@),
    ] + match dir {
        None => seq![],
        Some(d) => seq![
            StepView::Rename(d, local, "Failed to rename repository directory"@),
            StepView::Enter(local, "Failed to change directory"@),
            run_or_stop("git"@, seq!["checkout"@, "-b"@, branch], "Failed to checkout new branch"@),
            run_or_stop(
                "git"@,
                seq!["remote"@, "add"@, "upstream"@, upstream],
                "Failed to add upstream remote"@,
            ),
            run_or_stop("git"@, seq!["fetch"@, "upstream"@, "--tags"@], "Failed to fetch upstream tags"@),
            run_or_stop("git"@, seq!["remote"@, "rm"@, "origin"@], "Failed to remove origin remote"@),
            run_or_stop(
                "gh"@,
                seq![
                    "repo"@,
                    "create"@,
                    "--public"@,
                    "--push"@,
                    "--source"@,
                    "."@,
                    github,
                    "-h"@,
                    "https://dot166.github.io/jOS/"@,
                    "--disable-issues"@,
                    "--disable-wiki"@,
                ],
                "Failed to create GitHub repository"@,
            ),
            run_or_stop("gh"@, seq!["repo"@, "set-default"@, github], "Failed to set default repository"@),
            run_or_stop(
                "gh"@,
                seq!["repo"@, "edit"@, "--enable-projects=false"@, "--enable-merge-commit=false"@],
                "Failed to edit repository settings"@,
            ),
            run_or_stop("gh"@, seq!["repo"@, "view"@, "--web"@], "Failed to view repository on web"@),
        ],
    }
}

/// The steps of forking the repository that `names` describe from the tag `aosp_tag` onto a
/// new branch `branch`.
pub fn fork_steps(names: &ForkNames, aosp_tag: &str, branch: &str) -> (r: Vec<Step>)
    ensures
        step_views(r@) == fork_plan(
            (names.repo@, names.local_repo@, names.upstream@, opt_view(names.clone_dir), names.github_repo@),
            aosp_tag@,
            branch@,
        ),
{
    let mut v = one(
        run_step(
            "git",
            args4(text_of("clone"), names.upstream.clone(), text_of("-b"), text_of(aosp_tag)),
            text_of("Failed to clone repository"),
        ),
    );
    match &names.clone_dir {
        None => {
            push_steps(&mut v, none());
        },
        Some(d) => {
            let local = names.local_repo.as_str();
            let mut rest = two(
                Step::Rename {
                    from: d.clone(),
                    to: text_of(local),
                    failure: text_of("Failed to rename repository directory"),
                },
                Step::Enter { dir: text_of(local), failure: text_of("Failed to change directory") },
            );
            push_steps(
                &mut rest,
                two(
                    run_step(
                        "git",
                        args3(text_of("checkout"), text_of("-b"), text_of(branch)),
                        text_of("Failed to checkout new branch"),
                    ),
                    run_step(
                        "git",
                        args4(text_of("remote"), text_of("add"), text_of("upstream"), names.upstream.clone()),
                        text_of("Failed to add upstream remote"),
                    ),
                ),
            );
            push_steps(
                &mut rest,
                two(
                    run_step(
                        "git",
                        args3(text_of("fetch"), text_of("upstream"), text_of("--tags")),
                        text_of("Failed to fetch upstream tags"),
                    ),
                    run_step(
                        "git",
                        args3(text_of("remote"), text_of("rm"), text_of("origin")),
                        text_of("Failed to remove origin remote"),
                    ),
                ),
            );
            push_steps(
                &mut rest,
                two(
                    run_step(
                        "gh",
                        args11(
                            text_of("repo"),
                            text_of("create"),
                            text_of("--public"),
                            text_of("--push"),
                            text_of("--source"),
                            text_of("."),
                            names.github_repo.clone(),
                            text_of("-h"),
                            text_of("https://dot166.github.io/jOS/"),
                            text_of("--disable-issues"),
                            text_of("--disable-wiki"),
                        ),
                        text_of("Failed to create GitHub repository"),
                    ),
                    run_step(
                        "gh",
                        args3(text_of("repo"), text_of("set-default"), names.github_repo.clone()),
                        text_of("Failed to set default repository"),
                    ),
                ),
            );
            push_steps(
                &mut rest,
                two(
                    run_step(
                        "gh",
                        args4(
                            text_of("repo"),
                            text_of("edit"),
                            text_of("--enable-projects=false"),
                            text_of("--enable-merge-commit=false"),
                        ),
                        text_of("Failed to edit repository settings"),
                    ),
                    run_step(
                        "gh",
                        args3(text_of("repo"), text_of("view"), text_of("--web")),
                        text_of("Failed to view repository on web"),
                    ),
                ),
            );
            push_steps(&mut v, rest);
        },
    }
    v
}

proof fn lemma_no_slash_after_replace(s: Seq<char>)
    ensures
        forall|i: int| 0 <= i < flat_chars(s, char_replacer('/', "_"@)).len() ==> #[trigger] flat_chars(s, char_replacer('/', "_"@))[i] != '/',
    decreases s.len(),
{
    reveal_strlit("_");
    if s.len() > 0 {
        lemma_no_slash_after_replace(s.drop_first());
        let head = char_replacer('/', "_"@)(s[0]);
        let rest = flat_chars(s.drop_first(), char_replacer('/', "_"@));
        assert(flat_chars(s, char_replacer('/', "_"@)) == head + rest);
        assert forall|i: int| 0 <= i < head.len() implies head[i] != '/' by {
            if s[0] == '/' {
                assert(head == "_"@);
            } else {
                assert(head == seq![s[0]]);
            }
        }
        assert forall|i: int| 0 <= i < (head + rest).len() implies #[trigger] (head + rest)[i] != '/' by {
            if i >= head.len() {
                assert((head + rest)[i] == rest[i - head.len()]);
            }
        }
    }
}

proof fn lemma_trimmed_no_trailing_slash(s: Seq<char>)
    ensures
        trim_trailing_slashes(s).len() == 0 || trim_trailing_slashes(s).last() != '/',
    decreases s.len(),
{
    if s.len() > 0 && s.last() == '/' {
        lemma_trimmed_no_trailing_slash(s.drop_last());
    }
}

/// The repository path has no trailing slash, the local directory name holds no slash, and
/// the GitHub repository is that directory name under `dot166`.
pub proof fn lemma_fork_names(arg: Seq<char>)
    ensures
        ({
            let (repo, local, upstream, dir, github) = fork_names(arg);
            &&& repo.len() == 0 || repo.last() != '/'
            &&& forall|i: int| 0 <= i < local.len() ==> local[i] != '/'
            &&& github == "dot166/"@ + local
            &&& upstream == "https://android.googlesource.com/"@ + repo
        }),
{
    let repo = trim_trailing_slashes(arg);
    lemma_trimmed_no_trailing_slash(arg);
    reveal_strlit("/");
    assert("/"@ =~= seq!['/']);
    lemma_replace_char(repo, '/', "_"@);
    lemma_no_slash_after_replace(repo);
}

/// Forking clones the AOSP tag, and, where the clone has a directory, moves it to the local
/// directory, enters it and creates there the jOS branch `branch` (not the AOSP tag):
/// `git checkout -b <branch>`.
pub proof fn lemma_fork_branches_from_tag(
    n: (Seq<char>, Seq<char>, Seq<char>, Option<Seq<char>>, Seq<char>),
    aosp_tag: Seq<char>,
    branch: Seq<char>,
)
    ensures
        fork_plan(n, aosp_tag, branch)[0] == StepView::Run(
            "git"@,
            seq!["clone"@, n.2, "-b"@, aosp_tag],
            Some("Failed to clone repository"@),
        ),
        n.3 is Some ==> {
            &&& fork_plan(n, aosp_tag, branch).len() == 11
            &&& fork_plan(n, aosp_tag, branch)[1] == StepView::Rename(
                n.3->0,
                n.1,
                "Failed to rename repository directory"@,
            )
            &&& fork_plan(n, aosp_tag, branch)[2] == StepView::Enter(
                n.1,
                "Failed to change directory"@,
            )
            &&& fork_plan(n, aosp_tag, branch)[3] == StepView::Run(
                "git"@,
                seq!["checkout"@, "-b"@, branch],
                Some("Failed to checkout new branch"@),
            )
        },
        n.3 is None ==> fork_plan(n, aosp_tag, branch).len() == 1,
{
}

} // verus!
