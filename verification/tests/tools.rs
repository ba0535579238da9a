use jos_tools::ci::{
    ci_scripts, commit_message_at, commit_message_for, first_marked_dir, rebuild_commit_message, script_dir_candidates,
};
use jos_tools::cli::{build_target_options, emoji_script_options, emoji_tool_options};
use jos_tools::fork::{fork_names_for, fork_steps};
use jos_tools::manage::{
    changes_flag, commit_after_diff, final_steps, graphene_steps, grapheneos_forks, independent_repos,
    independent_steps, lineage_steps, lineageos_forks, manage_request, script_steps,
    ManageAction, ManageContext, ManageError, Step,
};
use jos_tools::text::replace_text;

fn args(v: &[&str]) -> Vec<String> {
    v.iter().map(|s| s.to_string()).collect()
}

fn run(program: &str, a: &[&str], failure: Option<&str>) -> Step {
    Step::Run { program: program.to_string(), args: args(a), failure: failure.map(|f| f.to_string()) }
}

fn enter(dir: &str, failure: &str) -> Step {
    Step::Enter { dir: dir.to_string(), failure: failure.to_string() }
}

fn say(text: &str) -> Step {
    Step::Say { text: text.to_string() }
}

fn ctx(action: ManageAction) -> ManageContext {
    ManageContext {
        action,
        tag: "2025010100".to_string(),
        branch: "16-qpr2".to_string(),
        graphene_tag: "2025010200".to_string(),
        graphene_tag_old: "2024120100".to_string(),
        lineage_branch: "lineage-23.0".to_string(),
    }
}

#[test]
fn emoji_script_options_follow_usage() {
    assert_eq!(emoji_script_options(&args(&["emoji"])), None);
    assert_eq!(emoji_script_options(&args(&["emoji", "url"])), Some(false));
    assert_eq!(emoji_script_options(&args(&["emoji", "url", "-v"])), Some(true));
    assert_eq!(emoji_script_options(&args(&["emoji", "url", "-x"])), None);
    assert_eq!(emoji_script_options(&args(&["emoji", "url", "-v", "x"])), None);
}

#[test]
fn emoji_tool_options_require_http_url_alone() {
    assert_eq!(emoji_tool_options(&args(&["emoji", "https://unicode.org/x"])), Some(false));
    assert_eq!(emoji_tool_options(&args(&["emoji", "ftp://x"])), None);
    assert_eq!(emoji_tool_options(&args(&["emoji", "ftp://x", "-v"])), Some(true));
}

#[test]
fn build_target_maps_emulator() {
    assert_eq!(
        build_target_options(&args(&["b", "emulator", "userdebug"])),
        Some(("sdk_phone64_x86_64".to_string(), "userdebug".to_string()))
    );
    assert_eq!(
        build_target_options(&args(&["b", "oriole", "user"])),
        Some(("oriole".to_string(), "user".to_string()))
    );
    assert_eq!(build_target_options(&args(&["b", "oriole"])), None);
}

#[test]
fn manage_request_accepts_and_refuses() {
    let r = manage_request(&args(&["manage", "update"]), None).unwrap();
    assert_eq!(r.action, ManageAction::Update);
    assert_eq!(r.tag, "");
    let r = manage_request(&args(&["manage", "release", "v1"]), Some("false".to_string())).unwrap();
    assert_eq!(r.action, ManageAction::Release);
    assert_eq!(r.tag, "v1");
    let r = manage_request(&args(&["manage", "init"]), Some("true".to_string())).unwrap();
    assert_eq!(r.action, ManageAction::Init);
    assert_eq!(
        manage_request(&args(&["manage", "update"]), Some("true".to_string())).err(),
        Some(ManageError::RefusedOnCi)
    );
    assert_eq!(
        manage_request(&args(&["manage", "delete", "v"]), Some("true".to_string())).err(),
        Some(ManageError::RefusedOnCi)
    );
    assert_eq!(manage_request(&args(&["manage"]), None).err(), Some(ManageError::MissingAction));
    assert_eq!(manage_request(&args(&["manage", "release"]), None).err(), Some(ManageError::MissingTag));
    assert_eq!(
        manage_request(&args(&["manage", "release", "a", "b"]), None).err(),
        Some(ManageError::ExtraTagArguments)
    );
    assert_eq!(
        manage_request(&args(&["manage", "null", "x"]), None).err(),
        Some(ManageError::UnexpectedArguments)
    );
    assert_eq!(manage_request(&args(&["manage", "frob"]), None).err(), Some(ManageError::UnrecognizedAction));
}

#[test]
fn script_steps_for_update_reload_the_branch() {
    let steps = script_steps(&ctx(ManageAction::Update));
    assert_eq!(
        steps,
        vec![
            say("\n>>> Handling script"),
            enter("script", "Failed to change directory to script"),
            run("git", &["checkout", "16-qpr2"], Some("Error checking out branch 16-qpr2")),
            run("git", &["pull"], Some("Error pulling changes for script")),
            run("git", &["fetch", "upstream", "--tags", "--force"], Some("Error fetching upstream tags")),
            run("git", &["rebase", "--onto", "2025010200", "2024120100"], Some("Error rebasing script")),
            Step::ReloadBranch,
            run("git", &["push", "-f"], Some("Error pushing changes for script")),
            enter("..", "Failed to change back to parent directory"),
        ]
    );
}

#[test]
fn graphene_steps_for_init_clone_and_add_upstream() {
    let steps = graphene_steps(&ctx(ManageAction::Init), "platform_build");
    assert_eq!(
        steps,
        vec![
            say("\n>>> Handling platform_build"),
            run("git", &["clone", "https://github.com/dot166/platform_build"], Some("Error cloning platform_build")),
            enter("platform_build", "Failed to change directory to platform_build"),
            run("git", &["checkout", "16-qpr2"], Some("Error checking out branch 16-qpr2")),
            run("git", &["pull"], Some("Error pulling changes for platform_build")),
            run(
                "git",
                &["remote", "add", "upstream", "https://github.com/grapheneos/platform_build"],
                Some("Error adding upstream for platform_build")
            ),
            run("git", &["fetch", "upstream", "--tags"], Some("Error fetching upstream tags for platform_build")),
            enter("..", "Failed to change back to parent directory"),
        ]
    );
}

#[test]
fn manifest_update_rewrites_tags_and_commits_changes() {
    let steps = graphene_steps(&ctx(ManageAction::Update), "platform_manifest");
    assert!(steps.contains(&run(
        "git",
        &["rebase", "--onto", "2025010200~1", "2024120100~1"],
        Some("Error rebasing platform_manifest")
    )));
    assert!(steps.contains(&Step::Rewrite {
        file: "default.xml".to_string(),
        from: "2024120100".to_string(),
        to: "2025010200".to_string(),
        failure: "Error updating default.xml for manifest".to_string(),
    }));
    assert!(steps.contains(&Step::CommitIfChanged {
        args: args(&["commit", "default.xml", "-m", "GrapheneOS 2025010200"]),
        failure: "Error committing default.xml for platform_manifest".to_string(),
    }));
}

#[test]
fn bupdate_creates_the_branch_from_origin() {
    let steps = lineage_steps(&ctx(ManageAction::Bupdate), "platform_packages_apps_Etar");
    assert_eq!(steps[2], run("git", &["checkout", "origin"], Some("Error checking out origin for platform_packages_apps_Etar")));
    assert_eq!(steps[5], run("git", &["push", "--set-upstream", "origin", "16-qpr2"], Some("Error pushing 16-qpr2 to upstream")));
    assert_eq!(final_steps(&ctx(ManageAction::Bupdate)).len(), 2);
    assert!(final_steps(&ctx(ManageAction::Update)).is_empty());
}

#[test]
fn lineage_init_uses_android_upstream_name() {
    let steps = lineage_steps(&ctx(ManageAction::Init), "platform_packages_apps_Recorder");
    assert!(steps.contains(&run(
        "git",
        &["remote", "add", "upstream", "https://github.com/LineageOS/android_packages_apps_Recorder"],
        Some("Error adding upstream for platform_packages_apps_Recorder")
    )));
}

#[test]
fn updates_repo_release_publishes_images() {
    let steps = independent_steps(&ctx(ManageAction::Release), "jOS-Updates");
    assert_eq!(steps[2], run("git", &["checkout", "main"], Some("Error checking out main for jOS-Updates")));
    assert!(steps.contains(&run(
        "cp",
        &["-T", "../../grapheneos/releases/2025010100/release-oriole-2025010100/oriole-stable", "oriole-stable"],
        Some("Error copying stable release for jOS-Updates")
    )));
    let last_run = &steps[steps.len() - 2];
    assert_eq!(
        *last_run,
        run(
            "gh",
            &[
                "release",
                "create",
                "2025010100",
                "--latest=true",
                "--notes",
                "i keep forgetting to write changelogs",
                "../../grapheneos/releases/2025010100/release-oriole-2025010100/oriole-ota_update-2025010100.zip",
                "../../grapheneos/releases/2025010100/release-oriole-2025010100/oriole-install-2025010100.zip",
            ],
            Some("Error creating release for jOS-Updates")
        )
    );
    let defaults = independent_steps(&ctx(ManageAction::Default), "jOS-Updates");
    assert_eq!(defaults.len(), 5);
}

#[test]
fn delete_ignores_failures() {
    let steps = graphene_steps(&ctx(ManageAction::Delete), "platform_build");
    assert!(steps.contains(&run("git", &["tag", "-d", "2025010100"], None)));
    assert!(steps.contains(&run("git", &["push", "origin", "--delete", "2025010100"], None)));
}

#[test]
fn repository_lists() {
    assert_eq!(grapheneos_forks().len(), 14);
    assert_eq!(grapheneos_forks()[4], "platform_manifest");
    assert_eq!(lineageos_forks(), args(&["platform_packages_apps_Recorder", "platform_packages_apps_Etar"]));
    assert_eq!(independent_repos(), args(&["jOS-Updates"]));
}

#[test]
fn changes_flag_values() {
    assert_eq!(changes_flag(Some(true)), 0);
    assert_eq!(changes_flag(Some(false)), 1);
    assert_eq!(changes_flag(None), 1);
}

#[test]
fn commit_after_diff_commits_only_on_changes() {
    let a = args(&["commit", "default.xml", "-m", "GrapheneOS 1"]);
    assert_eq!(commit_after_diff(Some(true), &a, "Error"), vec![say("CHANGES=0")]);
    let expected = vec![say("CHANGES=1"), run("git", &["commit", "default.xml", "-m", "GrapheneOS 1"], Some("Error"))];
    assert_eq!(commit_after_diff(Some(false), &a, "Error"), expected);
    assert_eq!(commit_after_diff(None, &a, "Error"), expected);
}

#[test]
fn fork_names_of_nested_repository() {
    let n = fork_names_for("platform/packages/apps/Foo//");
    assert_eq!(n.repo, "platform/packages/apps/Foo");
    assert_eq!(n.local_repo, "platform_packages_apps_Foo");
    assert_eq!(n.upstream, "https://android.googlesource.com/platform/packages/apps/Foo");
    assert_eq!(n.clone_dir, Some("Foo".to_string()));
    assert_eq!(n.github_repo, "dot166/platform_packages_apps_Foo");
}

#[test]
fn fork_steps_clone_move_and_publish() {
    let n = fork_names_for("platform/build");
    let steps = fork_steps(&n, "android-16.0.0_r1", "16");
    assert_eq!(steps.len(), 11);
    assert_eq!(
        steps[0],
        run(
            "git",
            &["clone", "https://android.googlesource.com/platform/build", "-b", "android-16.0.0_r1"],
            Some("Failed to clone repository")
        )
    );
    assert_eq!(
        steps[1],
        Step::Rename {
            from: "build".to_string(),
            to: "platform_build".to_string(),
            failure: "Failed to rename repository directory".to_string(),
        }
    );
    assert_eq!(steps[7].clone(), run(
        "gh",
        &["repo", "create", "--public", "--push", "--source", ".", "dot166/platform_build", "-h", "https://dot166.github.io/jOS/", "--disable-issues", "--disable-wiki"],
        Some("Failed to create GitHub repository")
    ));
}

#[test]
fn fork_of_root_path_stops_after_clone() {
    let n = fork_names_for("/");
    assert_eq!(n.repo, "");
    assert_eq!(n.clone_dir, None);
    assert_eq!(fork_steps(&n, "t", "b").len(), 1);
}

#[test]
fn fork_clone_dir_follows_path_components() {
    assert_eq!(fork_names_for("platform/./build/.").clone_dir, Some("build".to_string()));
    assert_eq!(fork_names_for("device//google").clone_dir, Some("google".to_string()));
    assert_eq!(fork_names_for("platform/..").clone_dir, None);
    assert_eq!(fork_names_for(".").clone_dir, None);
    assert_eq!(fork_names_for("").clone_dir, None);
}

#[test]
fn script_dir_candidates_walk_up_to_root() {
    assert_eq!(
        script_dir_candidates(&args(&["home", "u", "jOS"])),
        args(&["/home/u/jOS", "/home/u", "/home"])
    );
    assert!(script_dir_candidates(&args(&[])).is_empty());
}

#[test]
fn ci_scripts_and_commit_message() {
    assert_eq!(ci_scripts(), args(&["build-android", "emoji", "fork-aosp", "manage", "update-checkout"]));
    assert_eq!(commit_message_for("20250101"), "rebuilt scripts 20250101");
    let m = rebuild_commit_message().unwrap();
    assert!(m.starts_with("rebuilt scripts "));
    assert_eq!(m.len(), "rebuilt scripts ".len() + 8);
    let stamp = &m["rebuilt scripts ".len()..];
    assert!(stamp.chars().all(|c| c.is_ascii_digit()));
    let year: u32 = stamp[0..4].parse().unwrap();
    let month: u32 = stamp[4..6].parse().unwrap();
    let day: u32 = stamp[6..8].parse().unwrap();
    assert!(year >= 1970);
    assert!((1..=12).contains(&month));
    assert!((1..=31).contains(&day));
}

#[test]
fn commit_message_at_known_times() {
    assert_eq!(commit_message_at(0, 0), Some("rebuilt scripts 19700101".to_string()));
    assert_eq!(commit_message_at(1_735_689_600, 5), Some("rebuilt scripts 20250101".to_string()));
    assert_eq!(commit_message_at(1_735_689_599, 999_999_999), Some("rebuilt scripts 20241231".to_string()));
    assert_eq!(commit_message_at(253_402_300_800, 0), Some("rebuilt scripts +100000101".to_string()));
    assert_eq!(commit_message_at(u64::MAX, 0), None);
    assert_eq!(commit_message_at(9_223_372_036_854_775_807, 0), None);
}

#[test]
fn first_marked_dir_picks_the_innermost_marked() {
    let dirs = args(&["/home/u/jOS/x", "/home/u/jOS", "/home/u", "/home"]);
    assert_eq!(first_marked_dir(&dirs, &vec![false, true, true, false]), Some("/home/u/jOS".to_string()));
    assert_eq!(first_marked_dir(&dirs, &vec![false, false, false, false]), None);
    assert_eq!(first_marked_dir(&dirs, &vec![false]), None);
    assert_eq!(first_marked_dir(&args(&[]), &vec![true]), None);
}

#[test]
fn replace_text_matches_str_replace() {
    for (s, from, to) in [("a/b/c", "/", "_"), ("aaa", "aa", "b"), ("abc", "", "x"), ("", "", "x"), ("16-qpr2 x 16-qpr2", "16-qpr2", "T")] {
        assert_eq!(replace_text(s, from, to), s.replace(from, to));
    }
}
