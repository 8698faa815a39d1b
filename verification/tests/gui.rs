use gg_core::gui::{forward_line, parse_forwarded_line, reopen_outcome, window_state_for};
use gg_core::messages::mutations::MutationResult;
use gg_core::messages::{CommitId, DisplayPath, RepoConfig, RepoStatus};
use gg_core::paths::{
    abbreviate_path_with, expand_home, expand_home_with, extract_repo_name, join_path,
    title_candidates, title_candidates_with,
};

#[test]
fn title_candidates_no_workspace() {
    assert_eq!(title_candidates(None), vec!["GG - Gui for JJ"]);
}

#[test]
fn title_candidates_elide_leading_directories() {
    assert_eq!(
        title_candidates(Some("/opt/src/foo/bar")),
        vec![
            "GG - /opt/src/foo/bar",
            "GG - …/src/foo/bar",
            "GG - …/foo/bar",
            "GG - bar",
        ]
    );
}

#[test]
fn title_candidates_abbreviate_home() {
    let home = etcetera::home_dir().unwrap();
    let path = home.join("Documents/Agile/framework");
    let path = path.to_str().unwrap();

    assert_eq!(
        title_candidates(Some(path)),
        vec![
            format!("GG - {path}"),
            String::from("GG - ~/Documents/Agile/framework"),
            String::from("GG - …/Agile/framework"),
            String::from("GG - framework"),
        ]
    );
}

#[test]
fn title_candidates_root() {
    assert_eq!(title_candidates(Some("/")), vec!["GG - /"]);
}

#[test]
fn title_candidates_with_given_home() {
    assert_eq!(
        title_candidates_with(Some("/home/u/a/b"), Some("/home/u")),
        vec!["GG - /home/u/a/b", "GG - ~/a/b", "GG - b"]
    );
    assert_eq!(
        title_candidates_with(Some("/home/u"), Some("/home/u")),
        vec!["GG - /home/u", "GG - ~/"]
    );
    assert_eq!(title_candidates_with(Some("/opt"), None), vec!["GG - /opt", "GG - opt"]);
    assert_eq!(title_candidates_with(Some("opt"), None), vec!["GG - opt"]);
    assert_eq!(
        title_candidates_with(Some("/home/user2/x"), Some("/home/user")),
        vec!["GG - /home/user2/x", "GG - …/user2/x", "GG - x"]
    );
}

#[test]
fn extract_repo_name_forms() {
    assert_eq!(extract_repo_name("https://github.com/user/repo.git"), "repo");
    assert_eq!(extract_repo_name("git@github.com:user/repo.git"), "repo");
    assert_eq!(extract_repo_name("/path/to/repo"), "repo");
    assert_eq!(extract_repo_name("/path/to/repo.git"), "repo");
    assert_eq!(extract_repo_name("/path/to/repo/"), "repo");
    assert_eq!(extract_repo_name("repo.git"), "repo");
}

#[test]
fn abbreviate_against_home() {
    assert_eq!(abbreviate_path_with("/home/u/src/gg", Some("/home/u")), "~/src/gg");
    assert_eq!(abbreviate_path_with("/home/u", Some("/home/u")), "~/");
    assert_eq!(abbreviate_path_with("/home/uu/src", Some("/home/u")), "/home/uu/src");
    assert_eq!(abbreviate_path_with("/opt/x", None), "/opt/x");
    assert_eq!(abbreviate_path_with("home/u/x", Some("/home/u")), "home/u/x");
}

#[test]
fn expand_home_forms() {
    assert_eq!(expand_home_with("~/themes/a.toml", Some("/home/u")), "/home/u/themes/a.toml");
    assert_eq!(expand_home_with("~/x", Some("/home/u/")), "/home/u/x");
    assert_eq!(expand_home_with("~/x", None), "~/x");
    assert_eq!(expand_home_with("/abs/x", Some("/home/u")), "/abs/x");
    assert_eq!(expand_home_with("~x", Some("/home/u")), "~x");
    assert_eq!(expand_home("/etc/gg.toml"), "/etc/gg.toml");
}

#[test]
fn join_path_forms() {
    assert_eq!(join_path("/a", "b"), "/a/b");
    assert_eq!(join_path("/a/", "b"), "/a/b");
    assert_eq!(join_path("/a", "/b"), "/b");
    assert_eq!(join_path("", "b"), "b");
}

fn workspace_config(path: &str, track: bool) -> RepoConfig {
    RepoConfig::Workspace {
        absolute_path: DisplayPath(path.to_string()),
        git_remotes: vec![],
        query_choices: vec![],
        latest_query: "@".to_string(),
        status: RepoStatus {
            operation_description: "op".to_string(),
            working_copy: CommitId {
                hex: "ab".to_string(),
                prefix: "a".to_string(),
                rest: "b".to_string(),
            },
        },
        theme_override: None,
        mark_unpushed_bookmarks: true,
        track_recent_workspaces: track,
        ignore_immutable: false,
        has_external_diff_tool: false,
        has_external_merge_tool: false,
    }
}

#[test]
fn window_state_after_load() {
    let s = window_state_for(&workspace_config("/w", true));
    assert!(s.has_workspace);
    assert_eq!(s.title, "GG - /w");
    assert_eq!(s.record_recent, Some("/w".to_string()));
    let s = window_state_for(&workspace_config("/w", false));
    assert_eq!(s.record_recent, None);
    let s = window_state_for(&RepoConfig::WorkerError { message: "x".to_string() });
    assert!(!s.has_workspace);
    assert_eq!(s.title, "GG - Gui for JJ");
    assert_eq!(s.record_recent, None);
}

#[test]
fn reopen_outcomes() {
    assert!(matches!(reopen_outcome(Ok(None)), MutationResult::Unchanged));
    assert!(matches!(
        reopen_outcome(Ok(Some(RepoConfig::Initial))),
        MutationResult::Reconfigured { new_config: RepoConfig::Initial }
    ));
    match reopen_outcome(Err("bad\nthing".to_string())) {
        MutationResult::InternalError { message } => {
            assert_eq!(message.lines, vec!["bad", "thing"])
        }
        _ => panic!("expected an internal error"),
    }
}

#[test]
fn forwarding_round_trip() {
    assert_eq!(forward_line(Some("/repo")), "/repo\n");
    assert_eq!(forward_line(None), "\n");
    assert_eq!(parse_forwarded_line("/repo\n"), Some("/repo".to_string()));
    assert_eq!(parse_forwarded_line("  \n"), None);
    assert_eq!(parse_forwarded_line(&forward_line(None)), None);
}

#[test]
fn expand_then_abbreviate() {
    let expanded = expand_home_with("~/src/gg", Some("/home/u"));
    assert_eq!(expanded, "/home/u/src/gg");
    assert_eq!(abbreviate_path_with(&expanded, Some("/home/u")), "~/src/gg");
}

#[test]
fn fitting_titles() {
    assert_eq!(gg_core::gui::fitting_title(&[false, true, true]), Some(1));
    assert_eq!(gg_core::gui::fitting_title(&[false, false]), Some(1));
    assert_eq!(gg_core::gui::fitting_title(&[true]), Some(0));
    assert_eq!(gg_core::gui::fitting_title(&[]), None);
}
