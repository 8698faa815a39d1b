use gg_core::messages::RepoConfig;
use gg_core::web::{
    config_scope, dev_server_url, inject_client_id, load_error_config, replace_str,
    route_mutation, ConfigScope, MutationKind,
};

#[test]
fn mutation_routes() {
    assert_eq!(route_mutation("git_push"), Ok(MutationKind::GitPush));
    assert_eq!(route_mutation("undo_operation"), Ok(MutationKind::UndoOperation));
    assert_eq!(route_mutation("abandon_revisions"), Ok(MutationKind::AbandonRevisions));
    assert_eq!(route_mutation("external_resolve"), Ok(MutationKind::ExternalResolve));
    assert_eq!(route_mutation("explode"), Err("Unknown mutation: explode".to_string()));
}

#[test]
fn client_id_injection() {
    assert_eq!(
        inject_client_id("<html><head><title>x</title></head><body></body></html>", "abc"),
        "<html><head><title>x</title><script>window.__GG_CLIENT_ID__=\"abc\";</script></head><body></body></html>"
    );
    assert_eq!(inject_client_id("<p>no head</p>", "abc"), "<p>no head</p>");
    assert_eq!(
        inject_client_id("</head></head>", "1"),
        "<script>window.__GG_CLIENT_ID__=\"1\";</script></head><script>window.__GG_CLIENT_ID__=\"1\";</script></head>"
    );
}

#[test]
fn replace_like_std() {
    for (s, pat, rep) in [("aaaa", "aa", "b"), ("abcabc", "bc", "X"), ("", "a", "b"), ("xyz", "q", "r")] {
        assert_eq!(replace_str(s, pat, rep), s.replace(pat, rep));
    }
}

#[test]
fn trigger_scopes() {
    assert_eq!(config_scope("user"), Some(ConfigScope::User));
    assert_eq!(config_scope("repo"), Some(ConfigScope::Repo));
    assert_eq!(config_scope("system"), None);
}

#[test]
fn dev_server() {
    assert_eq!(dev_server_url("/assets/a.js?x=1"), "http://localhost:6973/assets/a.js?x=1");
}

#[test]
fn load_errors() {
    match load_error_config(Some("/repo"), "no repo") {
        RepoConfig::LoadError { absolute_path, message } => {
            assert_eq!(absolute_path.0, "/repo");
            assert_eq!(message, "no repo");
        }
        _ => panic!("expected a load error"),
    }
    match load_error_config(None, "x") {
        RepoConfig::LoadError { absolute_path, .. } => assert_eq!(absolute_path.0, ""),
        _ => panic!("expected a load error"),
    }
}
