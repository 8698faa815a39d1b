use gg_core::cli::{launch_in_background, Args, Subcommand};
use gg_core::web::WebOptions;
use gg_core::config::{
    default_mode, read_revset_query_choices, ClientTimeout, GGSettings, GgConfig, LaunchMode,
};

fn empty_config() -> GgConfig {
    GgConfig {
        default_mode: None,
        log_page_size: None,
        large_repo_heuristic: None,
        auto_snapshot: None,
        theme_override: None,
        mark_unpushed_bookmarks: None,
        mark_unpushed_branches: None,
        track_recent_workspaces: None,
        recent_workspaces: None,
        web_default_port: None,
        web_client_timeout: None,
        web_launch_browser: None,
    }
}

#[test]
fn defaults_when_unset() {
    let c = empty_config();
    assert_eq!(c.default_mode(), LaunchMode::Gui);
    assert_eq!(c.query_log_page_size(), 1000);
    assert_eq!(c.query_large_repo_heuristic(), 100000);
    assert_eq!(c.query_auto_snapshot(), None);
    assert_eq!(c.ui_theme_override(), None);
    assert!(c.ui_mark_unpushed_bookmarks());
    assert!(c.ui_track_recent_workspaces());
    assert!(c.ui_recent_workspaces().is_empty());
    assert_eq!(c.web_default_port(), 0);
    assert_eq!(c.web_client_timeout(), ClientTimeout { secs: 600, nanos: 0 });
    assert!(c.web_launch_browser());
}

#[test]
fn configured_values() {
    let mut c = empty_config();
    c.default_mode = Some("web".to_string());
    c.log_page_size = Some(50);
    c.large_repo_heuristic = Some(-1);
    c.auto_snapshot = Some(false);
    c.theme_override = Some("dark".to_string());
    c.mark_unpushed_branches = Some(false);
    c.track_recent_workspaces = Some(false);
    c.recent_workspaces = Some(vec![Some("/a".to_string()), None, Some("/b".to_string())]);
    c.web_default_port = Some(2178);
    c.web_client_timeout = Some("10m".to_string());
    c.web_launch_browser = Some(false);
    assert_eq!(c.default_mode(), LaunchMode::Web);
    assert_eq!(c.query_log_page_size(), 50);
    assert_eq!(c.query_large_repo_heuristic(), -1);
    assert_eq!(c.query_auto_snapshot(), Some(false));
    assert_eq!(c.ui_theme_override(), Some("dark".to_string()));
    assert!(!c.ui_mark_unpushed_bookmarks());
    c.mark_unpushed_bookmarks = Some(true);
    assert!(c.ui_mark_unpushed_bookmarks());
    assert!(!c.ui_track_recent_workspaces());
    assert_eq!(c.ui_recent_workspaces(), vec!["/a", "/b"]);
    assert_eq!(c.web_default_port(), 2178);
    assert_eq!(c.web_client_timeout(), ClientTimeout { secs: 600, nanos: 0 });
    assert!(!c.web_launch_browser());
}

#[test]
fn client_timeout_parsing() {
    let mut c = empty_config();
    c.web_client_timeout = Some("1h 30s".to_string());
    assert_eq!(c.web_client_timeout(), ClientTimeout { secs: 3630, nanos: 0 });
    c.web_client_timeout = Some("250ms".to_string());
    assert_eq!(c.web_client_timeout(), ClientTimeout { secs: 0, nanos: 250_000_000 });
    c.web_client_timeout = Some("0".to_string());
    assert_eq!(c.web_client_timeout(), ClientTimeout { secs: 0, nanos: 0 });
    c.web_client_timeout = Some("soon".to_string());
    assert_eq!(c.web_client_timeout(), ClientTimeout { secs: 600, nanos: 0 });
}

#[test]
fn client_timeout_digit_bound() {
    let mut c = empty_config();
    // within the bound: about three years in milliseconds
    c.web_client_timeout = Some("100000000000ms".to_string());
    assert_eq!(c.web_client_timeout(), ClientTimeout { secs: 100_000_000, nanos: 0 });
    // beyond the bound the text is not read and the default applies
    c.web_client_timeout = Some("1000000000000ms".to_string());
    assert_eq!(c.web_client_timeout(), ClientTimeout { secs: 600, nanos: 0 });
    c.web_client_timeout = Some("18446744073709551615s 1000000000ns".to_string());
    assert_eq!(c.web_client_timeout(), ClientTimeout { secs: 600, nanos: 0 });
}

#[test]
fn integer_settings_wrap_like_casts() {
    let mut c = empty_config();
    c.web_default_port = Some(65536 + 80);
    assert_eq!(c.web_default_port(), 80);
    c.log_page_size = Some(-1);
    assert_eq!(c.query_log_page_size(), usize::MAX);
}

#[test]
fn default_mode_names() {
    assert_eq!(default_mode(Some("web")), LaunchMode::Web);
    assert_eq!(default_mode(Some("gui")), LaunchMode::Gui);
    assert_eq!(default_mode(Some("tui")), LaunchMode::Gui);
    assert_eq!(default_mode(None), LaunchMode::Gui);
    assert_eq!(LaunchMode::Web.as_str(), "web");
    assert_eq!(LaunchMode::default().as_str(), "gui");
}

fn table(entries: &[(&str, Option<&str>)]) -> Option<Vec<(String, Option<String>)>> {
    Some(entries.iter().map(|(k, v)| (k.to_string(), v.map(|s| s.to_string()))).collect())
}

#[test]
fn query_choices_later_layers_override() {
    let layers = vec![
        table(&[("all", Some("all()")), ("mine", Some("mine()"))]),
        None,
        table(&[("mine", Some("author(me)")), ("bad", None), ("new", Some("@"))]),
    ];
    let choices = read_revset_query_choices(&layers);
    assert_eq!(choices.len(), 3);
    assert_eq!(choices.get("all"), Some(&"all()".to_string()));
    assert_eq!(choices.get("mine"), Some(&"author(me)".to_string()));
    assert_eq!(choices.get("new"), Some(&"@".to_string()));
    assert!(!choices.contains_key("bad"));
}

fn args(command: Option<Subcommand>, workspace: Option<&str>) -> Args {
    Args {
        command,
        workspace: workspace.map(|s| s.to_string()),
        debug: false,
        ignore_immutable: false,
        foreground: false,
    }
}

#[test]
fn command_line_modes() {
    let plain = args(None, Some("/w"));
    assert_eq!(plain.mode(), None);
    assert_eq!(plain.launch_mode(LaunchMode::Web), LaunchMode::Web);
    assert_eq!(plain.workspace(), Some("/w".to_string()));
    assert_eq!(plain.web_options(), WebOptions::default());

    let gui = args(Some(Subcommand::Gui { workspace: Some("/g".to_string()) }), Some("/w"));
    assert_eq!(gui.mode(), Some(LaunchMode::Gui));
    assert_eq!(gui.launch_mode(LaunchMode::Web), LaunchMode::Gui);
    assert_eq!(gui.workspace(), Some("/g".to_string()));

    let web = args(
        Some(Subcommand::Web { workspace: None, port: Some(8080), launch: false, no_launch: true }),
        None,
    );
    assert_eq!(web.mode(), Some(LaunchMode::Web));
    assert_eq!(web.workspace(), None);
    let options = web.web_options();
    assert_eq!(options, WebOptions { port: Some(8080), launch: false, no_launch: true });
    assert_eq!(options.port_or(2178), 8080);
    assert!(!options.launch_browser(true));
}

#[test]
fn web_launch_decisions() {
    let forced = WebOptions { port: None, launch: true, no_launch: false };
    assert!(forced.launch_browser(false));
    let default = WebOptions::default();
    assert!(default.launch_browser(true));
    assert!(!default.launch_browser(false));
    assert_eq!(default.port_or(2178), 2178);
}

#[test]
fn windows_launcher_decision() {
    assert!(launch_in_background(Some("gg.exe"), false));
    assert!(!launch_in_background(Some("gg.exe"), true));
    assert!(!launch_in_background(Some("gg-gui.exe"), false));
    assert!(!launch_in_background(None, false));
}
