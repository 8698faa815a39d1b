use gg_core::git_util::{
    askpass_environment, parse_askpass_reply, AuthContext, SinkSubprogressCallback,
};
use gg_core::messages::mutations::MutationResult;
use gg_core::messages::{InputResponse, MultilineString, ProgressEvent};

#[test]
fn git_util_test_into_result_without_auth_required() {
    let ctx = AuthContext::new(None);

    let result = ctx.into_result("network error");

    assert!(matches!(result, MutationResult::InternalError { .. }));
}

#[test]
fn into_result_keeps_error_lines() {
    let ctx = AuthContext::new(None);
    match ctx.into_result("first\nsecond") {
        MutationResult::InternalError { message: MultilineString { lines } } => {
            assert_eq!(lines, vec!["first", "second"])
        }
        _ => panic!("expected an internal error"),
    }
}

fn response(fields: &[(&str, &str)]) -> InputResponse {
    InputResponse {
        fields: fields.iter().map(|(k, v)| (k.to_string(), v.to_string())).collect(),
    }
}

#[test]
fn askpass_with_credentials() {
    let mut ctx = AuthContext::new(Some(response(&[("Password", "secret123")])));
    let reply = ctx.answer_prompt("Password\n");
    assert_eq!(reply, "OK:secret123");
    assert_eq!(parse_askpass_reply(&format!("{reply}\n")), Some("secret123".to_string()));
    assert!(ctx.prompts().is_empty());
}

#[test]
fn askpass_without_credentials() {
    let mut ctx = AuthContext::new(None);
    let reply = ctx.answer_prompt("Username for 'https://github.com':\n");
    assert_eq!(reply, "NO");
    assert_eq!(parse_askpass_reply("NO\n"), None);
    assert_eq!(ctx.prompts().len(), 1);
    assert_eq!(ctx.prompts()[0], "Username for 'https://github.com':");
    match ctx.into_result("auth failed") {
        MutationResult::InputRequired { request } => {
            assert_eq!(request.title, "Git Authentication");
            assert_eq!(request.detail, "");
            assert_eq!(request.fields.len(), 1);
            assert_eq!(request.fields[0].label, "Username for 'https://github.com':");
            assert!(request.fields[0].choices.is_empty());
        }
        _ => panic!("expected an input request"),
    }
}

#[test]
fn askpass_unknown_prompt_is_recorded() {
    let mut ctx = AuthContext::new(Some(response(&[("Password", "pw")])));
    assert_eq!(ctx.answer_prompt("  Passphrase  "), "NO");
    assert_eq!(ctx.answer_prompt("Password"), "OK:pw");
    assert_eq!(ctx.prompts(), &vec!["Passphrase".to_string()]);
}

#[test]
fn input_response_lookup() {
    let r = response(&[("a", "1"), ("b", "2")]);
    assert_eq!(r.get("b"), Some(&"2".to_string()));
    assert_eq!(r.get("c"), None);
}

#[test]
fn askpass_reply_parsing() {
    assert_eq!(parse_askpass_reply("OK:"), Some(String::new()));
    assert_eq!(parse_askpass_reply("  OK:x y  \n"), Some("x y".to_string()));
    assert_eq!(parse_askpass_reply("ok:x"), None);
    assert_eq!(parse_askpass_reply(""), None);
}

#[test]
fn askpass_env() {
    let env = askpass_environment("/bin/gg", "/tmp/s.sock");
    assert_eq!(
        env,
        vec![
            ("GIT_ASKPASS".to_string(), "/bin/gg".to_string()),
            ("GIT_TERMINAL_PROMPT".to_string(), "0".to_string()),
            ("SSH_ASKPASS".to_string(), "/bin/gg".to_string()),
            ("SSH_ASKPASS_REQUIRE".to_string(), "force".to_string()),
            ("GG_ASKPASS_SOCKET".to_string(), "/tmp/s.sock".to_string()),
        ]
    );
}

fn message_text(e: Option<ProgressEvent>) -> Option<String> {
    match e {
        Some(ProgressEvent::Message { text }) => Some(text),
        _ => None,
    }
}

#[test]
fn sideband_messages() {
    let cb = SinkSubprogressCallback { has_sink: true };
    assert!(cb.needs_progress());
    assert_eq!(message_text(cb.local_sideband(b"  counting objects\r\n")), Some("counting objects".to_string()));
    assert_eq!(message_text(cb.remote_sideband(b"hello\n")), Some("remote: hello".to_string()));
    assert_eq!(message_text(cb.remote_sideband(b"  \n")), None);
    assert_eq!(message_text(cb.local_sideband(&[0xff, 0x41])), None);
    assert_eq!(message_text(cb.local_sideband("héllo".as_bytes())), Some("héllo".to_string()));
    assert!(matches!(cb.progress(42), Some(ProgressEvent::Progress { overall_percent: 42 })));

    let silent = SinkSubprogressCallback { has_sink: false };
    assert!(!silent.needs_progress());
    assert!(silent.local_sideband(b"x").is_none());
    assert!(silent.progress(1).is_none());
}
