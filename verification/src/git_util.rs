//! Git authentication and progress relay.
//!
//! GG acts as server (started by a user) and client (started by git) to
//! implement the askpass protocol. Its own protocol is trivial: the client
//! sends a newline-terminated prompt to the server, which responds with either
//! `OK:<credential>` taken from an existing [`InputResponse`], or `NO` when it
//! has to ask the user first; the prompts it could not answer are collected so
//! that the mutation can return an [`InputRequest`] for them.
use vstd::prelude::*;
use vstd::string::*;
use vstd::utf8::{decode_utf8, valid_utf8};

use crate::messages::mutations::MutationResult;
use crate::messages::{InputField, InputRequest, InputResponse, MultilineString, ProgressEvent};
use crate::text::{is_white_space, lemma_trim_end_len, split_char, str_eq, trim, trim_end, trim_start, trim_str};

verus! {

/// The credential that answers `prompt`, if `input` holds one for it.
pub open spec fn credential_for(input: Option<InputResponse>, prompt: Seq<char>) -> Option<
    Seq<char>,
> {
    match input {
        Some(response) => response.value_of(prompt),
        None => None,
    }
}

/// The line the server sends back for a prompt line: `OK:` and the
/// credential for the trimmed prompt, or `NO`.
pub open spec fn askpass_reply(input: Option<InputResponse>, prompt_line: Seq<char>) -> Seq<char> {
    match credential_for(input, trim(prompt_line)) {
        Some(credential) => "OK:"@ + credential,
        None => "NO"@,
    }
}

/// The prompts recorded after answering `prompt_line`: the trimmed prompt is
/// added when no credential answers it.
pub open spec fn prompts_after(
    input: Option<InputResponse>,
    prompts: Seq<Seq<char>>,
    prompt_line: Seq<char>,
) -> Seq<Seq<char>> {
    match credential_for(input, trim(prompt_line)) {
        Some(_) => prompts,
        None => prompts.push(trim(prompt_line)),
    }
}

/// The credential in a reply line received by the client: what follows `OK:`
/// in the trimmed line, or `None` when the line does not start with `OK:`.
pub open spec fn credential_in_reply(reply_line: Seq<char>) -> Option<Seq<char>> {
    let t = trim(reply_line);
    if t.len() >= 3 && t.subrange(0, 3) == "OK:"@ {
        Some(t.subrange(3, t.len() as int))
    } else {
        None
    }
}

/// Reads the credential out of the server's reply line.
pub fn parse_askpass_reply(reply_line: &str) -> (r: Option<String>)
    ensures
        match credential_in_reply(reply_line@) {
            Some(c) => (r matches Some(s) && s@ == c),
            None => r is None,
        },
{
    let t = trim_str(reply_line);
    let n = t.unicode_len();
    if n >= 3 && str_eq(t.as_str().substring_char(0, 3), "OK:") {
        Some(String::from_str(t.as_str().substring_char(3, n)))
    } else {
        None
    }
}

/// The environment that makes git and ssh call `exe_path` back as their
/// askpass program, reaching the server at `socket_path`.
pub open spec fn askpass_environment_spec(exe_path: Seq<char>, socket_path: Seq<char>) -> Seq<
    (Seq<char>, Seq<char>),
> {
    seq![
        ("GIT_ASKPASS"@, exe_path),
        ("GIT_TERMINAL_PROMPT"@, "0"@),
        ("SSH_ASKPASS"@, exe_path),
        ("SSH_ASKPASS_REQUIRE"@, "force"@),
        ("GG_ASKPASS_SOCKET"@, socket_path),
    ]
}

/// Builds the environment of [`askpass_environment_spec`].
pub fn askpass_environment(exe_path: &str, socket_path: &str) -> (r: Vec<(String, String)>)
    ensures
        r@.map_values(|p: (String, String)| (p.0@, p.1@)) == askpass_environment_spec(
            exe_path@,
            socket_path@,
        ),
{
    let mut v: Vec<(String, String)> = Vec::new();
    v.push((String::from_str("GIT_ASKPASS"), String::from_str(exe_path)));
    v.push((String::from_str("GIT_TERMINAL_PROMPT"), String::from_str("0")));
    v.push((String::from_str("SSH_ASKPASS"), String::from_str(exe_path)));
    v.push((String::from_str("SSH_ASKPASS_REQUIRE"), String::from_str("force")));
    v.push((String::from_str("GG_ASKPASS_SOCKET"), String::from_str(socket_path)));
    assert(v@.map_values(|p: (String, String)| (p.0@, p.1@)) =~= askpass_environment_spec(
        exe_path@,
        socket_path@,
    ));
    v
}

/// The credentials available to a git operation and the prompts that it
/// could not answer.
pub struct AuthContext {
    input: Option<InputResponse>,
    prompts: Vec<String>,
}

impl AuthContext {
    /// The credentials supplied by the user, if any.
    pub closed spec fn response(&self) -> Option<InputResponse> {
        self.input
    }

    /// The prompts recorded so far, in the order they came.
    pub closed spec fn prompt_list(&self) -> Seq<Seq<char>> {
        self.prompts@.map_values(|p: String| p@)
    }

    /// A context with the given credentials and no recorded prompt.
    pub fn new(input: Option<InputResponse>) -> (r: AuthContext)
        ensures
            r.response() == input,
            r.prompt_list() == Seq::<Seq<char>>::empty(),
    {
        let r = AuthContext { input, prompts: Vec::new() };
        assert(r.prompt_list() =~= Seq::<Seq<char>>::empty());
        r
    }

    /// The prompts recorded so far.
    pub fn prompts(&self) -> (r: &Vec<String>)
        ensures
            r@.map_values(|p: String| p@) == self.prompt_list(),
    {
        &self.prompts
    }

    /// Answers one prompt line received by the server: the reply to send,
    /// the prompt recorded when no credential answers it.
    pub fn answer_prompt(&mut self, prompt_line: &str) -> (reply: String)
        ensures
            reply@ == askpass_reply(old(self).response(), prompt_line@),
            final(self).response() == old(self).response(),
            final(self).prompt_list() == prompts_after(
                old(self).response(),
                old(self).prompt_list(),
                prompt_line@,
            ),
    {
        let prompt = trim_str(prompt_line);
        let found = match &self.input {
            Some(response) => response.get(prompt.as_str()),
            None => None,
        };
        match found {
            Some(value) => {
                let mut reply = String::from_str("OK:");
                reply.append(value.as_str());
                reply
            },
            None => {
                let ghost before = self.prompts@;
                self.prompts.push(prompt);
                proof {
                    assert(self.prompts@.map_values(|p: String| p@) =~= before.map_values(
                        |p: String| p@,
                    ).push(trim(prompt_line@)));
                }
                String::from_str("NO")
            },
        }
    }

    /// The result of a git operation that failed with `error_message`: an
    /// input request for the recorded prompts, or the error itself when
    /// there is none.
    pub fn into_result(self, error_message: &str) -> (r: MutationResult)
        ensures
            self.prompt_list().len() == 0 ==> (r matches MutationResult::InternalError {
                message,
            } && message.line_views() == split_char(error_message@, '\n')),
            self.prompt_list().len() > 0 ==> (r matches MutationResult::InputRequired {
                request,
            } && request.title@ == "Git Authentication"@ && request.detail@.len() == 0
                && request.fields@.len() == self.prompt_list().len() && forall|i: int|
                0 <= i < request.fields@.len() ==> (#[trigger] request.fields@[i]).label@
                == self.prompt_list()[i] && request.fields@[i].choices@.len() == 0),
    {
        if self.prompts.len() == 0 {
            MutationResult::InternalError { message: MultilineString::from_text(error_message) }
        } else {
            let mut fields: Vec<InputField> = Vec::new();
            let mut i: usize = 0;
            while i < self.prompts.len()
                invariant
                    i <= self.prompts.len(),
                    fields@.len() == i,
                    forall|j: int|
                        0 <= j < i ==> (#[trigger] fields@[j]).label@ == self.prompts@[j]@
                            && fields@[j].choices@.len() == 0,
                decreases self.prompts.len() - i,
            {
                fields.push(InputField::from_label(self.prompts[i].as_str()));
                i = i + 1;
            }
            MutationResult::InputRequired {
                request: InputRequest {
                    title: String::from_str("Git Authentication"),
                    detail: String::new(),
                    fields,
                },
            }
        }
    }
}

/// Decodes `bytes` with `std::str::from_utf8`, which succeeds exactly on
/// valid UTF-8 and then yields the characters it encodes.
#[verifier::external_body]
fn decode_utf8_strict(bytes: &[u8]) -> (r: Option<String>)
    ensures
        r is Some <==> valid_utf8(bytes@),
        r matches Some(s) ==> s@ == decode_utf8(bytes@),
{
    std::str::from_utf8(bytes).ok().map(|s| s.to_string())
}

/// The text of a sideband message worth showing: its trimmed UTF-8 text,
/// if valid and not empty, after `prefix`.
pub open spec fn sideband_text(message: Seq<u8>, prefix: Seq<char>) -> Option<Seq<char>> {
    if valid_utf8(message) && trim(decode_utf8(message)).len() > 0 {
        Some(prefix + trim(decode_utf8(message)))
    } else {
        None
    }
}

/// Turns git's progress and sideband output into progress events, when
/// there is somewhere to send them.
pub struct SinkSubprogressCallback {
    pub has_sink: bool,
}

impl SinkSubprogressCallback {
    /// Whether git should report progress at all.
    pub fn needs_progress(&self) -> (r: bool)
        ensures
            r == self.has_sink,
    {
        self.has_sink
    }

    /// The event for an overall progress of `overall_percent`.
    pub fn progress(&self, overall_percent: u32) -> (r: Option<ProgressEvent>)
        ensures
            self.has_sink <==> r is Some,
            r matches Some(e) ==> e == (ProgressEvent::Progress { overall_percent }),
    {
        if self.has_sink {
            Some(ProgressEvent::Progress { overall_percent })
        } else {
            None
        }
    }

    /// The event for a line that git itself printed.
    pub fn local_sideband(&self, message: &[u8]) -> (r: Option<ProgressEvent>)
        ensures
            match (self.has_sink, sideband_text(message@, Seq::<char>::empty())) {
                (true, Some(t)) => (r matches Some(ProgressEvent::Message { text }) && text@ == t),
                _ => r is None,
            },
    {
        proof {
            reveal_strlit("");
        }
        self.sideband(message, "")
    }

    /// The event for a line that the remote sent, marked `remote: `.
    pub fn remote_sideband(&self, message: &[u8]) -> (r: Option<ProgressEvent>)
        ensures
            match (self.has_sink, sideband_text(message@, "remote: "@)) {
                (true, Some(t)) => (r matches Some(ProgressEvent::Message { text }) && text@ == t),
                _ => r is None,
            },
    {
        self.sideband(message, "remote: ")
    }

    fn sideband(&self, message: &[u8], prefix: &str) -> (r: Option<ProgressEvent>)
        ensures
            match (self.has_sink, sideband_text(message@, prefix@)) {
                (true, Some(t)) => (r matches Some(ProgressEvent::Message { text }) && text@ == t),
                _ => r is None,
            },
    {
        if !self.has_sink {
            return None;
        }
        match decode_utf8_strict(message) {
            Some(text) => {
                let trimmed = trim_str(text.as_str());
                if trimmed.unicode_len() == 0 {
                    None
                } else {
                    let mut out = String::from_str(prefix);
                    out.append(trimmed.as_str());
                    Some(ProgressEvent::Message { text: out })
                }
            },
            None => None,
        }
    }
}

/// The askpass exchange carries the credential through: the client reads
/// out of the server's reply exactly the credential stored for the prompt,
/// provided that credential does not end in white space (the client trims
/// the line it reads); a prompt without one reads as no credential.
pub proof fn law_askpass_reply_round_trip(input: Option<InputResponse>, prompt_line: Seq<char>)
    requires
        credential_for(input, trim(prompt_line)) matches Some(c) ==> trim_end(c) == c,
    ensures
        credential_in_reply(askpass_reply(input, prompt_line)) == credential_for(
            input,
            trim(prompt_line),
        ),
{
    reveal_strlit("OK:");
    reveal_strlit("NO");
    match credential_for(input, trim(prompt_line)) {
        Some(c) => {
            let line = "OK:"@ + c;
            assert(line[0] == 'O');
            assert(trim_start(line) == line);
            if c.len() > 0 {
                assert(line.last() == c.last());
                lemma_trim_end_len(c.drop_last());
                assert(!is_white_space(c.last()));
            } else {
                assert(line.last() == ':');
            }
            assert(trim_end(line) == line);
            assert(line.subrange(0, 3) =~= "OK:"@);
            assert(line.subrange(3, line.len() as int) =~= c);
        },
        None => {
            let line = "NO"@;
            assert(trim_start(line) == line);
            assert(trim_end(line) == line);
        },
    }
}

}
