//! The state that the cases of one group share: the bearer token and the
//! duration of the last request. The scripting runtime and the HTTP client
//! live with the caller; this module says what is handed to them and what
//! is made of their answers.

use vstd::prelude::*;
use crate::config::Config;
use crate::data::opt_view;
use crate::json::{json_doc, json_text, Json, JsonView};
use crate::text::{append_str, chars_of, decimal, digits, push_all, split, string_of};

verus! {

/// The script that seeds a fresh runtime: the `SAT` namespace with its empty
/// globals and the assertion helper, which records the assertion's name and
/// returns `true` only where the callback returns exactly `true`.
pub const SEED_SCRIPT: &'static str =
    "SAT = {};\nSAT.globals = {};\nSAT.tester = function(name, fn) {\n  SAT.testName = name;\n  try { const r = fn(); return r === true; } catch(_) { return false; }\n};";

/// The expression that reads the status of the last response.
pub const READ_STATUS: &'static str = "SAT.response.status";

/// The expression that reads the body of the last response.
pub const READ_BODY: &'static str = "SAT.response.body";

/// The expression that reads the name of the last assertion.
pub const READ_TEST_NAME: &'static str = "SAT.testName";

/// What came of sending a request.
#[derive(Debug)]
pub enum HttpOutcome {
    /// The server answered.
    Response { status: u16, body: String },
    /// The request could not be sent or the answer not be read; the text
    /// says why.
    TransportError(String),
}

/// What came of evaluating a script.
#[derive(Debug)]
pub enum ScriptOutcome {
    /// There was no script to evaluate.
    NoScript,
    /// The script threw, or could not be compiled.
    Failed,
    /// The script's completion value.
    Value(Json),
}

/// The per-group context.
#[derive(Debug)]
pub struct TestCtx {
    pub jwt_token: Option<String>,
    /// Milliseconds that the last request took.
    pub exec_duration: u64,
}

/// What stands for `c` inside a back-quoted script string.
pub open spec fn escaped(c: char) -> Seq<char> {
    if c == '\\' {
        seq!['\\', '\\']
    } else if c == '`' {
        seq!['\\', '`']
    } else if c == '"' {
        seq!['\\', '"']
    } else if c == '\'' {
        seq!['\\', '\'']
    } else if c == '\n' {
        seq!['\\', 'n']
    } else if c == '\r' {
        seq!['\\', 'r']
    } else {
        seq![c]
    }
}

/// The first `n` characters of `s`, each escaped.
pub open spec fn sanitized_upto(s: Seq<char>, n: int) -> Seq<char>
    decreases n,
{
    if n <= 0 || n > s.len() {
        Seq::empty()
    } else {
        sanitized_upto(s, n - 1) + escaped(s[n - 1])
    }
}

/// `s` with backslash, back quote, both quotes, line feed and carriage
/// return escaped.
pub open spec fn sanitized(s: Seq<char>) -> Seq<char> {
    sanitized_upto(s, s.len() as int)
}

/// The JSON part of the response record: the body as compact JSON, or
/// `null` where the body is no JSON.
pub open spec fn json_part(body: Seq<char>) -> Seq<char> {
    match json_doc(body) {
        Some(j) => json_text(j),
        None => "null"@,
    }
}

/// The script that records an answered request.
pub open spec fn response_script(status: u16, body: Seq<char>) -> Seq<char> {
    "SAT.response = { status: "@ + digits(status as nat) + ", body: `"@ + sanitized(body)
        + "`, json: "@ + json_part(body) + " }"@
}

/// The script that records a request that failed in transport: status 0,
/// and the error text, escaped as a body is.
pub open spec fn failure_script(error: Seq<char>) -> Seq<char> {
    "SAT.response = { status: 0, body: `"@ + sanitized(error) + "` }"@
}

/// The token found in `j` along the dotted path `key`; an absent key is the
/// empty path, which names the member with the empty name.
pub open spec fn token_in(j: JsonView, key: Option<Seq<char>>) -> Option<Seq<char>> {
    let path = match key {
        Some(k) => k,
        None => Seq::empty(),
    };
    match j.walk(split(path, '.'), 0) {
        Some(v) => v.text(),
        None => None,
    }
}

/// The token that the response body `body` yields.
pub open spec fn token_of(body: Seq<char>, key: Option<Seq<char>>) -> Option<Seq<char>> {
    match json_doc(body) {
        Some(j) => token_in(j, key),
        None => None,
    }
}

/// The token held after the answer `outcome`: a token found in the body of
/// an authorizer's answer replaces the one held; anything else leaves it.
pub open spec fn token_after(
    held: Option<Seq<char>>,
    outcome: HttpOutcome,
    is_authorizer: bool,
    key: Option<Seq<char>>,
) -> Option<Seq<char>> {
    match outcome {
        HttpOutcome::Response { status, body } => if is_authorizer && token_of(body@, key)
            is Some {
            token_of(body@, key)
        } else {
            held
        },
        HttpOutcome::TransportError(_) => held,
    }
}

/// The script that records `outcome`.
pub open spec fn script_for(outcome: HttpOutcome) -> Seq<char> {
    match outcome {
        HttpOutcome::Response { status, body } => response_script(status, body@),
        HttpOutcome::TransportError(e) => failure_script(e@),
    }
}

/// Escapes `body` for a back-quoted script string.
pub fn sanitize(body: &str) -> (r: String)
    ensures
        r@ == sanitized(body@),
{
    let s = chars_of(body);
    let mut out: Vec<char> = Vec::new();
    let mut i: usize = 0;
    while i < s.len()
        invariant
            i <= s.len(),
            out@ == sanitized_upto(s@, i as int),
        decreases s.len() - i,
    {
        let c = s[i];
        let ghost before = out@;
        if c == '\\' || c == '`' || c == '"' || c == '\'' {
            out.push('\\');
            out.push(c);
        } else if c == '\n' {
            out.push('\\');
            out.push('n');
        } else if c == '\r' {
            out.push('\\');
            out.push('r');
        } else {
            out.push(c);
        }
        assert(out@ =~= before + escaped(c));
        i += 1;
    }
    string_of(&out)
}

/// The token in `json` along the dotted path `token_key` of `config`.
pub fn token_from(json: &Json, config: &Config) -> (r: Option<String>)
    ensures
        opt_view(r) == token_in(json@, opt_view(config.token_key)),
{
    let found = match &config.token_key {
        Some(k) => json.lookup(k.as_str()),
        None => {
            proof {
                reveal_strlit("");
                assert(""@ =~= Seq::<char>::empty());
            }
            json.lookup("")
        },
    };
    match found {
        Some(v) => match v.as_text() {
            Some(s) => Some(s.clone()),
            None => None,
        },
        None => None,
    }
}

/// The token that the response body `body` yields: the body is read as
/// JSON and the dotted path `token_key` of `config` followed through it.
/// `None` where the body is no JSON, a member is missing, or the value
/// reached is no string.
pub fn extract_token(body: &str, config: &Config) -> (r: Option<String>)
    ensures
        opt_view(r) == token_of(body@, opt_view(config.token_key)),
{
    match Json::parse(body) {
        Some(j) => token_from(&j, config),
        None => None,
    }
}

impl TestCtx {
    /// A context with no token and no request made.
    pub fn new() -> (r: Self)
        ensures
            r.jwt_token is None,
            r.exec_duration == 0,
    {
        TestCtx { jwt_token: None, exec_duration: 0 }
    }

    /// Overwrites the stored bearer token.
    pub fn update_token(&mut self, token: Option<String>)
        ensures
            final(self).jwt_token == token,
            final(self).exec_duration == old(self).exec_duration,
    {
        self.jwt_token = token;
    }

    /// Takes in what came of sending a request that took `elapsed_ms`
    /// milliseconds: keeps the token of an authorizer's answer, and returns
    /// the script that records the answer for the post-script to read.
    pub fn exec(
        &mut self,
        outcome: &HttpOutcome,
        elapsed_ms: u64,
        is_authorizer: bool,
        config: &Config,
    ) -> (script: String)
        ensures
            script@ == script_for(*outcome),
            opt_view(final(self).jwt_token) == token_after(
                opt_view(old(self).jwt_token),
                *outcome,
                is_authorizer,
                opt_view(config.token_key),
            ),
            final(self).exec_duration == elapsed_ms,
    {
        self.exec_duration = elapsed_ms;
        match outcome {
            HttpOutcome::Response { status, body } => {
                let clean = sanitize(body.as_str());
                let parsed = Json::parse(body.as_str());
                let json_part = match &parsed {
                    Some(j) => {
                        if is_authorizer {
                            match token_from(j, config) {
                                Some(t) => {
                                    self.update_token(Some(t));
                                },
                                None => {},
                            }
                        }
                        j.render()
                    },
                    None => "null".to_owned(),
                };
                let mut out = chars_of("SAT.response = { status: ");
                let code = decimal(*status as u64);
                push_all(&mut out, &code);
                append_str(&mut out, ", body: `");
                append_str(&mut out, clean.as_str());
                append_str(&mut out, "`, json: ");
                append_str(&mut out, json_part.as_str());
                append_str(&mut out, " }");
                string_of(&out)
            },
            HttpOutcome::TransportError(e) => {
                let clean = sanitize(e.as_str());
                let mut out = chars_of("SAT.response = { status: 0, body: `");
                append_str(&mut out, clean.as_str());
                append_str(&mut out, "` }");
                string_of(&out)
            },
        }
    }

    /// Whether the post-script passed: it did exactly when there was one
    /// and its completion value is the boolean `true`.
    pub fn verify_result(&self, outcome: &ScriptOutcome) -> (passed: bool)
        ensures
            passed == (*outcome matches ScriptOutcome::Value(Json::Bool(b)) && b),
    {
        match outcome {
            ScriptOutcome::Value(Json::Bool(b)) => *b,
            _ => false,
        }
    }

    /// The assertion name that a read of `SAT.testName` gave: its text, or
    /// the empty text where the read failed or gave no string.
    pub fn get_test_name(&self, read: &ScriptOutcome) -> (r: String)
        ensures
            r@ == (match *read {
                ScriptOutcome::Value(Json::Text(s)) => s@,
                _ => Seq::<char>::empty(),
            }),
    {
        match read {
            ScriptOutcome::Value(Json::Text(s)) => s.clone(),
            _ => String::new(),
        }
    }

    /// The response body that a read of `SAT.response.body` gave: its text,
    /// or `None` spelled out where the value is no string.
    pub fn get_response_body(&self, read: &ScriptOutcome) -> (r: String)
        ensures
            r@ == (match *read {
                ScriptOutcome::Value(Json::Text(s)) => s@,
                _ => "None"@,
            }),
    {
        match read {
            ScriptOutcome::Value(Json::Text(s)) => s.clone(),
            _ => "None".to_owned(),
        }
    }

    /// Milliseconds that the last request took.
    pub fn exec_duration(&self) -> (r: u64)
        ensures
            r == self.exec_duration,
    {
        self.exec_duration
    }
}

/// The token of a group changes only by the answer to an authorizer whose
/// body carries one: any other answer, and every failure in transport,
/// leaves the token as it was; so a group that has seen no such answer
/// holds none.
pub proof fn lemma_token_kept(
    held: Option<Seq<char>>,
    outcome: HttpOutcome,
    is_authorizer: bool,
    key: Option<Seq<char>>,
)
    requires
        !is_authorizer || match outcome {
            HttpOutcome::Response { status, body } => token_of(body@, key) is None,
            HttpOutcome::TransportError(_) => true,
        },
    ensures
        token_after(held, outcome, is_authorizer, key) == held,
{
}

} // verus!
