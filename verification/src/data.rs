//! The records a test case is made of.

use vstd::prelude::*;

verus! {

/// Possible test case results.
#[derive(Debug, Clone, Copy, PartialEq, Eq, Structural)]
pub enum TestResult {
    NotYetTested,
    Passed,
    Failed,
    Skipped,
}

/// How authentication should be handled for a given test case.
#[derive(Debug, Clone, Copy, PartialEq, Eq, Structural)]
pub enum AuthType {
    /// The case neither produces nor consumes a token.
    NoAuth,
    Authorizer,
    Authorized,
}

/// Advanced configuration of a test case: repetition, authentication role
/// and the delay around each request, in milliseconds.
#[derive(Debug, Clone, Copy, PartialEq, Eq, Structural)]
pub struct TestCaseConfig {
    pub repeat_count: u32,
    pub auth_type: AuthType,
    pub delay: u64,
}

/// How often a case runs where its configuration does not say: once.
pub fn default_repeat_count() -> (r: u32)
    ensures
        r == 1,
{
    1
}

/// The role of a case whose configuration names none.
pub fn default_auth_type() -> (r: AuthType)
    ensures
        r == AuthType::NoAuth,
{
    AuthType::NoAuth
}

/// The delay of a case whose configuration names none: no delay.
pub fn default_delay() -> (r: u64)
    ensures
        r == 0,
{
    0
}

impl Default for TestCaseConfig {
    fn default() -> (r: Self)
        ensures
            r == (TestCaseConfig { repeat_count: 1, auth_type: AuthType::NoAuth, delay: 0 }),
    {
        TestCaseConfig {
            repeat_count: default_repeat_count(),
            auth_type: default_auth_type(),
            delay: default_delay(),
        }
    }
}

impl AuthType {
    pub fn is_authorized(&self) -> (b: bool)
        ensures
            b == (*self == AuthType::Authorized),
    {
        matches!(self, AuthType::Authorized)
    }

    pub fn is_authorizer(&self) -> (b: bool)
        ensures
            b == (*self == AuthType::Authorizer),
    {
        matches!(self, AuthType::Authorizer)
    }
}

impl TestCaseConfig {
    pub fn is_authorized(&self) -> (b: bool)
        ensures
            b == (self.auth_type == AuthType::Authorized),
    {
        self.auth_type.is_authorized()
    }

    pub fn is_authorizer(&self) -> (b: bool)
        ensures
            b == (self.auth_type == AuthType::Authorizer),
    {
        self.auth_type.is_authorizer()
    }
}

/// JavaScript sources attached to a test case.
#[derive(Debug, Clone)]
pub struct TestScripts {
    pub pre_test: Option<String>,
    pub post_test: Option<String>,
}

/// What one spreadsheet row says of a test case.
#[derive(Debug, Clone)]
pub struct TestCaseData {
    pub id: u32,
    pub name: String,
    pub given: String,
    pub when: String,
    pub then_clause: String,
    pub url: String,
    /// The HTTP method as written in the row; `GET` where the row had none
    /// that is valid.
    pub method: String,
    pub headers: Vec<(String, String)>,
    pub payload: String,
    pub config: TestCaseConfig,
    pub scripts: TestScripts,
}

/// A test case record with its texts as character sequences.
pub struct CaseView {
    pub id: u32,
    pub name: Seq<char>,
    pub given: Seq<char>,
    pub when: Seq<char>,
    pub then_clause: Seq<char>,
    pub url: Seq<char>,
    pub method: Seq<char>,
    pub headers: Seq<(Seq<char>, Seq<char>)>,
    pub payload: Seq<char>,
    pub config: TestCaseConfig,
    pub pre_test: Option<Seq<char>>,
    pub post_test: Option<Seq<char>>,
}

impl View for TestCaseData {
    type V = CaseView;

    open spec fn view(&self) -> CaseView {
        CaseView {
            id: self.id,
            name: self.name@,
            given: self.given@,
            when: self.when@,
            then_clause: self.then_clause@,
            url: self.url@,
            method: self.method@,
            headers: pairs_view(self.headers@),
            payload: self.payload@,
            config: self.config,
            pre_test: opt_view(self.scripts.pre_test),
            post_test: opt_view(self.scripts.post_test),
        }
    }
}

/// The views of a list of string pairs.
pub open spec fn pairs_view(v: Seq<(String, String)>) -> Seq<(Seq<char>, Seq<char>)> {
    Seq::new(v.len(), |i: int| (v[i].0@, v[i].1@))
}

/// The view of an optional string.
pub open spec fn opt_view(s: Option<String>) -> Option<Seq<char>> {
    match s {
        Some(t) => Some(t@),
        None => None,
    }
}

/// Execution state, filled in while the case runs.
#[derive(Debug, Clone)]
pub struct ExecutionState {
    pub effective_name: String,
    pub effective_url: String,
    pub effective_payload: String,
    pub content_type: String,
    pub result: TestResult,
}

impl ExecutionState {
    /// The state of a case that has not run.
    pub fn new() -> (r: Self)
        ensures
            r.effective_name@.len() == 0,
            r.effective_url@.len() == 0,
            r.effective_payload@.len() == 0,
            r.content_type@.len() == 0,
            r.result == TestResult::NotYetTested,
    {
        ExecutionState {
            effective_name: String::new(),
            effective_url: String::new(),
            effective_payload: String::new(),
            content_type: String::new(),
            result: TestResult::NotYetTested,
        }
    }
}

/// One error found while a row was parsed.
#[derive(Debug, Clone)]
pub struct ParseError {
    pub field: String,
    pub message: String,
}

/// The errors found while a row was parsed, in the order found.
#[derive(Debug, Clone)]
pub struct ParseErrors {
    pub errors: Vec<ParseError>,
}

impl View for ParseErrors {
    type V = Seq<(Seq<char>, Seq<char>)>;

    open spec fn view(&self) -> Seq<(Seq<char>, Seq<char>)> {
        Seq::new(self.errors@.len(), |i: int| (self.errors@[i].field@, self.errors@[i].message@))
    }
}

impl ParseErrors {
    /// No errors.
    pub fn new() -> (r: Self)
        ensures
            r@ == Seq::<(Seq<char>, Seq<char>)>::empty(),
    {
        let r = ParseErrors { errors: Vec::new() };
        assert(r@ =~= Seq::empty());
        r
    }

    /// Appends one error.
    pub fn add_error(&mut self, field: &str, message: &str)
        ensures
            final(self)@ == old(self)@.push((field@, message@)),
    {
        self.errors.push(ParseError { field: field.to_owned(), message: message.to_owned() });
        assert(self@ =~= old(self)@.push((field@, message@)));
    }

    /// Whether any error was found.
    pub fn has_errors(&self) -> (b: bool)
        ensures
            b == (self@.len() > 0),
    {
        !self.errors.is_empty()
    }

    /// The errors as `(field, message)` pairs.
    pub fn into_pairs(self) -> (r: Vec<(String, String)>)
        ensures
            pairs_view(r@) == self@,
    {
        let mut r: Vec<(String, String)> = Vec::new();
        let mut i: usize = 0;
        while i < self.errors.len()
            invariant
                i <= self.errors.len(),
                r@.len() == i,
                forall|j: int|
                    0 <= j < i ==> (#[trigger] r@[j]).0@ == self.errors@[j].field@ && r@[j].1@
                        == self.errors@[j].message@,
            decreases self.errors.len() - i,
        {
            r.push((self.errors[i].field.clone(), self.errors[i].message.clone()));
            i += 1;
        }
        assert(pairs_view(r@) =~= self@);
        r
    }
}

} // verus!
