//! One test case: the record parsed from its row, and the protocol by
//! which it runs. The caller evaluates scripts, resolves placeholders,
//! sleeps and sends; the case says what comes next and keeps the result.

use vstd::prelude::*;
use crate::config::Config;
use crate::data::{
    opt_view, pairs_view, AuthType, CaseView, ExecutionState, TestCaseConfig, TestCaseData,
    TestResult, TestScripts,
};
use crate::events::{TestCaseBegin, TestCaseEnd};
use crate::json::{json_doc, Json, JsonView};
use crate::keywords::{keyword_expansion, substitute_keywords};
use crate::request::{
    auth_header, body_kind, content_type_from, kind_for, kind_label, kind_name, multipart_parts,
    parts_of, parts_view, sendable, sendable_headers, show_parts, shown, with_auth, BodyKind,
    RequestBody, RequestPlan,
};
use crate::row_parser::{
    expansions_of, row_errors, row_parsed, row_record, Cell, ExcelRowParser, Expansions,
};
use crate::text::{append_str, chars_of, string_of};

verus! {

/// What a running case asks of its caller next.
#[derive(Clone, Copy, Debug, PartialEq, Eq, Structural)]
pub enum CaseStep {
    /// Run one iteration: pre-script, resolution, request, post-script.
    Iterate,
    /// The run is over, with this result.
    Finished(TestResult),
}

/// A test case.
#[derive(Debug)]
pub struct TestCase {
    pub data: TestCaseData,
    pub execution_state: ExecutionState,
    /// What was wrong with the row, as `(field, message)`.
    pub errors: Vec<(String, String)>,
    /// Iterations finished in the run under way.
    pub iterations: u32,
    /// Whether a run is under way.
    pub running: bool,
}

/// The record of a case that stands for no row.
pub open spec fn blank_record() -> CaseView {
    CaseView {
        id: 0,
        name: Seq::empty(),
        given: Seq::empty(),
        when: Seq::empty(),
        then_clause: Seq::empty(),
        url: Seq::empty(),
        method: "GET"@,
        headers: Seq::empty(),
        payload: Seq::empty(),
        config: TestCaseConfig { repeat_count: 1, auth_type: AuthType::NoAuth, delay: 0 },
        pre_test: None,
        post_test: None,
    }
}

/// `tc` is the case that `row` gives with the expansions `ex`: its record
/// is what the row says, whether or not the row has errors; its errors
/// are those of the row; and it has not run.
pub open spec fn case_of(tc: TestCase, row: Seq<Cell>, base: Option<Seq<char>>, ex: Expansions) -> bool {
    &&& pairs_view(tc.errors@) == row_errors(row, base, ex)
    &&& tc.data@ == row_record(row, base, ex)
    &&& not_run(tc.execution_state)
    &&& tc.iterations == 0
    &&& !tc.running
}

/// The execution state of a case that has not run: no effective text, no
/// content type, no result.
pub open spec fn not_run(state: ExecutionState) -> bool {
    &&& state.effective_name@.len() == 0
    &&& state.effective_url@.len() == 0
    &&& state.effective_payload@.len() == 0
    &&& state.content_type@.len() == 0
    &&& state.result == TestResult::NotYetTested
}

/// The first step of a run: a case with parse errors is skipped and never
/// iterates; one that repeats zero times has passed.
pub open spec fn first_step(has_errors: bool, repeat_count: u32) -> CaseStep {
    if has_errors {
        CaseStep::Finished(TestResult::Skipped)
    } else if repeat_count == 0 {
        CaseStep::Finished(TestResult::Passed)
    } else {
        CaseStep::Iterate
    }
}

/// The step after an iteration: the first failure ends the run as failed;
/// the run has passed when `done` iterations have reached the repeat count.
pub open spec fn next_step(passed: bool, done: int, repeat_count: u32) -> CaseStep {
    if !passed {
        CaseStep::Finished(TestResult::Failed)
    } else if done >= repeat_count {
        CaseStep::Finished(TestResult::Passed)
    } else {
        CaseStep::Iterate
    }
}

/// The JSON that is sent for `payload`: the payload itself, or the empty
/// object where it is no JSON.
pub open spec fn payload_json_is(j: JsonView, payload: Seq<char>) -> bool {
    match json_doc(payload) {
        Some(p) => j == p,
        None => j == JsonView::Object(Seq::empty(), Seq::empty()),
    }
}

fn copy_pairs(v: &Vec<(String, String)>) -> (r: Vec<(String, String)>)
    ensures
        pairs_view(r@) == pairs_view(v@),
{
    let mut r: Vec<(String, String)> = Vec::new();
    let mut i: usize = 0;
    while i < v.len()
        invariant
            i <= v.len(),
            r@.len() == i,
            forall|j: int| 0 <= j < i ==> (#[trigger] r@[j]).0@ == v@[j].0@ && r@[j].1@ == v@[j].1@,
        decreases v.len() - i,
    {
        r.push((v[i].0.clone(), v[i].1.clone()));
        i += 1;
    }
    assert(pairs_view(r@) =~= pairs_view(v@));
    r
}

fn payload_json(payload: &str) -> (j: Json)
    ensures
        payload_json_is(j@, payload@),
{
    match Json::parse(payload) {
        Some(j) => j,
        None => {
            let j = Json::Object(Vec::new());
            assert(j@->Object_0 =~= Seq::empty());
            assert(j@->Object_1 =~= Seq::empty());
            j
        },
    }
}

impl TestCase {
    /// A case is in order when a run under way has no parse errors behind
    /// it and iterations left to do.
    pub open spec fn well_formed(&self) -> bool {
        self.running ==> self.errors@.len() == 0 && self.iterations
            < self.data.config.repeat_count
    }

    /// Makes the case of one row. The row must have its twelve cells.
    pub fn new(row: &[Cell], config: &Config) -> (tc: Self)
        requires
            row@.len() >= 12,
        ensures
            tc.well_formed(),
            exists|ex: Expansions| #[trigger]
                expansions_of(row@, ex) && case_of(tc, row@, opt_view(config.base_url), ex),
    {
        let (data, parse_errors) = ExcelRowParser::parse_row(row, config);
        let ghost ex = choose|ex: Expansions| #[trigger]
            expansions_of(row@, ex) && row_parsed(
                data,
                parse_errors,
                row@,
                opt_view(config.base_url),
                ex,
            );
        let errors = parse_errors.into_pairs();
        let tc = TestCase {
            data,
            execution_state: ExecutionState::new(),
            errors,
            iterations: 0,
            running: false,
        };
        assert(case_of(tc, row@, opt_view(config.base_url), ex));
        tc
    }

    /// A case that has not run, with an empty record.
    pub fn dummy() -> (tc: Self)
        ensures
            tc.data@ == blank_record(),
            tc.errors@.len() == 0,
            not_run(tc.execution_state),
            tc.iterations == 0,
            !tc.running,
    {
        let tc = TestCase {
            data: TestCaseData {
                id: 0,
                name: String::new(),
                given: String::new(),
                when: String::new(),
                then_clause: String::new(),
                url: String::new(),
                method: "GET".to_owned(),
                headers: Vec::new(),
                payload: String::new(),
                config: TestCaseConfig::default(),
                scripts: TestScripts { pre_test: None, post_test: None },
            },
            execution_state: ExecutionState::new(),
            errors: Vec::new(),
            iterations: 0,
            running: false,
        };
        assert(tc.data@.headers =~= Seq::empty());
        assert(tc.data@.name =~= Seq::empty());
        assert(tc.data@.given =~= Seq::empty());
        assert(tc.data@.when =~= Seq::empty());
        assert(tc.data@.then_clause =~= Seq::empty());
        assert(tc.data@.url =~= Seq::empty());
        assert(tc.data@.payload =~= Seq::empty());
        tc
    }

    /// Runs the case as far as it goes without outside work, and says what
    /// comes next. A case with parse errors is skipped: its result is
    /// `Skipped`, no run is under way, and so no script is handed out and
    /// no request can be prepared for it. A case that is to iterate is
    /// then carried on by `prepare_request` and `finish_iteration`.
    pub fn run(&mut self) -> (step: CaseStep)
        ensures
            step == first_step(old(self).errors@.len() > 0, old(self).data.config.repeat_count),
            old(self).errors@.len() > 0 ==> step == CaseStep::Finished(TestResult::Skipped)
                && !final(self).running,
            final(self).running == (step == CaseStep::Iterate),
            final(self).iterations == 0,
            final(self).well_formed(),
            final(self).data == old(self).data,
            final(self).errors == old(self).errors,
            final(self).execution_state.result == (if old(self).errors@.len() > 0 {
                TestResult::Skipped
            } else {
                old(self).execution_state.result
            }),
    {
        self.iterations = 0;
        if self.errors.len() > 0 {
            self.execution_state.result = TestResult::Skipped;
            self.running = false;
            CaseStep::Finished(TestResult::Skipped)
        } else if self.data.config.repeat_count == 0 {
            self.running = false;
            CaseStep::Finished(TestResult::Passed)
        } else {
            self.running = true;
            CaseStep::Iterate
        }
    }

    /// The pre-script to evaluate before an iteration, keyword-expanded.
    /// It is handed out only while a run is under way.
    pub fn pre_script(&self) -> (r: Option<String>)
        requires
            self.running,
            self.well_formed(),
        ensures
            match self.data.scripts.pre_test {
                Some(s) => r is Some && keyword_expansion(s@, r->0@),
                None => r is None,
            },
    {
        match &self.data.scripts.pre_test {
            Some(s) => Some(substitute_keywords(s.as_str())),
            None => None,
        }
    }

    /// The name, URL and payload, keyword-expanded, for the placeholder
    /// resolver to work on. They are handed out only while a run is under
    /// way.
    pub fn expanded_texts(&self) -> (r: (String, String, String))
        requires
            self.running,
            self.well_formed(),
        ensures
            keyword_expansion(self.data.name@, r.0@),
            keyword_expansion(self.data.url@, r.1@),
            keyword_expansion(self.data.payload@, r.2@),
    {
        (
            substitute_keywords(self.data.name.as_str()),
            substitute_keywords(self.data.url.as_str()),
            substitute_keywords(self.data.payload.as_str()),
        )
    }

    /// Builds the request of one iteration from the resolved name, URL and
    /// payload and the token held by the group. The bearer header is added
    /// to a copy of the headers for an authorized case while a token is
    /// held; the case record stays as parsed. A request is built only
    /// while a run is under way, and so never for a case with parse errors.
    pub fn prepare_request(
        &mut self,
        name: String,
        url: String,
        payload: String,
        token: &Option<String>,
    ) -> (plan: RequestPlan)
        requires
            old(self).running,
            old(self).well_formed(),
        ensures
            final(self).well_formed(),
            final(self).data == old(self).data,
            final(self).errors == old(self).errors,
            final(self).running == old(self).running,
            final(self).iterations == old(self).iterations,
            final(self).execution_state.result == old(self).execution_state.result,
            final(self).execution_state.effective_name@ == name@,
            final(self).execution_state.effective_url@ == url@,
            plan.method@ == old(self).data.method@,
            plan.url@ == url@,
            pairs_view(plan.headers@) == sendable(
                with_auth(
                    pairs_view(old(self).data.headers@),
                    old(self).data.config.auth_type == AuthType::Authorized,
                    opt_view(*token),
                ),
            ),
            *token is None ==> pairs_view(plan.headers@) == sendable(
                pairs_view(old(self).data.headers@),
            ),
            ({
                let headers = with_auth(
                    pairs_view(old(self).data.headers@),
                    old(self).data.config.auth_type == AuthType::Authorized,
                    opt_view(*token),
                );
                let kind = kind_for(content_type_from(headers, 0));
                &&& final(self).execution_state.content_type@ == kind_name(kind)
                &&& match plan.body {
                    RequestBody::Json(j) => kind == BodyKind::Json && payload_json_is(j@, payload@)
                        && final(self).execution_state.effective_payload@ == payload@,
                    RequestBody::Form(j) => kind == BodyKind::Form && payload_json_is(j@, payload@)
                        && final(self).execution_state.effective_payload@ == payload@,
                    RequestBody::Multipart(parts) => kind == BodyKind::Multipart && exists|j: JsonView| #[trigger]
                        payload_json_is(j, payload@) && parts_view(parts@) == parts_of(j)
                        && final(self).execution_state.effective_payload@ == shown(parts_view(parts@)),
                }
            }),
    {
        let mut headers = copy_pairs(&self.data.headers);
        let ghost base_headers = pairs_view(headers@);
        if self.data.config.is_authorized() {
            match token {
                Some(t) => {
                    let mut value = chars_of("Bearer ");
                    append_str(&mut value, t.as_str());
                    headers.push(("Authorization".to_owned(), string_of(&value)));
                    assert(pairs_view(headers@) =~= base_headers.push(auth_header(t@)));
                },
                None => {},
            }
        }
        let to_send = sendable_headers(&headers);
        let kind = body_kind(&headers);
        let json = payload_json(payload.as_str());
        self.execution_state.effective_name = name;
        self.execution_state.content_type = kind_label(kind);
        let body = match kind {
            BodyKind::Json => {
                self.execution_state.effective_payload = payload;
                RequestBody::Json(json)
            },
            BodyKind::Form => {
                self.execution_state.effective_payload = payload;
                RequestBody::Form(json)
            },
            BodyKind::Multipart => {
                let parts = multipart_parts(&json);
                self.execution_state.effective_payload = show_parts(&parts);
                assert(payload_json_is(json@, payload@) && parts_view(parts@) == parts_of(json@));
                RequestBody::Multipart(parts)
            },
        };
        let plan = RequestPlan {
            method: self.data.method.clone(),
            url: url.clone(),
            headers: to_send,
            body,
        };
        self.execution_state.effective_url = url;
        plan
    }

    /// Takes in the verdict of the post-script for the iteration just run
    /// and says what comes next.
    pub fn finish_iteration(&mut self, passed: bool) -> (step: CaseStep)
        requires
            old(self).running,
            old(self).well_formed(),
        ensures
            step == next_step(passed, old(self).iterations + 1, old(self).data.config.repeat_count),
            final(self).iterations == old(self).iterations + 1,
            final(self).running == (step == CaseStep::Iterate),
            final(self).well_formed(),
            final(self).data == old(self).data,
            final(self).errors == old(self).errors,
            final(self).execution_state.result == (if passed {
                TestResult::Passed
            } else {
                TestResult::Failed
            }),
    {
        self.iterations = self.iterations + 1;
        if !passed {
            self.execution_state.result = TestResult::Failed;
            self.running = false;
            CaseStep::Finished(TestResult::Failed)
        } else {
            self.execution_state.result = TestResult::Passed;
            if self.iterations >= self.data.config.repeat_count {
                self.running = false;
                CaseStep::Finished(TestResult::Passed)
            } else {
                CaseStep::Iterate
            }
        }
    }

    /// Milliseconds to wait before each request and after each iteration
    /// that passed.
    pub fn delay(&self) -> (ms: u64)
        ensures
            ms == self.data.config.delay,
    {
        self.data.config.delay
    }

    /// Whether the case sends the token that the group holds.
    pub fn is_authorized(&self) -> (b: bool)
        ensures
            b == (self.data.config.auth_type == AuthType::Authorized),
    {
        self.data.config.is_authorized()
    }

    /// Whether the answer to the case may carry a token for the group.
    pub fn is_authorizer(&self) -> (b: bool)
        ensures
            b == (self.data.config.auth_type == AuthType::Authorizer),
    {
        self.data.config.is_authorizer()
    }

    /// The data of the event that opens the case.
    pub fn get_start_evt_data(&self) -> (e: TestCaseBegin)
        ensures
            e.iteration_id@ == "1"@,
            e.testcase_id == self.data.id,
            e.testcase_name@ == self.data.name@,
            e.given@ == self.data.given@,
            e.when@ == self.data.when@,
            e.then_clause@ == self.data.then_clause@,
            e.url@ == self.data.url@,
            e.method@ == self.data.method@,
            pairs_view(e.headers@) == pairs_view(self.data.headers@),
            e.payload@ == self.data.payload@,
            e.pre_test_script == self.data.scripts.pre_test,
            e.post_test_script == self.data.scripts.post_test,
    {
        TestCaseBegin {
            iteration_id: "1".to_owned(),
            testcase_id: self.data.id,
            testcase_name: self.data.name.clone(),
            given: self.data.given.clone(),
            when: self.data.when.clone(),
            then_clause: self.data.then_clause.clone(),
            url: self.data.url.clone(),
            method: self.data.method.clone(),
            headers: copy_pairs(&self.data.headers),
            payload: self.data.payload.clone(),
            pre_test_script: self.data.scripts.pre_test.clone(),
            post_test_script: self.data.scripts.post_test.clone(),
        }
    }

    /// The data of an event that ends an iteration of the case.
    pub fn get_end_evt_data(
        &self,
        exec_duration: u64,
        status: i64,
        response: String,
        response_json: Option<Json>,
    ) -> (e: TestCaseEnd)
        ensures
            e.iteration_id@ == "1"@,
            e.testcase_id == self.data.id,
            e.exec_duration == exec_duration,
            e.status == status,
            e.response == response,
            e.response_json == response_json,
    {
        TestCaseEnd {
            iteration_id: "1".to_owned(),
            testcase_id: self.data.id,
            exec_duration,
            status,
            response,
            response_json,
        }
    }
}

/// The first `m` iterations all passed.
pub open spec fn all_passed(verdicts: Seq<bool>, m: int) -> bool {
    forall|k: int| 0 <= k < m && k < verdicts.len() ==> verdicts[k]
}

/// The step that a case without parse errors is at after `n` iterations,
/// where `verdicts[k]` says whether iteration `k` passed. Once the run is
/// over, nothing changes it.
pub open spec fn step_after(repeat_count: u32, verdicts: Seq<bool>, n: int) -> CaseStep
    decreases n,
{
    if n <= 0 || n > verdicts.len() {
        first_step(false, repeat_count)
    } else {
        match step_after(repeat_count, verdicts, n - 1) {
            CaseStep::Iterate => next_step(verdicts[n - 1], n, repeat_count),
            over => over,
        }
    }
}

/// The repeat count bounds the iterations and the first failure ends the
/// run: a case still iterates exactly while fewer iterations than its
/// repeat count have run and all of them passed; it has passed exactly
/// when as many iterations as its repeat count have run and passed; it has
/// failed exactly when one of the iterations that ran did not pass.
pub proof fn lemma_run_outcome(repeat_count: u32, verdicts: Seq<bool>, n: int)
    requires
        0 <= n <= verdicts.len(),
    ensures
        step_after(repeat_count, verdicts, n) == CaseStep::Iterate <==> n < repeat_count
            && all_passed(verdicts, n),
        step_after(repeat_count, verdicts, n) == CaseStep::Finished(TestResult::Passed) <==> n
            >= repeat_count && all_passed(verdicts, repeat_count as int),
        step_after(repeat_count, verdicts, n) == CaseStep::Finished(TestResult::Failed)
            <==> !all_passed(verdicts, if n < repeat_count {
            n
        } else {
            repeat_count as int
        }),
    decreases n,
{
    if n > 0 {
        lemma_run_outcome(repeat_count, verdicts, n - 1);
        let before = step_after(repeat_count, verdicts, n - 1);
        if before == CaseStep::Iterate {
            assert(all_passed(verdicts, n - 1));
            if verdicts[n - 1] {
                assert(all_passed(verdicts, n));
            } else {
                assert(!all_passed(verdicts, n));
            }
        } else if before == CaseStep::Finished(TestResult::Passed) {
            assert(all_passed(verdicts, repeat_count as int));
        } else {
            let m = if n - 1 < repeat_count {
                n - 1
            } else {
                repeat_count as int
            };
            assert(!all_passed(verdicts, m));
            let k = choose|k: int| 0 <= k < m && k < verdicts.len() && !verdicts[k];
            assert(!verdicts[k]);
        }
    }
}

/// A row with a parse error gives a case whose run is over at its first
/// step, as skipped, before any iteration and so before any request.
pub proof fn lemma_error_row_is_skipped(
    tc: TestCase,
    row: Seq<Cell>,
    base: Option<Seq<char>>,
    ex: Expansions,
)
    requires
        case_of(tc, row, base, ex),
        row_errors(row, base, ex).len() > 0,
    ensures
        first_step(tc.errors@.len() > 0, tc.data.config.repeat_count) == CaseStep::Finished(
            TestResult::Skipped,
        ),
{
    assert(pairs_view(tc.errors@).len() == tc.errors@.len());
}

} // verus!
