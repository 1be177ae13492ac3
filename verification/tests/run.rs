use satyanaash::case::{CaseStep, TestCase};
use satyanaash::config::{Config, Overrides};
use satyanaash::context::{HttpOutcome, ScriptOutcome};
use satyanaash::data::{AuthType, TestResult};
use satyanaash::events::{Depth, EventLog, TestEvent};
use satyanaash::group::TestGroup;
use satyanaash::json::Json;
use satyanaash::request::{
    body_kind, file_name, media_type, multipart_parts, sendable_headers, show_parts, BodyKind,
    FormPart, RequestBody,
};
use satyanaash::row_parser::Cell;
use satyanaash::suite::{group_allowed, parse_config_groups, RowAction, SheetStep, TestSuite};
use satyanaash::TSat;

fn config() -> Config {
    Config {
        start_row: None,
        end_row: None,
        base_url: Some("http://svc.test".to_string()),
        test_file: None,
        worksheet: None,
        verbose: false,
        token_key: Some("data.access_token".to_string()),
        groups: None,
    }
}

fn text(s: &str) -> Cell {
    Cell::Text(s.to_string())
}

fn row(id: u32, url: &str, method: &str, headers: &str, payload: &str, cfg: &str) -> Vec<Cell> {
    vec![
        Cell::Number(id),
        text("ping"),
        text("up"),
        text("GET /h"),
        text("200"),
        text(url),
        text(method),
        text(headers),
        text(payload),
        text(cfg),
        Cell::Empty,
        text("SAT.tester('ok', () => SAT.response.status === 200)"),
    ]
}

fn pair(a: &str, b: &str) -> (String, String) {
    (a.to_string(), b.to_string())
}

fn tags(log: &EventLog) -> Vec<String> {
    log.events()
        .iter()
        .map(|e| match e {
            TestEvent::EvtTestSuiteBegin(b) => format!("suite+{}", b.suite_name),
            TestEvent::EvtTestSuiteEnd(b) => format!("suite-{}", b.suite_name),
            TestEvent::EvtTestGroupBegin(b) => format!("group+{}", b.group_name),
            TestEvent::EvtTestGroupEnd(b) => format!("group-{}", b.group_name),
            TestEvent::EvtTestCaseBegin(b) => format!("case+{}", b.testcase_id),
            TestEvent::EvtTestCaseEnd(b) => format!("case-{}", b.testcase_id),
        })
        .collect()
}

#[test]
fn happy_get() {
    let cfg = config();
    let suite = TestSuite::new();
    let mut group = TestGroup::new("g");
    let mut sat = TSat::new();
    assert!(sat.send(TestEvent::EvtTestSuiteBegin(suite.get_start_evt_data())));
    assert!(sat.send(TestEvent::EvtTestGroupBegin(group.get_start_evt_data())));

    let mut tc = TestCase::new(&row(1, "/health", "GET", "", "", ""), &cfg);
    assert!(tc.errors.is_empty());
    assert!(sat.send(TestEvent::EvtTestCaseBegin(tc.get_start_evt_data())));
    assert_eq!(tc.run(), CaseStep::Iterate);
    assert_eq!(tc.pre_script(), None);
    let (name, url, payload) = tc.expanded_texts();
    let plan = tc.prepare_request(name, url, payload, &group.group_ctx.jwt_token);
    assert_eq!(plan.method, "GET");
    assert_eq!(plan.url, "http://svc.test/health");
    assert!(plan.headers.is_empty());
    assert!(matches!(&plan.body, RequestBody::Json(Json::Object(m)) if m.is_empty()));
    assert_eq!(tc.execution_state.content_type, "application/json");
    assert_eq!(tc.execution_state.effective_name, "ping");

    let outcome = HttpOutcome::Response { status: 200, body: "{}".to_string() };
    let script = group.group_ctx.exec(&outcome, 5, tc.is_authorizer(), &cfg);
    assert_eq!(script, "SAT.response = { status: 200, body: `{}`, json: {} }");
    let passed = group.group_ctx.verify_result(&ScriptOutcome::Value(Json::Bool(true)));
    let end = tc.get_end_evt_data(5, 200, "{}".to_string(), Json::parse("{}"));
    assert!(sat.send(TestEvent::EvtTestCaseEnd(end)));
    assert_eq!(tc.finish_iteration(passed), CaseStep::Finished(TestResult::Passed));
    assert_eq!(tc.execution_state.result, TestResult::Passed);

    group.exec(tc, TestResult::Passed);
    assert_eq!((group.total, group.passed, group.failed, group.skipped), (1, 1, 0, 0));
    assert_eq!(group.exec_duration(), 5);
    assert_eq!(tags(&sat.log), vec!["suite+TestSuite", "group+g", "case+1", "case-1"]);
}

#[test]
fn authorizer_then_authorized() {
    let cfg = config();
    let mut group = TestGroup::new("auth");

    let mut a = TestCase::new(
        &row(1, "/login", "POST", "", "{\"u\":\"a\"}", "{\"authType\":\"authorizer\"}"),
        &cfg,
    );
    assert_eq!(a.run(), CaseStep::Iterate);
    let (name, url, payload) = a.expanded_texts();
    let plan = a.prepare_request(name, url, payload, &group.group_ctx.jwt_token);
    assert!(plan.headers.is_empty());
    assert!(matches!(&plan.body, RequestBody::Json(j) if j.render() == "{\"u\":\"a\"}"));
    let outcome = HttpOutcome::Response {
        status: 200,
        body: "{\"data\":{\"access_token\":\"T\"}}".to_string(),
    };
    group.group_ctx.exec(&outcome, 1, a.is_authorizer(), &cfg);
    assert_eq!(a.finish_iteration(true), CaseStep::Finished(TestResult::Passed));
    group.exec(a, TestResult::Passed);

    let mut b = TestCase::new(
        &row(2, "/me", "GET", "Accept:text/plain", "", "{\"authType\":\"authorized\"}"),
        &cfg,
    );
    assert_eq!(b.run(), CaseStep::Iterate);
    let (name, url, payload) = b.expanded_texts();
    let plan = b.prepare_request(name, url, payload, &group.group_ctx.jwt_token);
    assert_eq!(
        plan.headers,
        vec![pair("Accept", "text/plain"), pair("Authorization", "Bearer T")]
    );
    assert_eq!(b.data.headers, vec![pair("Accept", "text/plain")]);
    assert_eq!(b.finish_iteration(true), CaseStep::Finished(TestResult::Passed));
    group.exec(b, TestResult::Passed);
    assert_eq!((group.total, group.passed), (2, 2));
}

#[test]
fn authorized_case_without_a_token_carries_no_bearer_header() {
    let cfg = config();
    let group = TestGroup::new("g");
    let mut tc = TestCase::new(
        &row(1, "/me", "GET", "X-A:1,content-type:text/plain", "", "{\"authType\":\"authorized\"}"),
        &cfg,
    );
    assert!(tc.is_authorized());
    assert_eq!(tc.data.config.auth_type, AuthType::Authorized);
    assert_eq!(tc.run(), CaseStep::Iterate);
    let plan =
        tc.prepare_request("n".to_string(), "u".to_string(), "".to_string(), &group.group_ctx.jwt_token);
    assert_eq!(plan.headers, vec![pair("X-A", "1")]);
}

#[test]
fn a_dummy_case_is_blank_and_has_not_run() {
    let mut tc = TestCase::dummy();
    assert_eq!(tc.data.id, 0);
    assert_eq!(tc.data.method, "GET");
    assert_eq!(tc.data.config.repeat_count, 1);
    assert!(tc.errors.is_empty());
    assert_eq!(tc.execution_state.result, TestResult::NotYetTested);
    assert_eq!(tc.run(), CaseStep::Iterate);
}

#[test]
fn repeat_with_early_exit() {
    let cfg = config();
    let mut tc = TestCase::new(&row(1, "/h", "GET", "", "", "{\"repeatCount\":3}"), &cfg);
    assert_eq!(tc.run(), CaseStep::Iterate);
    assert_eq!(tc.finish_iteration(false), CaseStep::Finished(TestResult::Failed));
    assert_eq!(tc.iterations, 1);
    assert!(!tc.running);
    assert_eq!(tc.execution_state.result, TestResult::Failed);
}

#[test]
fn a_case_repeats_until_its_count_is_reached() {
    let cfg = config();
    let mut tc =
        TestCase::new(&row(1, "/h", "GET", "", "", "{\"repeatCount\":3,\"delay\":40}"), &cfg);
    assert_eq!(tc.delay(), 40);
    assert_eq!(tc.run(), CaseStep::Iterate);
    assert_eq!(tc.finish_iteration(true), CaseStep::Iterate);
    assert_eq!(tc.finish_iteration(true), CaseStep::Iterate);
    assert_eq!(tc.finish_iteration(true), CaseStep::Finished(TestResult::Passed));
    assert_eq!(tc.iterations, 3);

    let mut never = TestCase::new(&row(1, "/h", "GET", "", "", "{\"repeatCount\":0}"), &cfg);
    assert_eq!(never.run(), CaseStep::Finished(TestResult::Passed));
    assert!(!never.running);
}

#[test]
fn a_row_with_errors_is_skipped_without_a_request() {
    let cfg = config();
    let mut bad = row(1, "/health", "123!@#", "", "", "");
    bad[0] = text("not_a_number");
    bad[10] = text("SAT.globals.a = '1'");
    let mut tc = TestCase::new(&bad, &cfg);
    assert_eq!(
        tc.errors,
        vec![pair("id", "ID is not a number."), pair("method", "Invalid HTTP method.")]
    );
    assert_eq!(tc.data.id, 0);
    assert_eq!(tc.data.name, "ping");
    assert_eq!(tc.data.given, "up");
    assert_eq!(tc.data.url, "http://svc.test/health");
    assert_eq!(tc.data.method, "GET");
    assert_eq!(tc.data.scripts.pre_test, Some("SAT.globals.a = '1'".to_string()));
    assert_eq!(tc.get_start_evt_data().testcase_name, "ping");
    assert_eq!(tc.execution_state.effective_name, "");
    assert_eq!(tc.run(), CaseStep::Finished(TestResult::Skipped));
    assert!(!tc.running);
    assert_eq!(tc.execution_state.result, TestResult::Skipped);

    let mut group = TestGroup::new("g");
    group.exec(tc, TestResult::Skipped);
    assert_eq!((group.total, group.passed, group.failed, group.skipped), (1, 0, 0, 1));
}

#[test]
fn multipart() {
    let cfg = config();
    let payload =
        "{\"form-data\":{\"fields\":{\"k\":\"v\"},\"files\":[{\"fieldname\":\"f\",\"filepath\":\"/tmp/a.txt\"}]}}";
    let mut tc = TestCase::new(
        &row(1, "/up", "POST", "Content-Type: multipart/form-data", payload, ""),
        &cfg,
    );
    assert_eq!(tc.run(), CaseStep::Iterate);
    let (name, url, body) = tc.expanded_texts();
    let plan = tc.prepare_request(name, url, body, &None);
    assert!(plan.headers.is_empty());
    match &plan.body {
        RequestBody::Multipart(parts) => {
            assert_eq!(parts.len(), 2);
            assert!(matches!(&parts[0], FormPart::Field { name, value } if name == "k" && value == "v"));
            assert!(matches!(
                &parts[1],
                FormPart::File { name, path, filename, mime }
                    if name == "f" && path == "/tmp/a.txt" && filename == "a.txt"
                        && mime == "text/plain"
            ));
        }
        _ => panic!("not multipart"),
    }
    assert_eq!(tc.execution_state.content_type, "multipart/form-data");
    assert_eq!(
        tc.execution_state.effective_payload,
        "----boundary-placeholder\r\nContent-Disposition: form-data; name=\"k\"\r\n\r\nv\r\n\
         --boundary-placeholder\r\nContent-Disposition: form-data; name=\"f\"; filename=\"/tmp/a.txt\"\r\n\
         Content-Type: application/octet-stream\r\n\r\n<binary content omitted for display>\r\n\
         ----boundary-placeholder--"
    );
}

#[test]
fn multipart_fields_that_are_structured_go_as_json_text() {
    let data = Json::parse(
        "{\"form-data\":{\"fields\":{\"a\":{\"x\":1},\"b\":[true],\"c\":3,\"d\":null},\"files\":[{\"fieldname\":\"f\"}]}}",
    )
    .unwrap();
    let parts = multipart_parts(&data);
    assert_eq!(parts.len(), 3);
    assert!(matches!(&parts[0], FormPart::Field { name, value } if name == "a" && value == "{\"x\":1}"));
    assert!(matches!(&parts[1], FormPart::Field { name, value } if name == "b" && value == "[true]"));
    assert!(matches!(&parts[2], FormPart::Unreadable));
    assert_eq!(multipart_parts(&Json::Null).len(), 0);
    assert_eq!(show_parts(&Vec::new()), "----boundary-placeholder--");
}

#[test]
fn file_parts_carry_the_media_type_of_their_extension() {
    let data = Json::parse(
        "{\"form-data\":{\"files\":[{\"fieldname\":\"a\",\"filepath\":\"x/y.PNG\"},{\"fieldname\":\"b\",\"filepath\":\"noext\"}]}}",
    )
    .unwrap();
    let parts = multipart_parts(&data);
    assert!(matches!(&parts[0], FormPart::File { mime, .. } if mime == "image/png"));
    assert!(matches!(&parts[1], FormPart::File { mime, .. } if mime == "application/octet-stream"));
}

#[test]
fn a_file_part_is_named_by_its_base_name_and_typed_by_its_extension() {
    assert_eq!(file_name("/tmp/a.txt"), "a.txt");
    assert_eq!(file_name("a.txt"), "a.txt");
    assert_eq!(file_name("x/y/"), "");
    assert_eq!(file_name(""), "");
    assert_eq!(file_name("/a/b.c/d"), "d");
    assert_eq!(media_type("a.txt"), "text/plain");
    assert_eq!(media_type("photo.tar.PNG"), "image/png");
    assert_eq!(media_type("noext"), "application/octet-stream");
    assert_eq!(media_type(".png"), "application/octet-stream");
    assert_eq!(media_type("name."), "application/octet-stream");
    assert_eq!(media_type("a.unknownext"), "application/octet-stream");
    assert_eq!(media_type(""), "application/octet-stream");
}

#[test]
fn content_type_picks_the_encoding_in_any_case() {
    let kind = |h: &str, v: &str| body_kind(&vec![pair("A", "b"), pair(h, v)]);
    assert_eq!(kind("Content-Type", "application/json"), BodyKind::Json);
    assert_eq!(kind("CONTENT-TYPE", "Application/X-WWW-Form-Urlencoded"), BodyKind::Form);
    assert_eq!(kind("content-type", "MULTIPART/FORM-DATA"), BodyKind::Multipart);
    assert_eq!(kind("Content-Type", "text/plain"), BodyKind::Json);
    assert_eq!(kind("Content-Typo", "multipart/form-data"), BodyKind::Json);
    assert_eq!(body_kind(&Vec::new()), BodyKind::Json);
    assert_eq!(
        sendable_headers(&vec![pair("Content-type", "x"), pair("B", "c"), pair("CONTENT-TYPE", "y")]),
        vec![pair("B", "c")]
    );
}

#[test]
fn form_payload_that_is_no_json_falls_back_to_the_empty_object() {
    let cfg = config();
    let mut tc = TestCase::new(
        &row(1, "/f", "POST", "Content-Type:application/x-www-form-urlencoded", "", ""),
        &cfg,
    );
    assert_eq!(tc.run(), CaseStep::Iterate);
    let plan = tc.prepare_request("n".to_string(), "u".to_string(), "{{x}}".to_string(), &None);
    assert!(matches!(&plan.body, RequestBody::Form(Json::Object(m)) if m.is_empty()));
    assert_eq!(tc.execution_state.effective_payload, "{{x}}");
    assert_eq!(tc.execution_state.effective_url, "u");
}

#[test]
fn group_filter() {
    let mut cfg = config();
    cfg.groups = Some(vec![(Some("S1".to_string()), "alpha".to_string())]);
    let on = |sheet: &str, first: &str, open: bool| {
        let selectors = parse_config_groups(&cfg, sheet);
        TestSuite::plan_row(&cfg, 1, &text(first), open, sheet, &selectors)
    };
    assert!(matches!(on("S1", "Group: alpha", false), RowAction::StartGroup(n) if n == "alpha"));
    assert!(matches!(on("S1", "Group: beta", true), RowAction::CloseGroup));
    assert!(matches!(on("S2", "Group: alpha", false), RowAction::CloseGroup));
    assert!(matches!(on("S1", "1", true), RowAction::Dispatch));
    assert!(matches!(on("S2", "1", false), RowAction::Ignore));
}

#[test]
fn a_sheet_is_planned_row_by_row() {
    let mut cfg = config();
    cfg.groups = Some(vec![(None, "alpha".to_string())]);
    let selectors = parse_config_groups(&cfg, "S1");
    let firsts = vec![
        text("header"),
        Cell::Number(1),
        text("Group: beta"),
        Cell::Number(2),
        text("Group: alpha"),
        Cell::Number(3),
        Cell::Empty,
        text("Group: gamma"),
        Cell::Number(4),
    ];
    let actions = TestSuite::plan_sheet(&cfg, &firsts, "S1", &selectors);
    let seen: Vec<String> = actions
        .iter()
        .map(|a| match a {
            RowAction::Skip => "skip".to_string(),
            RowAction::StartGroup(n) => format!("start {}", n),
            RowAction::CloseGroup => "close".to_string(),
            RowAction::Dispatch => "case".to_string(),
            RowAction::Ignore => "ignore".to_string(),
        })
        .collect();
    assert_eq!(
        seen,
        vec!["skip", "ignore", "close", "ignore", "start alpha", "case", "case", "close", "ignore"]
    );
    assert_eq!(TestSuite::plan_sheet(&cfg, &Vec::new(), "S1", &selectors).len(), 0);
}

fn shown(steps: &[SheetStep]) -> Vec<String> {
    steps
        .iter()
        .map(|s| match s {
            SheetStep::BeginSuite => "suite+".to_string(),
            SheetStep::BeginGroup(n) => format!("group+{}", n),
            SheetStep::RunCase(i) => format!("case {}", i),
            SheetStep::EndGroup(n) => format!("group-{}", n),
            SheetStep::EndSuite => "suite-".to_string(),
        })
        .collect()
}

#[test]
fn the_run_of_a_sheet_is_laid_out_step_by_step() {
    let cfg = config();
    let none = Vec::new();
    let firsts = vec![
        text("header"),
        Cell::Number(1),
        text("Group: one"),
        Cell::Number(2),
        Cell::Number(3),
        text("Group: two"),
        text("Group: three"),
        Cell::Number(4),
    ];
    let steps = TestSuite::exec(&cfg, &firsts, "S", &none);
    assert_eq!(
        shown(&steps),
        vec![
            "suite+", "group+one", "case 3", "case 4", "group-one", "group+two", "group-two",
            "group+three", "case 7", "group-three", "suite-"
        ]
    );
    assert_eq!(shown(&TestSuite::exec(&cfg, &Vec::new(), "S", &none)), vec!["suite+", "suite-"]);
}

#[test]
fn only_wanted_groups_of_the_sheet_are_run() {
    let mut cfg = config();
    cfg.groups = Some(vec![(Some("S1".to_string()), "alpha".to_string())]);
    let firsts = vec![
        text("header"),
        text("Group: alpha"),
        Cell::Number(1),
        Cell::Number(2),
        text("Group: beta"),
        Cell::Number(3),
    ];
    let on_s1 = TestSuite::exec(&cfg, &firsts, "S1", &parse_config_groups(&cfg, "S1"));
    assert_eq!(
        shown(&on_s1),
        vec!["suite+", "group+alpha", "case 2", "case 3", "group-alpha", "suite-"]
    );
    let on_s2 = TestSuite::exec(&cfg, &firsts, "S2", &parse_config_groups(&cfg, "S2"));
    assert_eq!(shown(&on_s2), vec!["suite+", "suite-"]);
}

#[test]
fn the_steps_of_a_sheet_are_taken_as_events_in_order() {
    let cfg = config();
    let firsts = vec![text("h"), text("Group: g"), Cell::Number(5), text("Group: h"), Cell::Number(6)];
    let rows: Vec<Vec<Cell>> = vec![
        Vec::new(),
        Vec::new(),
        row(5, "/a", "GET", "", "", ""),
        Vec::new(),
        row(6, "/b", "GET", "", "", ""),
    ];
    let suite = TestSuite::new();
    let mut sat = TSat::new();
    for step in TestSuite::exec(&cfg, &firsts, "S", &Vec::new()) {
        let event = match step {
            SheetStep::BeginSuite => TestEvent::EvtTestSuiteBegin(suite.get_start_evt_data()),
            SheetStep::BeginGroup(n) => {
                TestEvent::EvtTestGroupBegin(TestGroup::new(&n).get_start_evt_data())
            }
            SheetStep::RunCase(i) => {
                TestEvent::EvtTestCaseBegin(TestCase::new(&rows[i], &cfg).get_start_evt_data())
            }
            SheetStep::EndGroup(n) => {
                TestEvent::EvtTestGroupEnd(TestGroup::new(&n).get_end_evt_data())
            }
            SheetStep::EndSuite => TestEvent::EvtTestSuiteEnd(suite.get_end_evt_data()),
        };
        assert!(sat.send(event));
    }
    assert!(matches!(sat.log.depth(), Depth::Idle));
    assert_eq!(
        tags(&sat.log),
        vec!["suite+TestSuite", "group+g", "case+5", "group-g", "group+h", "case+6", "group-h", "suite-TestSuite"]
    );
}

#[test]
fn selectors_without_a_sheet_stand_for_the_sheet_at_hand() {
    let mut cfg = config();
    cfg.groups = Some(vec![(None, "a".to_string()), (Some("S2".to_string()), "b".to_string())]);
    let selectors = parse_config_groups(&cfg, "S1");
    assert_eq!(selectors, vec![pair("S1", "a"), pair("S2", "b")]);
    assert!(group_allowed(&selectors, "S1", "a"));
    assert!(!group_allowed(&selectors, "S1", "b"));
    assert!(group_allowed(&selectors, "S2", "b"));
    assert!(group_allowed(&Vec::new(), "any", "thing"));
    assert_eq!(parse_config_groups(&config(), "S1").len(), 0);
}

#[test]
fn rows_are_read_from_row_one_or_within_the_bounds_of_a_single_sheet() {
    let cfg = config();
    let none = Vec::new();
    assert!(matches!(TestSuite::plan_row(&cfg, 0, &text("Group: g"), false, "S", &none), RowAction::Skip));
    assert!(matches!(
        TestSuite::plan_row(&cfg, 1, &text("Group:Group:  g h "), false, "S", &none),
        RowAction::StartGroup(n) if n == "g h"
    ));
    assert!(matches!(TestSuite::plan_row(&cfg, 1, &Cell::Number(1), true, "S", &none), RowAction::Dispatch));

    let bounded = Config {
        worksheet: Some("S".to_string()),
        start_row: Some(3),
        end_row: Some(4),
        ..config()
    };
    let at = |i: usize| TestSuite::plan_row(&bounded, i, &Cell::Number(1), true, "S", &none);
    assert!(matches!(at(2), RowAction::Skip));
    assert!(matches!(at(3), RowAction::Dispatch));
    assert!(matches!(at(4), RowAction::Dispatch));
    assert!(matches!(at(5), RowAction::Skip));

    let unbounded = Config { start_row: Some(3), end_row: Some(4), ..config() };
    assert!(matches!(
        TestSuite::plan_row(&unbounded, 1, &Cell::Number(1), true, "S", &none),
        RowAction::Dispatch
    ));
}

#[test]
fn suite_totals_are_the_sums_over_its_groups() {
    let cfg = config();
    let mut suite = TestSuite::new();
    let mut g1 = TestGroup::new("one");
    g1.group_ctx.exec_duration = 7;
    g1.exec(TestCase::new(&row(1, "/a", "GET", "", "", ""), &cfg), TestResult::Passed);
    g1.exec(TestCase::new(&row(2, "/b", "GET", "", "", ""), &cfg), TestResult::Failed);
    let mut g2 = TestGroup::new("two");
    g2.exec(TestCase::new(&row(3, "/c", "GET", "", "", ""), &cfg), TestResult::Skipped);
    assert_eq!(g1.stats_line(), "Group Summary: { Name: one, Total: 2, Passed: 1, Failed: 1, Skipped: 0 }");
    assert_eq!(g1.name(), "one");
    assert_eq!(g1.get_end_evt_data().exec_duration, 14);
    suite.finalize_group(g1);
    suite.finalize_group(g2);
    assert_eq!((suite.total, suite.passed, suite.failed, suite.skipped), (3, 1, 1, 1));
    assert_eq!(suite.passed + suite.failed + suite.skipped, suite.total);
    assert_eq!(suite.exec_duration, 14);
    assert_eq!(suite.test_groups.len(), 2);
    assert_eq!(suite.stats_line(), "Total: 3, Passed: 1, Failed: 1, Skipped: 1");
    assert_eq!(suite.exec_result(), TestResult::Passed);
    assert_eq!(suite.get_end_evt_data().suite_name, "TestSuite");
}

#[test]
fn events_out_of_order_are_not_taken() {
    let cfg = config();
    let suite = TestSuite::new();
    let group = TestGroup::new("g");
    let tc = TestCase::new(&row(4, "/a", "GET", "", "", ""), &cfg);
    let other = TestCase::new(&row(5, "/a", "GET", "", "", ""), &cfg);
    let mut sat = TSat::new();
    assert!(!sat.send(TestEvent::EvtTestSuiteEnd(suite.get_end_evt_data())));
    assert!(!sat.send(TestEvent::EvtTestGroupBegin(group.get_start_evt_data())));
    assert!(sat.send(TestEvent::EvtTestSuiteBegin(suite.get_start_evt_data())));
    assert!(!sat.send(TestEvent::EvtTestSuiteBegin(suite.get_start_evt_data())));
    assert!(!sat.send(TestEvent::EvtTestCaseBegin(tc.get_start_evt_data())));
    assert!(sat.send(TestEvent::EvtTestGroupBegin(group.get_start_evt_data())));
    assert!(!sat.send(TestEvent::EvtTestCaseEnd(tc.get_end_evt_data(0, 0, String::new(), None))));
    assert!(sat.send(TestEvent::EvtTestCaseBegin(tc.get_start_evt_data())));
    assert!(!sat.send(TestEvent::EvtTestCaseEnd(other.get_end_evt_data(0, 0, String::new(), None))));
    assert!(sat.send(TestEvent::EvtTestCaseEnd(tc.get_end_evt_data(0, 200, "b".to_string(), None))));
    assert!(sat.send(TestEvent::EvtTestCaseEnd(tc.get_end_evt_data(0, 200, "b".to_string(), None))));
    assert!(!sat.send(TestEvent::EvtTestSuiteEnd(suite.get_end_evt_data())));
    assert!(!sat.send(TestEvent::EvtTestGroupEnd(TestGroup::new("h").get_end_evt_data())));
    assert!(sat.send(TestEvent::EvtTestGroupEnd(group.get_end_evt_data())));
    assert!(sat.send(TestEvent::EvtTestSuiteEnd(suite.get_end_evt_data())));
    assert!(matches!(sat.log.depth(), Depth::Idle));
    assert_eq!(
        tags(&sat.log),
        vec!["suite+TestSuite", "group+g", "case+4", "case-4", "case-4", "group-g", "suite-TestSuite"]
    );
    assert_eq!(sat.log.pending(5).len(), 2);
    assert_eq!(sat.log.pending(9).len(), 0);

    let (log, taken) = EventLog::new().send(TestEvent::EvtTestGroupEnd(group.get_end_evt_data()));
    assert!(!taken);
    assert!(log.events().is_empty());
}

#[test]
fn sheets_to_run_are_the_one_named_or_all() {
    let all = vec!["S1".to_string(), "S2".to_string()];
    assert_eq!(TSat::sheets_to_run(&config(), all.clone()), all);
    let one = Config { worksheet: Some("S2".to_string()), ..config() };
    assert_eq!(TSat::sheets_to_run(&one, all), vec!["S2".to_string()]);
}

#[test]
fn group_selectors_are_read_from_the_command_line() {
    assert_eq!(Config::parse_group_selector("alpha"), Some((None, "alpha".to_string())));
    assert_eq!(
        Config::parse_group_selector("S1.alpha"),
        Some((Some("S1".to_string()), "alpha".to_string()))
    );
    assert_eq!(
        Config::parse_group_selector("S1:alpha"),
        Some((Some("S1".to_string()), "alpha".to_string()))
    );
    assert_eq!(Config::parse_group_selector("a."), Some((Some("a".to_string()), "".to_string())));
    assert_eq!(Config::parse_group_selector("a.b:c"), None);
    assert_eq!(Config::parse_group_selector(""), Some((None, "".to_string())));
}

#[test]
fn command_line_values_win_over_the_file() {
    assert!(Config::row_range_conflict(&Some(2), &None, &None));
    assert!(Config::row_range_conflict(&None, &Some(2), &None));
    assert!(!Config::row_range_conflict(&Some(2), &Some(3), &Some("S".to_string())));
    assert!(!Config::row_range_conflict(&None, &None, &None));

    let file = Config {
        start_row: Some(2),
        end_row: Some(9),
        worksheet: Some("S".to_string()),
        verbose: true,
        groups: Some(vec![(None, "old".to_string())]),
        ..config()
    };
    let cli = Overrides {
        start_row: Some(5),
        end_row: None,
        base_url: None,
        test_file: Some("t.xlsx".to_string()),
        worksheet: None,
        verbose: false,
        groups: Vec::new(),
    };
    let merged = file.apply_overrides(cli);
    assert_eq!(merged.start_row, Some(5));
    assert_eq!(merged.end_row, Some(9));
    assert_eq!(merged.base_url, Some("http://svc.test".to_string()));
    assert_eq!(merged.test_file, Some("t.xlsx".to_string()));
    assert_eq!(merged.worksheet, Some("S".to_string()));
    assert!(!merged.verbose);
    assert_eq!(merged.groups, Some(vec![(None, "old".to_string())]));

    let sheet = Overrides {
        start_row: None,
        end_row: None,
        base_url: Some("http://other".to_string()),
        test_file: None,
        worksheet: Some("W".to_string()),
        verbose: true,
        groups: vec![(Some("W".to_string()), "g".to_string())],
    };
    let merged = config().apply_overrides(sheet);
    assert_eq!(merged.worksheet, Some("W".to_string()));
    assert_eq!(merged.base_url, Some("http://other".to_string()));
    assert_eq!(merged.groups, Some(vec![(Some("W".to_string()), "g".to_string())]));
    assert_eq!(merged.token_key, Some("data.access_token".to_string()));
    assert!(merged.verbose);
}
