use satyanaash::config::Config;
use satyanaash::data::{AuthType, ParseErrors, TestCaseConfig};
use satyanaash::json::Json;
use satyanaash::row_parser::{Cell, ExcelRowParser};

fn create_test_config() -> Config {
    Config {
        start_row: Some(1),
        end_row: None,
        base_url: Some("http://localhost:3000".to_string()),
        test_file: None,
        worksheet: None,
        verbose: false,
        token_key: None,
        groups: None,
    }
}

fn text(s: &str) -> Cell {
    Cell::Text(s.to_string())
}

fn good_row() -> Vec<Cell> {
    vec![
        Cell::Number(7),
        text("ping"),
        text("up"),
        text("GET /h"),
        text("200"),
        text("/health"),
        text("GET"),
        text("Accept: text/plain"),
        text("{\"a\": 1}"),
        text("{\"repeatCount\": 2, \"authType\": \"authorizer\", \"delay\": 5}"),
        text("SAT.globals.x = '1'"),
        text("SAT.tester('ok', () => true)"),
    ]
}

#[test]
fn test_parse_id_valid() {
    let mut errors = ParseErrors::new();
    let cell = Cell::Number(123);
    let result = ExcelRowParser::parse_id(&cell, &mut errors);
    assert_eq!(result, 123);
    assert!(!errors.has_errors());
}

#[test]
fn test_parse_id_invalid() {
    let mut errors = ParseErrors::new();
    let cell = Cell::Text("not_a_number".to_string());
    let result = ExcelRowParser::parse_id(&cell, &mut errors);
    assert_eq!(result, 0);
    assert!(errors.has_errors());
}

#[test]
fn test_parse_name_valid() {
    let mut errors = ParseErrors::new();
    let cell = Cell::Text("Test Case Name".to_string());
    let result = ExcelRowParser::parse_name(&cell, &mut errors);
    assert_eq!(result, "Test Case Name");
    assert!(!errors.has_errors());
}

#[test]
fn test_parse_method_valid() {
    let mut errors = ParseErrors::new();
    let cell = Cell::Text("POST".to_string());
    let result = ExcelRowParser::parse_method(&cell, &mut errors);
    assert_eq!(result.parse::<reqwest::Method>().unwrap(), reqwest::Method::POST);
    assert!(!errors.has_errors());
}

#[test]
fn test_parse_method_invalid() {
    let mut errors = ParseErrors::new();
    let cell = Cell::Text("123!@#".to_string());
    let result = ExcelRowParser::parse_method(&cell, &mut errors);

    assert_eq!(result.parse::<reqwest::Method>().unwrap(), reqwest::Method::GET);
    assert!(errors.has_errors());
    assert_eq!(errors.errors[0].field, "method");
    assert_eq!(errors.errors[0].message, "Invalid HTTP method.");
}

#[test]
fn test_parse_headers_valid() {
    let cell = Cell::Text("Content-Type:application/json,Authorization:Bearer token".to_string());
    let result = ExcelRowParser::parse_headers(&cell);
    assert_eq!(result.len(), 2);
    assert_eq!(result[0], ("Content-Type".to_string(), "application/json".to_string()));
    assert_eq!(result[1], ("Authorization".to_string(), "Bearer token".to_string()));
}

#[test]
fn test_parse_headers_empty() {
    let cell = Cell::Empty;
    let result = ExcelRowParser::parse_headers(&cell);
    assert_eq!(result.len(), 0);
}

#[test]
fn test_parse_url_absolute() {
    let mut errors = ParseErrors::new();
    let config = create_test_config();
    let cell = Cell::Text("https://example.com/api".to_string());
    let result = ExcelRowParser::parse_url(&cell, &config, &mut errors);
    assert_eq!(result, "https://example.com/api");
    assert!(!errors.has_errors());
}

#[test]
fn test_parse_url_relative() {
    let mut errors = ParseErrors::new();
    let config = create_test_config();
    let cell = Cell::Text("/api/test".to_string());
    let result = ExcelRowParser::parse_url(&cell, &config, &mut errors);
    assert_eq!(result, "http://localhost:3000/api/test");
    assert!(!errors.has_errors());
}

#[test]
fn test_parse_payload_valid_json() {
    let mut errors = ParseErrors::new();
    let cell = Cell::Text(r#"{"key": "value"}"#.to_string());
    let result = ExcelRowParser::parse_payload(&cell, &mut errors);
    assert_eq!(result, r#"{"key": "value"}"#);
    assert!(!errors.has_errors());
}

#[test]
fn test_parse_payload_empty() {
    let mut errors = ParseErrors::new();
    let cell = Cell::Empty;
    let result = ExcelRowParser::parse_payload(&cell, &mut errors);
    assert_eq!(result, "");
    assert!(!errors.has_errors());
}

#[test]
fn payload_that_is_no_json_is_an_error() {
    let mut errors = ParseErrors::new();
    let result = ExcelRowParser::parse_payload(&text("{oops"), &mut errors);
    assert_eq!(result, "");
    assert_eq!(errors.errors.len(), 1);
    assert_eq!(errors.errors[0].field, "payload");
    assert_eq!(errors.errors[0].message, "Invalid JSON payload.");
}

#[test]
fn empty_payload_text_is_accepted() {
    let mut errors = ParseErrors::new();
    assert_eq!(ExcelRowParser::parse_payload(&text(""), &mut errors), "");
    assert!(!errors.has_errors());
}

#[test]
fn descriptive_cells_must_hold_text() {
    let mut errors = ParseErrors::new();
    assert_eq!(ExcelRowParser::parse_name(&Cell::Number(3), &mut errors), "");
    assert_eq!(ExcelRowParser::parse_given(&Cell::Empty, &mut errors), "");
    assert_eq!(ExcelRowParser::parse_when(&Cell::Other, &mut errors), "");
    assert_eq!(ExcelRowParser::parse_then(&text(""), &mut errors), "");
    let pairs = errors.into_pairs();
    assert_eq!(
        pairs,
        vec![
            ("name".to_string(), "Invalid name field".to_string()),
            ("given".to_string(), "Invalid data for 'given' field.".to_string()),
            ("when".to_string(), "Invalid data for 'when' field.".to_string()),
            ("then".to_string(), "Invalid data for 'then' field.".to_string()),
        ]
    );
}

#[test]
fn url_errors_name_what_is_wrong() {
    let config = create_test_config();
    let mut errors = ParseErrors::new();
    assert_eq!(ExcelRowParser::parse_url(&Cell::Empty, &config, &mut errors), "");
    assert_eq!(errors.errors[0].message, "No data for 'url' field.");

    let bare = Config { base_url: None, ..create_test_config() };
    let mut errors = ParseErrors::new();
    assert_eq!(ExcelRowParser::parse_url(&text("/relative"), &bare, &mut errors), "");
    assert_eq!(errors.errors[0].field, "url");
    assert_eq!(errors.errors[0].message, "Invalid URL format.");
}

#[test]
fn method_cell_without_text_is_an_error() {
    let mut errors = ParseErrors::new();
    assert_eq!(ExcelRowParser::parse_method(&Cell::Empty, &mut errors), "GET");
    assert_eq!(errors.errors[0].message, "No data for 'method' field.");
}

#[test]
fn any_token_is_a_method_and_nothing_else_is() {
    for (word, ok) in [
        ("GET", true),
        ("get", true),
        ("PURGE", true),
        ("M-SEARCH", true),
        ("a!#$%&'*+-.^_`|~9", true),
        ("AVERYLONGEXTENSIONMETHODNAME", true),
        ("", false),
        ("G E T", false),
        ("GET\n", false),
        ("GE(T", false),
        ("a@b", false),
        ("a/b", false),
        ("a:b", false),
        ("\u{e9}", false),
    ] {
        let mut errors = ParseErrors::new();
        let result = ExcelRowParser::parse_method(&text(word), &mut errors);
        assert_eq!(!errors.has_errors(), ok, "{:?}", word);
        assert_eq!(result, if ok { word } else { "GET" });
    }
}

#[test]
fn malformed_header_pieces_are_dropped() {
    let result = ExcelRowParser::parse_headers(&text(" A : 1 ,broken,X:http://h, B:2,"));
    assert_eq!(
        result,
        vec![("A".to_string(), "1".to_string()), ("B".to_string(), "2".to_string())]
    );
    assert_eq!(ExcelRowParser::parse_headers(&text("")).len(), 0);
}

#[test]
fn config_cell_is_read_member_by_member() {
    let c = ExcelRowParser::parse_config(&text(
        "{\"repeatCount\": 3, \"authType\": \"authorized\", \"delay\": 250, \"other\": true}",
    ));
    assert_eq!(c, TestCaseConfig { repeat_count: 3, auth_type: AuthType::Authorized, delay: 250 });

    let c = ExcelRowParser::parse_config(&text("{\"authType\": \"authorizer\"}"));
    assert_eq!(c, TestCaseConfig { repeat_count: 1, auth_type: AuthType::Authorizer, delay: 0 });

    let c = ExcelRowParser::parse_config(&text("{}"));
    assert_eq!(c, TestCaseConfig::default());
}

#[test]
fn config_cell_that_cannot_be_read_gives_the_default() {
    for bad in [
        "not json",
        "[1, 2]",
        "{\"repeatCount\": -1}",
        "{\"repeatCount\": 1.5}",
        "{\"repeatCount\": 4294967296}",
        "{\"authType\": \"root\"}",
        "{\"authType\": 1}",
        "{\"delay\": \"soon\"}",
    ] {
        assert_eq!(ExcelRowParser::parse_config(&text(bad)), TestCaseConfig::default());
    }
    assert_eq!(ExcelRowParser::parse_config(&Cell::Empty), TestCaseConfig::default());
    let c = ExcelRowParser::parse_config(&text("{\"repeatCount\": 4294967295}"));
    assert_eq!(c.repeat_count, u32::MAX);
}

#[test]
fn config_is_read_from_a_json_value() {
    let j = Json::parse("{\"delay\": 9}").unwrap();
    assert_eq!(
        TestCaseConfig::from_json(&j),
        Some(TestCaseConfig { repeat_count: 1, auth_type: AuthType::NoAuth, delay: 9 })
    );
    assert_eq!(TestCaseConfig::from_json(&Json::Null), None);
}

#[test]
fn scripts_are_read_as_written() {
    assert_eq!(
        ExcelRowParser::parse_pre_test_script(&text("let a = '$UUID';")),
        Some("let a = '$UUID';".to_string())
    );
    assert_eq!(ExcelRowParser::parse_pre_test_script(&Cell::Empty), None);
    assert_eq!(
        ExcelRowParser::parse_post_test_script(&text("SAT.tester('t', () => true)")),
        Some("SAT.tester('t', () => true)".to_string())
    );
    let expanded = ExcelRowParser::parse_post_test_script(&text("'$UUID'")).unwrap();
    assert_eq!(expanded.len(), 38);
    assert_eq!(ExcelRowParser::parse_post_test_script(&Cell::Number(1)), None);
}

#[test]
fn a_good_row_gives_its_record() {
    let config = create_test_config();
    let data = ExcelRowParser::parse_test_case_data(&good_row(), &config).unwrap();
    assert_eq!(data.id, 7);
    assert_eq!(data.name, "ping");
    assert_eq!(data.given, "up");
    assert_eq!(data.when, "GET /h");
    assert_eq!(data.then_clause, "200");
    assert_eq!(data.url, "http://localhost:3000/health");
    assert_eq!(data.method, "GET");
    assert_eq!(data.headers, vec![("Accept".to_string(), "text/plain".to_string())]);
    assert_eq!(data.payload, "{\"a\": 1}");
    assert_eq!(
        data.config,
        TestCaseConfig { repeat_count: 2, auth_type: AuthType::Authorizer, delay: 5 }
    );
    assert_eq!(data.scripts.pre_test, Some("SAT.globals.x = '1'".to_string()));
    assert_eq!(data.scripts.post_test, Some("SAT.tester('ok', () => true)".to_string()));
}

#[test]
fn a_bad_row_still_gives_its_record() {
    let config = create_test_config();
    let mut row = good_row();
    row[0] = text("x");
    row[5] = text("http://[bad");
    let (data, errors) = ExcelRowParser::parse_row(&row, &config);
    let fields: Vec<String> = errors.errors.iter().map(|e| e.field.clone()).collect();
    assert_eq!(fields, vec!["id".to_string(), "url".to_string()]);
    assert_eq!(data.id, 0);
    assert_eq!(data.url, "");
    assert_eq!(data.name, "ping");
    assert_eq!(data.method, "GET");
    assert_eq!(data.payload, "{\"a\": 1}");
    assert_eq!(data.config.repeat_count, 2);
    assert_eq!(data.scripts.pre_test, Some("SAT.globals.x = '1'".to_string()));

    let (data, errors) = ExcelRowParser::parse_row(&good_row(), &config);
    assert!(!errors.has_errors());
    assert_eq!(data.id, 7);
}

#[test]
fn parsing_a_row_twice_gives_equal_records() {
    let config = create_test_config();
    let a = ExcelRowParser::parse_test_case_data(&good_row(), &config).unwrap();
    let b = ExcelRowParser::parse_test_case_data(&good_row(), &config).unwrap();
    assert_eq!(format!("{:?}", a), format!("{:?}", b));
}

#[test]
fn a_bad_row_gives_its_errors_in_column_order() {
    let config = create_test_config();
    let mut row = good_row();
    row[0] = text("x");
    row[6] = text("G E T");
    row[8] = text("[1,");
    let errors = ExcelRowParser::parse_test_case_data(&row, &config).unwrap_err();
    let fields: Vec<String> = errors.errors.iter().map(|e| e.field.clone()).collect();
    assert_eq!(fields, vec!["id".to_string(), "method".to_string(), "payload".to_string()]);
    assert_eq!(errors.errors[0].message, "ID is not a number.");
}
