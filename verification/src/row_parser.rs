//! The row parser: one spreadsheet row of twelve cells becomes a test case
//! record, or the list of what is wrong with the row.

use vstd::prelude::*;
use crate::config::Config;
use crate::data::{
    opt_view, pairs_view, AuthType, CaseView, ParseErrors, TestCaseConfig, TestCaseData,
    TestScripts,
};
use crate::json::{json_doc, json_valid, number_as_u64, unsigned_of, Json, JsonView};
use crate::keywords::{keyword_expansion, substitute_keywords};
use crate::placeholders::{trim_range, trimmed};
use crate::text::{
    chars_of, matches_at, occurs_at, pieces_view, push_all, same_text, split, split_chars,
    string_of,
};

verus! {

/// What a spreadsheet cell holds, as far as the parser reads it.
#[derive(Debug, Clone)]
pub enum Cell {
    /// Nothing.
    Empty,
    /// A string.
    Text(String),
    /// A number, coerced to an unsigned 32-bit integer.
    Number(u32),
    /// Anything else: a boolean, a date, an error.
    Other,
}

/// Parses spreadsheet rows into test case records.
pub struct ExcelRowParser;

/// Whether `text` parses as a URL.
pub uninterp spec fn url_valid(text: Seq<char>) -> bool;

/// Whether `c` may stand in an HTTP method: a letter, a digit, or one of
/// ``! # $ % & ' * + - . ^ _ ` | ~``.
pub open spec fn is_method_char(c: char) -> bool {
    ||| ('a' <= c && c <= 'z')
    ||| ('A' <= c && c <= 'Z')
    ||| ('0' <= c && c <= '9')
    ||| c == '!'
    ||| c == '#'
    ||| c == '$'
    ||| c == '%'
    ||| c == '&'
    ||| c == '\''
    ||| c == '*'
    ||| c == '+'
    ||| c == '-'
    ||| c == '.'
    ||| c == '^'
    ||| c == '_'
    ||| c == '`'
    ||| c == '|'
    ||| c == '~'
}

/// Whether `text` is an HTTP method: a token of at least one character.
/// Any token is one, not the standard verbs alone, and case counts.
pub open spec fn method_valid(text: Seq<char>) -> bool {
    text.len() > 0 && forall|i: int| 0 <= i < text.len() ==> is_method_char(text[i])
}

/// `reqwest::Url::parse`: whether it accepts `text`.
#[verifier::external_body]
fn url_parses(text: &str) -> (b: bool)
    ensures
        b == url_valid(text@),
{
    reqwest::Url::parse(text).is_ok()
}

/// `reqwest::Method::from_str`: whether it accepts `text`. It accepts a
/// text that is not empty and holds method characters alone.
#[verifier::external_body]
fn method_parses(text: &str) -> (b: bool)
    ensures
        b == method_valid(text@),
{
    text.parse::<reqwest::Method>().is_ok()
}

/// One `(field, message)` error, as a list.
pub open spec fn one_error(field: Seq<char>, message: Seq<char>) -> Seq<(Seq<char>, Seq<char>)> {
    seq![(field, message)]
}

/// No error.
pub open spec fn no_error() -> Seq<(Seq<char>, Seq<char>)> {
    Seq::empty()
}

/// `e` is what keyword expansion made of the text of `cell`; the empty text
/// for a cell that holds no string.
pub open spec fn expands(cell: Cell, e: Seq<char>) -> bool {
    match cell {
        Cell::Text(s) => keyword_expansion(s@, e),
        _ => e == Seq::<char>::empty(),
    }
}

/// The identifier that a cell gives: its number, or 0.
pub open spec fn id_value(cell: Cell) -> u32 {
    match cell {
        Cell::Number(n) => n,
        _ => 0,
    }
}

/// What is wrong with an identifier cell.
pub open spec fn id_errors(cell: Cell) -> Seq<(Seq<char>, Seq<char>)> {
    match cell {
        Cell::Number(_) => no_error(),
        _ => one_error("id"@, "ID is not a number."@),
    }
}

/// A descriptive cell is in order when it holds a string that is not empty.
pub open spec fn words_ok(cell: Cell) -> bool {
    match cell {
        Cell::Text(s) => s@.len() > 0,
        _ => false,
    }
}

/// The text that a descriptive cell gives, `e` being its expansion.
pub open spec fn words_value(cell: Cell, e: Seq<char>) -> Seq<char> {
    if words_ok(cell) {
        e
    } else {
        Seq::empty()
    }
}

/// What is wrong with a descriptive cell.
pub open spec fn words_errors(cell: Cell, field: Seq<char>, message: Seq<char>) -> Seq<
    (Seq<char>, Seq<char>),
> {
    if words_ok(cell) {
        no_error()
    } else {
        one_error(field, message)
    }
}

/// A URL is absolute when it begins with `http://` or `https://`.
pub open spec fn is_absolute(e: Seq<char>) -> bool {
    occurs_at(e, 0, "http://"@) || occurs_at(e, 0, "https://"@)
}

/// The URL a cell text stands for: itself when absolute, else the base URL
/// followed by it.
pub open spec fn full_url(base: Option<Seq<char>>, e: Seq<char>) -> Seq<char> {
    if is_absolute(e) {
        e
    } else {
        match base {
            Some(b) => b + e,
            None => e,
        }
    }
}

/// The URL that a cell gives, `e` being its expansion; empty where it does not parse.
pub open spec fn url_value(cell: Cell, base: Option<Seq<char>>, e: Seq<char>) -> Seq<char> {
    if cell is Text && url_valid(full_url(base, e)) {
        full_url(base, e)
    } else {
        Seq::empty()
    }
}

/// What is wrong with a URL cell.
pub open spec fn url_errors(cell: Cell, base: Option<Seq<char>>, e: Seq<char>) -> Seq<
    (Seq<char>, Seq<char>),
> {
    if !(cell is Text) {
        one_error("url"@, "No data for 'url' field."@)
    } else if url_valid(full_url(base, e)) {
        no_error()
    } else {
        one_error("url"@, "Invalid URL format."@)
    }
}

/// The method that a cell gives; `GET` where it holds none that is valid.
pub open spec fn method_value(cell: Cell) -> Seq<char> {
    match cell {
        Cell::Text(s) => if method_valid(s@) {
            s@
        } else {
            "GET"@
        },
        _ => "GET"@,
    }
}

/// What is wrong with a method cell.
pub open spec fn method_errors(cell: Cell) -> Seq<(Seq<char>, Seq<char>)> {
    match cell {
        Cell::Text(s) => if method_valid(s@) {
            no_error()
        } else {
            one_error("method"@, "Invalid HTTP method."@)
        },
        _ => one_error("method"@, "No data for 'method' field."@),
    }
}

/// The header that one comma-separated piece spells: `name:value`, both
/// trimmed. A piece with no colon, or with more than one, spells none.
pub open spec fn header_of(piece: Seq<char>) -> Option<(Seq<char>, Seq<char>)> {
    let parts = split(piece, ':');
    if parts.len() == 2 {
        Some(
            (
                trimmed(parts[0], 0, parts[0].len() as int),
                trimmed(parts[1], 0, parts[1].len() as int),
            ),
        )
    } else {
        None
    }
}

/// The headers spelled by the first `n` pieces, in order.
pub open spec fn headers_upto(pieces: Seq<Seq<char>>, n: int) -> Seq<(Seq<char>, Seq<char>)>
    decreases n,
{
    if n <= 0 || n > pieces.len() {
        Seq::empty()
    } else {
        headers_upto(pieces, n - 1) + match header_of(pieces[n - 1]) {
            Some(h) => seq![h],
            None => Seq::empty(),
        }
    }
}

/// The headers that a cell gives.
pub open spec fn headers_value(cell: Cell) -> Seq<(Seq<char>, Seq<char>)> {
    match cell {
        Cell::Text(s) => headers_upto(split(s@, ','), split(s@, ',').len() as int),
        _ => Seq::empty(),
    }
}

/// A payload is in order when it is absent, empty, or well-formed JSON.
pub open spec fn payload_ok(cell: Cell, e: Seq<char>) -> bool {
    !(cell is Text) || e.len() == 0 || json_valid(e)
}

/// The payload that a cell gives, `e` being its expansion.
pub open spec fn payload_value(cell: Cell, e: Seq<char>) -> Seq<char> {
    if cell is Text && payload_ok(cell, e) {
        e
    } else {
        Seq::empty()
    }
}

/// What is wrong with a payload cell.
pub open spec fn payload_errors(cell: Cell, e: Seq<char>) -> Seq<(Seq<char>, Seq<char>)> {
    if payload_ok(cell, e) {
        no_error()
    } else {
        one_error("payload"@, "Invalid JSON payload."@)
    }
}

/// The authentication role a word names.
pub open spec fn auth_of(word: Seq<char>) -> Option<AuthType> {
    if word == "none"@ {
        Some(AuthType::NoAuth)
    } else if word == "authorizer"@ {
        Some(AuthType::Authorizer)
    } else if word == "authorized"@ {
        Some(AuthType::Authorized)
    } else {
        None
    }
}

/// An unsigned member of an object: its default where absent, `None` where
/// it is not an unsigned integer.
pub open spec fn member_u64(j: JsonView, key: Seq<char>, default: u64) -> Option<u64> {
    match j.member(key) {
        None => Some(default),
        Some(JsonView::Number(n)) => unsigned_of(n),
        Some(_) => None,
    }
}

/// The `authType` member of an object.
pub open spec fn member_auth(j: JsonView) -> Option<AuthType> {
    match j.member("authType"@) {
        None => Some(AuthType::NoAuth),
        Some(JsonView::Text(s)) => auth_of(s),
        Some(_) => None,
    }
}

/// The case configuration that a JSON value spells: an object whose members
/// `repeatCount`, `authType` and `delay`, where present, have the right
/// type and range. Other members are ignored.
pub open spec fn config_of(j: JsonView) -> Option<TestCaseConfig> {
    if !(j is Object) {
        None
    } else {
        match (member_u64(j, "repeatCount"@, 1), member_auth(j), member_u64(j, "delay"@, 0)) {
            (Some(r), Some(a), Some(d)) => if r <= u32::MAX {
                Some(TestCaseConfig { repeat_count: r as u32, auth_type: a, delay: d })
            } else {
                None
            },
            _ => None,
        }
    }
}

/// The configuration of a case that names none.
pub open spec fn default_config() -> TestCaseConfig {
    TestCaseConfig { repeat_count: 1, auth_type: AuthType::NoAuth, delay: 0 }
}

/// The configuration that a cell gives; the default where it cannot be read.
pub open spec fn config_value(cell: Cell) -> TestCaseConfig {
    match cell {
        Cell::Text(s) => match json_doc(s@) {
            Some(j) => match config_of(j) {
                Some(c) => c,
                None => default_config(),
            },
            None => default_config(),
        },
        _ => default_config(),
    }
}

/// The pre-script that a cell gives.
pub open spec fn pre_script_value(cell: Cell) -> Option<Seq<char>> {
    match cell {
        Cell::Text(s) => Some(s@),
        _ => None,
    }
}

/// The post-script that a cell gives, `e` being its expansion.
pub open spec fn post_script_value(cell: Cell, e: Seq<char>) -> Option<Seq<char>> {
    match cell {
        Cell::Text(_) => Some(e),
        _ => None,
    }
}

/// The keyword expansions that one parse of a row drew.
pub struct Expansions {
    pub name: Seq<char>,
    pub given: Seq<char>,
    pub when: Seq<char>,
    pub then_clause: Seq<char>,
    pub url: Seq<char>,
    pub payload: Seq<char>,
    pub post_test: Seq<char>,
}

/// Each text of `ex` is a keyword expansion of its cell.
pub open spec fn expansions_of(row: Seq<Cell>, ex: Expansions) -> bool {
    &&& expands(row[1], ex.name)
    &&& expands(row[2], ex.given)
    &&& expands(row[3], ex.when)
    &&& expands(row[4], ex.then_clause)
    &&& expands(row[5], ex.url)
    &&& expands(row[8], ex.payload)
    &&& expands(row[11], ex.post_test)
}

/// The record that a row gives, with the expansions `ex` drawn for it.
pub open spec fn row_record(row: Seq<Cell>, base: Option<Seq<char>>, ex: Expansions) -> CaseView {
    CaseView {
        id: id_value(row[0]),
        name: words_value(row[1], ex.name),
        given: words_value(row[2], ex.given),
        when: words_value(row[3], ex.when),
        then_clause: words_value(row[4], ex.then_clause),
        url: url_value(row[5], base, ex.url),
        method: method_value(row[6]),
        headers: headers_value(row[7]),
        payload: payload_value(row[8], ex.payload),
        config: config_value(row[9]),
        pre_test: pre_script_value(row[10]),
        post_test: post_script_value(row[11], ex.post_test),
    }
}

/// The errors of a row, in column order.
pub open spec fn row_errors(row: Seq<Cell>, base: Option<Seq<char>>, ex: Expansions) -> Seq<
    (Seq<char>, Seq<char>),
> {
    id_errors(row[0]) + words_errors(row[1], "name"@, "Invalid name field"@) + words_errors(
        row[2],
        "given"@,
        "Invalid data for 'given' field."@,
    ) + words_errors(row[3], "when"@, "Invalid data for 'when' field."@) + words_errors(
        row[4],
        "then"@,
        "Invalid data for 'then' field."@,
    ) + url_errors(row[5], base, ex.url) + method_errors(row[6]) + payload_errors(
        row[8],
        ex.payload,
    )
}

/// `r` is what parsing `row` gives with the expansions `ex`: the record
/// where the row has no error, the errors where it has one.
pub open spec fn parse_outcome(
    r: Result<TestCaseData, ParseErrors>,
    row: Seq<Cell>,
    base: Option<Seq<char>>,
    ex: Expansions,
) -> bool {
    match r {
        Ok(d) => row_errors(row, base, ex).len() == 0 && d@ == row_record(row, base, ex),
        Err(e) => e@.len() > 0 && e@ == row_errors(row, base, ex),
    }
}

/// `data` and `errors` are the record and the errors that parsing `row`
/// gives with the expansions `ex`.
pub open spec fn row_parsed(
    data: TestCaseData,
    errors: ParseErrors,
    row: Seq<Cell>,
    base: Option<Seq<char>>,
    ex: Expansions,
) -> bool {
    data@ == row_record(row, base, ex) && errors@ == row_errors(row, base, ex)
}

/// No text cell of the row holds a `$`.
pub open spec fn row_dollar_free(row: Seq<Cell>) -> bool {
    forall|i: int|
        0 <= i < row.len() ==> match #[trigger] row[i] {
            Cell::Text(s) => crate::keywords::dollar_free(s@),
            _ => true,
        }
}

/// Parsing a row again gives an equal record and equal errors, up to the
/// values that keyword expansion draws: two parses that drew the same
/// expansions agree, and a row without `$` leaves nothing to draw.
pub proof fn lemma_reparse_equal(
    row: Seq<Cell>,
    base: Option<Seq<char>>,
    ex1: Expansions,
    ex2: Expansions,
)
    requires
        row.len() >= 12,
        expansions_of(row, ex1),
        expansions_of(row, ex2),
        row_dollar_free(row),
    ensures
        ex1 == ex2,
        row_record(row, base, ex1) == row_record(row, base, ex2),
        row_errors(row, base, ex1) == row_errors(row, base, ex2),
{
    lemma_expansion_fixed(row[1], ex1.name, ex2.name);
    lemma_expansion_fixed(row[2], ex1.given, ex2.given);
    lemma_expansion_fixed(row[3], ex1.when, ex2.when);
    lemma_expansion_fixed(row[4], ex1.then_clause, ex2.then_clause);
    lemma_expansion_fixed(row[5], ex1.url, ex2.url);
    lemma_expansion_fixed(row[8], ex1.payload, ex2.payload);
    lemma_expansion_fixed(row[11], ex1.post_test, ex2.post_test);
}

proof fn lemma_expansion_fixed(cell: Cell, a: Seq<char>, b: Seq<char>)
    requires
        expands(cell, a),
        expands(cell, b),
        match cell {
            Cell::Text(s) => crate::keywords::dollar_free(s@),
            _ => true,
        },
    ensures
        a == b,
{
    match cell {
        Cell::Text(s) => {
            crate::keywords::lemma_expansion_identity(s@, a);
            crate::keywords::lemma_expansion_identity(s@, b);
        },
        _ => {},
    }
}

fn expand_cell(cell: &Cell) -> (e: String)
    ensures
        expands(*cell, e@),
{
    match cell {
        Cell::Text(s) => substitute_keywords(s.as_str()),
        _ => String::new(),
    }
}

fn finish_words(cell: &Cell, e: String, field: &str, message: &str, errors: &mut ParseErrors) -> (r:
    String)
    ensures
        r@ == words_value(*cell, e@),
        final(errors)@ == old(errors)@ + words_errors(*cell, field@, message@),
{
    let ok = match cell {
        Cell::Text(s) => s.as_str().unicode_len() > 0,
        _ => false,
    };
    if ok {
        assert(errors@ + no_error() =~= errors@);
        e
    } else {
        errors.add_error(field, message);
        assert(errors@ =~= old(errors)@ + one_error(field@, message@));
        String::new()
    }
}

fn finish_url(cell: &Cell, e: String, config: &Config, errors: &mut ParseErrors) -> (r: String)
    ensures
        r@ == url_value(*cell, opt_view(config.base_url), e@),
        final(errors)@ == old(errors)@ + url_errors(*cell, opt_view(config.base_url), e@),
{
    match cell {
        Cell::Text(_) => {
            let ec = chars_of(e.as_str());
            let http = chars_of("http://");
            let https = chars_of("https://");
            let full = if matches_at(&ec, 0, &http) || matches_at(&ec, 0, &https) {
                e
            } else {
                match &config.base_url {
                    Some(b) => {
                        let mut out = chars_of(b.as_str());
                        push_all(&mut out, &ec);
                        string_of(&out)
                    },
                    None => e,
                }
            };
            if url_parses(full.as_str()) {
                assert(errors@ + no_error() =~= errors@);
                full
            } else {
                errors.add_error("url", "Invalid URL format.");
                assert(errors@ =~= old(errors)@ + one_error("url"@, "Invalid URL format."@));
                String::new()
            }
        },
        _ => {
            errors.add_error("url", "No data for 'url' field.");
            assert(errors@ =~= old(errors)@ + one_error("url"@, "No data for 'url' field."@));
            String::new()
        },
    }
}

fn finish_payload(cell: &Cell, e: String, errors: &mut ParseErrors) -> (r: String)
    ensures
        r@ == payload_value(*cell, e@),
        final(errors)@ == old(errors)@ + payload_errors(*cell, e@),
{
    match cell {
        Cell::Text(_) => {
            if e.as_str().unicode_len() == 0 || Json::parse(e.as_str()).is_some() {
                assert(errors@ + no_error() =~= errors@);
                e
            } else {
                errors.add_error("payload", "Invalid JSON payload.");
                assert(errors@ =~= old(errors)@ + one_error("payload"@, "Invalid JSON payload."@));
                String::new()
            }
        },
        _ => {
            assert(errors@ + no_error() =~= errors@);
            String::new()
        },
    }
}

fn read_u64(j: &Json, key: &str, default: u64) -> (r: Option<u64>)
    ensures
        r == member_u64(j@, key@, default),
{
    match j.get(key) {
        None => Some(default),
        Some(Json::Number(n)) => number_as_u64(n.as_str()),
        Some(_) => None,
    }
}

fn read_auth(j: &Json) -> (r: Option<AuthType>)
    ensures
        r == member_auth(j@),
{
    match j.get("authType") {
        None => Some(AuthType::NoAuth),
        Some(Json::Text(s)) => {
            if same_text(s.as_str(), "none") {
                Some(AuthType::NoAuth)
            } else if same_text(s.as_str(), "authorizer") {
                Some(AuthType::Authorizer)
            } else if same_text(s.as_str(), "authorized") {
                Some(AuthType::Authorized)
            } else {
                None
            }
        },
        Some(_) => None,
    }
}

impl TestCaseConfig {
    /// Reads a case configuration from a JSON value. `None` where the value
    /// is no object, or a member has the wrong type or range.
    pub fn from_json(j: &Json) -> (r: Option<TestCaseConfig>)
        ensures
            r == config_of(j@),
    {
        match j {
            Json::Object(_) => {},
            _ => {
                return None;
            },
        }
        let repeat = read_u64(j, "repeatCount", 1);
        let auth = read_auth(j);
        let delay = read_u64(j, "delay", 0);
        match (repeat, auth, delay) {
            (Some(r), Some(a), Some(d)) => {
                if r <= 0xffff_ffff {
                    Some(TestCaseConfig { repeat_count: r as u32, auth_type: a, delay: d })
                } else {
                    None
                }
            },
            _ => None,
        }
    }
}

impl ExcelRowParser {
    /// Parses one row into its record, or into the list of what is wrong
    /// with it. The row must have its twelve cells.
    pub fn parse_test_case_data(row: &[Cell], config: &Config) -> (r: Result<
        TestCaseData,
        ParseErrors,
    >)
        requires
            row@.len() >= 12,
        ensures
            exists|ex: Expansions| #[trigger]
                expansions_of(row@, ex) && parse_outcome(r, row@, opt_view(config.base_url), ex),
    {
        let (data, errors) = Self::parse_row(row, config);
        let ghost ex = choose|ex: Expansions| #[trigger]
            expansions_of(row@, ex) && row_parsed(data, errors, row@, opt_view(config.base_url), ex);
        if errors.has_errors() {
            let r = Err(errors);
            assert(parse_outcome(r, row@, opt_view(config.base_url), ex));
            r
        } else {
            let r = Ok(data);
            assert(parse_outcome(r, row@, opt_view(config.base_url), ex));
            r
        }
    }

    /// Parses one row into its record and the list of what is wrong with
    /// it. The record is made whether or not the row has errors: a field
    /// that is in order is held as read, the pre-script among them, and a
    /// field that is not gets its fallback. The row must have its twelve
    /// cells.
    pub fn parse_row(row: &[Cell], config: &Config) -> (r: (TestCaseData, ParseErrors))
        requires
            row@.len() >= 12,
        ensures
            exists|ex: Expansions| #[trigger]
                expansions_of(row@, ex) && row_parsed(
                    r.0,
                    r.1,
                    row@,
                    opt_view(config.base_url),
                    ex,
                ),
    {
        let mut errors = ParseErrors::new();
        let pre_test = Self::parse_pre_test_script(&row[10]);
        let id = Self::parse_id(&row[0], &mut errors);
        let e_name = expand_cell(&row[1]);
        let ghost g_name = e_name@;
        let name = finish_words(&row[1], e_name, "name", "Invalid name field", &mut errors);
        let e_given = expand_cell(&row[2]);
        let ghost g_given = e_given@;
        let given = finish_words(
            &row[2],
            e_given,
            "given",
            "Invalid data for 'given' field.",
            &mut errors,
        );
        let e_when = expand_cell(&row[3]);
        let ghost g_when = e_when@;
        let when = finish_words(
            &row[3],
            e_when,
            "when",
            "Invalid data for 'when' field.",
            &mut errors,
        );
        let e_then = expand_cell(&row[4]);
        let ghost g_then = e_then@;
        let then = finish_words(
            &row[4],
            e_then,
            "then",
            "Invalid data for 'then' field.",
            &mut errors,
        );
        let e_url = expand_cell(&row[5]);
        let ghost g_url = e_url@;
        let url = finish_url(&row[5], e_url, config, &mut errors);
        let method = Self::parse_method(&row[6], &mut errors);
        let headers = Self::parse_headers(&row[7]);
        let e_payload = expand_cell(&row[8]);
        let ghost g_payload = e_payload@;
        let payload = finish_payload(&row[8], e_payload, &mut errors);
        let test_config = Self::parse_config(&row[9]);
        let e_post = expand_cell(&row[11]);
        let ghost g_post = e_post@;
        let post_test = match &row[11] {
            Cell::Text(_) => Some(e_post),
            _ => None,
        };
        let ghost ex = Expansions {
            name: g_name,
            given: g_given,
            when: g_when,
            then_clause: g_then,
            url: g_url,
            payload: g_payload,
            post_test: g_post,
        };
        proof {
            assert(expansions_of(row@, ex));
            assert(errors@ =~= row_errors(row@, opt_view(config.base_url), ex));
        }
        let data = TestCaseData {
            id,
            name,
            given,
            when,
            then_clause: then,
            url,
            method,
            headers,
            payload,
            config: test_config,
            scripts: TestScripts { pre_test, post_test },
        };
        assert(row_parsed(data, errors, row@, opt_view(config.base_url), ex));
        (data, errors)
    }

    /// The case identifier: the number the cell holds.
    pub fn parse_id(cell: &Cell, errors: &mut ParseErrors) -> (r: u32)
        ensures
            r == id_value(*cell),
            final(errors)@ == old(errors)@ + id_errors(*cell),
    {
        match cell {
            Cell::Number(n) => {
                assert(errors@ + no_error() =~= errors@);
                *n
            },
            _ => {
                errors.add_error("id", "ID is not a number.");
                assert(errors@ =~= old(errors)@ + one_error("id"@, "ID is not a number."@));
                0
            },
        }
    }

    /// The case name, keyword-expanded.
    pub fn parse_name(cell: &Cell, errors: &mut ParseErrors) -> (r: String)
        ensures
            exists|e: Seq<char>| #[trigger] expands(*cell, e) && r@ == words_value(*cell, e),
            final(errors)@ == old(errors)@ + words_errors(*cell, "name"@, "Invalid name field"@),
    {
        let e = expand_cell(cell);
        finish_words(cell, e, "name", "Invalid name field", errors)
    }

    /// The `given` condition, keyword-expanded.
    pub fn parse_given(cell: &Cell, errors: &mut ParseErrors) -> (r: String)
        ensures
            exists|e: Seq<char>| #[trigger] expands(*cell, e) && r@ == words_value(*cell, e),
            final(errors)@ == old(errors)@ + words_errors(
                *cell,
                "given"@,
                "Invalid data for 'given' field."@,
            ),
    {
        let e = expand_cell(cell);
        finish_words(cell, e, "given", "Invalid data for 'given' field.", errors)
    }

    /// The `when` condition, keyword-expanded.
    pub fn parse_when(cell: &Cell, errors: &mut ParseErrors) -> (r: String)
        ensures
            exists|e: Seq<char>| #[trigger] expands(*cell, e) && r@ == words_value(*cell, e),
            final(errors)@ == old(errors)@ + words_errors(
                *cell,
                "when"@,
                "Invalid data for 'when' field."@,
            ),
    {
        let e = expand_cell(cell);
        finish_words(cell, e, "when", "Invalid data for 'when' field.", errors)
    }

    /// The `then` condition, keyword-expanded.
    pub fn parse_then(cell: &Cell, errors: &mut ParseErrors) -> (r: String)
        ensures
            exists|e: Seq<char>| #[trigger] expands(*cell, e) && r@ == words_value(*cell, e),
            final(errors)@ == old(errors)@ + words_errors(
                *cell,
                "then"@,
                "Invalid data for 'then' field."@,
            ),
    {
        let e = expand_cell(cell);
        finish_words(cell, e, "then", "Invalid data for 'then' field.", errors)
    }

    /// The request URL: the keyword-expanded cell text, behind the base URL
    /// unless it is absolute, and accepted only if it parses as a URL.
    pub fn parse_url(cell: &Cell, config: &Config, errors: &mut ParseErrors) -> (r: String)
        ensures
            exists|e: Seq<char>| #[trigger]
                expands(*cell, e) && r@ == url_value(*cell, opt_view(config.base_url), e)
                    && final(errors)@ == old(errors)@ + url_errors(
                    *cell,
                    opt_view(config.base_url),
                    e,
                ),
    {
        let e = expand_cell(cell);
        finish_url(cell, e, config, errors)
    }

    /// The HTTP method as written; `GET` with an error where the cell holds
    /// none that is valid.
    pub fn parse_method(cell: &Cell, errors: &mut ParseErrors) -> (r: String)
        ensures
            r@ == method_value(*cell),
            final(errors)@ == old(errors)@ + method_errors(*cell),
    {
        match cell {
            Cell::Text(s) => {
                if method_parses(s.as_str()) {
                    assert(errors@ + no_error() =~= errors@);
                    s.clone()
                } else {
                    errors.add_error("method", "Invalid HTTP method.");
                    assert(errors@ =~= old(errors)@ + one_error(
                        "method"@,
                        "Invalid HTTP method."@,
                    ));
                    "GET".to_owned()
                }
            },
            _ => {
                errors.add_error("method", "No data for 'method' field.");
                assert(errors@ =~= old(errors)@ + one_error(
                    "method"@,
                    "No data for 'method' field."@,
                ));
                "GET".to_owned()
            },
        }
    }

    /// The request headers, written as `name:value,name:value`. A piece
    /// that is not one name and one value is dropped.
    pub fn parse_headers(cell: &Cell) -> (r: Vec<(String, String)>)
        ensures
            pairs_view(r@) == headers_value(*cell),
    {
        let mut r: Vec<(String, String)> = Vec::new();
        match cell {
            Cell::Text(s) => {
                let text = chars_of(s.as_str());
                let pieces = split_chars(&text, ',');
                let mut i: usize = 0;
                assert(pairs_view(r@) =~= headers_upto(split(s@, ','), 0));
                while i < pieces.len()
                    invariant
                        i <= pieces.len(),
                        pieces_view(pieces@) == split(s@, ','),
                        pairs_view(r@) == headers_upto(split(s@, ','), i as int),
                    decreases pieces.len() - i,
                {
                    let parts = split_chars(&pieces[i], ':');
                    assert(pieces_view(pieces@)[i as int] == pieces@[i as int]@);
                    let ghost before = pairs_view(r@);
                    if parts.len() == 2 {
                        assert(pieces_view(parts@)[0] == parts@[0]@);
                        assert(pieces_view(parts@)[1] == parts@[1]@);
                        let name = trim_range(&parts[0], 0, parts[0].len());
                        let value = trim_range(&parts[1], 0, parts[1].len());
                        r.push((string_of(&name), string_of(&value)));
                        assert(pairs_view(r@) =~= before + seq![(name@, value@)]);
                    } else {
                        assert(pairs_view(r@) =~= before + Seq::empty());
                    }
                    i += 1;
                }
            },
            _ => {
                assert(pairs_view(r@) =~= Seq::empty());
            },
        }
        r
    }

    /// The request payload, keyword-expanded; where it is not empty it must
    /// be well-formed JSON.
    pub fn parse_payload(cell: &Cell, errors: &mut ParseErrors) -> (r: String)
        ensures
            exists|e: Seq<char>| #[trigger]
                expands(*cell, e) && r@ == payload_value(*cell, e) && final(errors)@ == old(
                    errors,
                )@ + payload_errors(*cell, e),
    {
        let e = expand_cell(cell);
        finish_payload(cell, e, errors)
    }

    /// The case configuration; the default where the cell holds none that
    /// can be read.
    pub fn parse_config(cell: &Cell) -> (r: TestCaseConfig)
        ensures
            r == config_value(*cell),
    {
        match cell {
            Cell::Text(s) => match Json::parse(s.as_str()) {
                Some(j) => match TestCaseConfig::from_json(&j) {
                    Some(c) => c,
                    None => TestCaseConfig::default(),
                },
                None => TestCaseConfig::default(),
            },
            _ => TestCaseConfig::default(),
        }
    }

    /// The pre-script, as written.
    pub fn parse_pre_test_script(cell: &Cell) -> (r: Option<String>)
        ensures
            opt_view(r) == pre_script_value(*cell),
    {
        match cell {
            Cell::Text(s) => Some(s.clone()),
            _ => None,
        }
    }

    /// The post-script, keyword-expanded.
    pub fn parse_post_test_script(cell: &Cell) -> (r: Option<String>)
        ensures
            exists|e: Seq<char>| #[trigger]
                expands(*cell, e) && opt_view(r) == post_script_value(*cell, e),
    {
        let e = expand_cell(cell);
        match cell {
            Cell::Text(_) => Some(e),
            _ => None,
        }
    }
}

} // verus!
