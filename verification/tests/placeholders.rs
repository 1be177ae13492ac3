use satyanaash::context::ScriptOutcome;
use satyanaash::json::Json;
use satyanaash::keywords::substitute_keywords;
use satyanaash::placeholders::{PlaceholderKind, PlaceholderResolver};

#[test]
fn test_env_var_not_found() {
    let resolver = PlaceholderResolver;
    let input = "Hello {{env:NON_EXISTENT_VAR}}";
    let found = resolver.find_placeholders(input);
    assert_eq!(found.len(), 1);
    assert_eq!(found[0].kind, PlaceholderKind::Env);
    assert_eq!(found[0].name, "NON_EXISTENT_VAR");
    let output = resolver.substitute_placeholders(input, &vec![None]);
    assert_eq!(output, "Hello {{env:NON_EXISTENT_VAR}}");
}

#[test]
fn test_js_context_variable() {
    let resolver = PlaceholderResolver;
    let input = "Hello {{testVar}}";
    let found = resolver.find_placeholders(input);
    assert_eq!(found.len(), 1);
    assert_eq!(found[0].kind, PlaceholderKind::Global);
    assert_eq!(resolver.global_lookup(&found[0].name), "SAT.globals.testVar");
    let output = resolver.substitute_placeholders(input, &vec![Some("js_value".to_string())]);
    assert_eq!(output, "Hello js_value");
}

#[test]
fn test_js_context_variable_not_found() {
    let resolver = PlaceholderResolver;
    let input = "Hello {{nonExistentVar}}";
    let output = resolver.substitute_placeholders(input, &vec![None]);
    assert_eq!(output, "Hello {{nonExistentVar}}");
}

#[test]
fn test_keyword_substitution_before_placeholder() {
    let resolver = PlaceholderResolver;
    let input = "Name: $RandomName, Env: {{env:TEST_ENV}}";
    let expanded = substitute_keywords(input);
    let found = resolver.find_placeholders(&expanded);
    assert_eq!(found.len(), 1);
    assert_eq!(found[0].name, "TEST_ENV");
    let output =
        resolver.substitute_placeholders(&expanded, &vec![Some("environment".to_string())]);
    assert!(!output.contains("$RandomName"));
    assert!(!output.contains("{{env:TEST_ENV}}"));
    assert!(output.contains("environment"));
}

#[test]
fn placeholder_precedence() {
    let resolver = PlaceholderResolver;
    let expanded = substitute_keywords("Hello $RandomName {{env:TIER}} {{name}}");
    let found = resolver.find_placeholders(&expanded);
    assert_eq!(found.len(), 2);
    assert_eq!((found[0].kind, found[0].name.as_str()), (PlaceholderKind::Env, "TIER"));
    assert_eq!((found[1].kind, found[1].name.as_str()), (PlaceholderKind::Global, "name"));
    let output = resolver
        .substitute_placeholders(&expanded, &vec![Some("prod".to_string()), Some("x".to_string())]);
    assert!(output.starts_with("Hello "));
    assert!(output.ends_with(" prod x"));
    assert!(!output.contains('$'));
    assert!(!output.contains('{'));
    assert!(output.len() > "Hello  prod x".len());
}

#[test]
fn text_without_placeholders_is_unchanged() {
    let resolver = PlaceholderResolver;
    for input in ["", "plain", "{ {x} }", "{{open", "close}}", "{{a\nb}}", "{x}}"] {
        assert_eq!(resolver.find_placeholders(input).len(), 0);
        assert_eq!(
            resolver.substitute_placeholders(input, &vec![Some("never".to_string())]),
            input
        );
    }
}

#[test]
fn placeholders_are_classified_and_trimmed() {
    let resolver = PlaceholderResolver;
    let found =
        resolver.find_placeholders("{{ env: HOME }}{{input:who}}{{ a.b }}{{env:env:X}}{{}}");
    let seen: Vec<(PlaceholderKind, String, String)> =
        found.iter().map(|p| (p.kind, p.name.clone(), p.raw.clone())).collect();
    assert_eq!(
        seen,
        vec![
            (PlaceholderKind::Env, "HOME".to_string(), "{{ env: HOME }}".to_string()),
            (PlaceholderKind::Input, "who".to_string(), "{{input:who}}".to_string()),
            (PlaceholderKind::Global, "a.b".to_string(), "{{ a.b }}".to_string()),
            (PlaceholderKind::Env, "X".to_string(), "{{env:env:X}}".to_string()),
            (PlaceholderKind::Global, "".to_string(), "{{}}".to_string()),
        ]
    );
}

#[test]
fn values_go_in_left_to_right_in_one_pass() {
    let resolver = PlaceholderResolver;
    let output = resolver.substitute_placeholders(
        "a={{x}};b={{y}};c={{z}};d={{w}}",
        &vec![Some("{{y}}".to_string()), None, Some("".to_string())],
    );
    assert_eq!(output, "a={{y}};b={{y}};c=;d={{w}}");
}

#[test]
fn a_placeholder_closes_at_the_first_closing_braces() {
    let resolver = PlaceholderResolver;
    let found = resolver.find_placeholders("{{a}}}} {{{b}} {{c}d}}");
    let raws: Vec<String> = found.iter().map(|p| p.raw.clone()).collect();
    assert_eq!(raws, vec!["{{a}}".to_string(), "{{{b}}".to_string(), "{{c}d}}".to_string()]);
    assert_eq!(found[1].name, "{b");
}

#[test]
fn placeholders_test_env_vars() {
    let resolver = PlaceholderResolver;
    let input = "Hello {{env:TEST_VAR}}";
    let found = resolver.find_placeholders(input);
    assert_eq!((found[0].kind, found[0].name.as_str()), (PlaceholderKind::Env, "TEST_VAR"));
    let output = resolver.substitute_placeholders(input, &vec![Some("test_value".to_string())]);
    assert_eq!(output, "Hello test_value");
}

#[test]
fn mod_test_env_vars() {
    let resolver = PlaceholderResolver;
    let input = substitute_keywords("Hello {{env:TEST_VAR}}");
    let output = resolver.substitute_placeholders(&input, &vec![Some("test_value".to_string())]);
    assert_eq!(output, "Hello test_value");
}

#[test]
fn test_case_test_env_vars() {
    let resolver = PlaceholderResolver;
    let input = "Hello {{env:TEST_VAR}}";
    let values: Vec<Option<String>> = resolver
        .find_placeholders(input)
        .iter()
        .map(|p| if p.name == "TEST_VAR" { Some("test_value".to_string()) } else { None })
        .collect();
    assert_eq!(resolver.substitute_placeholders(input, &values), "Hello test_value");
}

#[test]
fn only_a_string_value_replaces_the_placeholder_of_a_global() {
    let resolver = PlaceholderResolver;
    let read = ScriptOutcome::Value(Json::Text("js_value".to_string()));
    assert_eq!(resolver.global_value(&read), Some("js_value".to_string()));
    assert_eq!(resolver.global_value(&ScriptOutcome::Value(Json::Text(String::new()))), Some(String::new()));
    assert_eq!(resolver.global_value(&ScriptOutcome::Value(Json::Number("5".to_string()))), None);
    assert_eq!(resolver.global_value(&ScriptOutcome::Value(Json::Bool(true))), None);
    assert_eq!(resolver.global_value(&ScriptOutcome::Value(Json::Null)), None);
    assert_eq!(resolver.global_value(&ScriptOutcome::Failed), None);
    assert_eq!(resolver.global_value(&ScriptOutcome::NoScript), None);
}

#[test]
fn white_space_is_what_the_unicode_property_says() {
    let listed = |c: char| {
        ('\u{9}'..='\u{d}').contains(&c)
            || c == ' '
            || c == '\u{85}'
            || c == '\u{a0}'
            || c == '\u{1680}'
            || ('\u{2000}'..='\u{200a}').contains(&c)
            || c == '\u{2028}'
            || c == '\u{2029}'
            || c == '\u{202f}'
            || c == '\u{205f}'
            || c == '\u{3000}'
    };
    for code in 0u32..=0x10ffff {
        if let Some(c) = char::from_u32(code) {
            assert_eq!(c.is_whitespace(), listed(c), "U+{:04X}", code);
        }
    }
    let resolver = PlaceholderResolver;
    for c in ['\t', '\u{b}', '\u{a0}', '\u{2003}', '\u{3000}'] {
        let found = resolver.find_placeholders(&format!("{{{{{}x{}}}}}", c, c));
        assert_eq!(found[0].name, "x");
    }
    let found = resolver.find_placeholders("{{\u{200b}x}}");
    assert_eq!(found[0].name, "\u{200b}x");
}
