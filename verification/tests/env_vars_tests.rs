use warp_usage::env_vars::{env_placeholder_names, missing_env_var_message, substitute_env_vars_from};

fn env(pairs: &[(&str, &str)]) -> Vec<(String, String)> {
    pairs.iter().map(|(k, v)| (k.to_string(), v.to_string())).collect()
}

#[test]
fn test_substitute_env_vars_success() {
    let env = env(&[("FOO", "bar"), ("BAZ", "qux"), ("REPEATED", "value")]);

    // Single variable substitution
    let input = r#"{"key": "${FOO}"}"#;
    let result = substitute_env_vars_from(input, &env).expect("Single variable substitution should succeed");
    assert_eq!(
        result, r#"{"key": "bar"}"#,
        "Single variable FOO should be replaced with 'bar'"
    );

    // Multiple different variables
    let input = r#"{"key": "${FOO}", "other": "${BAZ}"}"#;
    let result = substitute_env_vars_from(input, &env).expect("Multiple variable substitution should succeed");
    assert_eq!(
        result, r#"{"key": "bar", "other": "qux"}"#,
        "Multiple variables FOO and BAZ should be replaced"
    );

    // Multiple occurrences of same variable
    let input = r#"{"a": "${REPEATED}", "b": "${REPEATED}", "c": "prefix_${REPEATED}_suffix"}"#;
    let result = substitute_env_vars_from(input, &env).expect("Repeated variable substitution should succeed");
    assert_eq!(
        result, r#"{"a": "value", "b": "value", "c": "prefix_value_suffix"}"#,
        "All occurrences of REPEATED should be replaced with 'value', including within context"
    );
}

#[test]
fn test_substitute_env_vars_missing_or_empty() {
    let env = env(&[("EMPTY_VAR", "")]);

    let input = r#"{"key": "${MISSING_VAR}"}"#;
    let err_msg = missing_env_var_message(&substitute_env_vars_from(input, &env).unwrap_err());
    assert!(
        err_msg.contains("Missing or empty environment variable: MISSING_VAR"),
        "Error message should mention MISSING_VAR, got: {err_msg}"
    );

    let input = r#"{"key": "${EMPTY_VAR}"}"#;
    let err_msg = missing_env_var_message(&substitute_env_vars_from(input, &env).unwrap_err());
    assert!(
        err_msg.contains("Missing or empty environment variable: EMPTY_VAR"),
        "Error message should mention EMPTY_VAR, got: {err_msg}"
    );
}

#[test]
fn substitution_reports_the_first_unset_placeholder() {
    let env = env(&[("B", "bee")]);
    assert_eq!(
        substitute_env_vars_from("${B}-${A}-${C}", &env),
        Err("A".to_string())
    );
}

#[test]
fn text_without_placeholders_is_unchanged() {
    let env = env(&[]);
    for text in ["", "plain", "$HOME and {braces}", "${unclosed", "$ {x}"] {
        assert_eq!(substitute_env_vars_from(text, &env), Ok(text.to_string()));
        assert!(env_placeholder_names(text).is_empty());
    }
}

#[test]
fn placeholder_names_are_listed_left_to_right() {
    assert_eq!(
        env_placeholder_names("a${X}b${Y}${X}c${unclosed"),
        vec!["X".to_string(), "Y".to_string(), "X".to_string()]
    );
    // An empty name is a placeholder too, and no variable is named so.
    assert_eq!(env_placeholder_names("${}"), vec![String::new()]);
    assert_eq!(substitute_env_vars_from("${}", &env(&[])), Err(String::new()));
}

#[test]
fn the_first_entry_of_a_variable_counts() {
    let env = env(&[("V", "one"), ("V", "two")]);
    assert_eq!(substitute_env_vars_from("${V}", &env), Ok("one".to_string()));
}
