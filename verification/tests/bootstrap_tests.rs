use warp_usage::bootstrap::{decode_script, include_targets, script_for_shell, BundledAssets, ShellType};
use warp_usage::bootstrap_snippets::{
    bash_supports_bind_dash_capital_x, extract_snippet, fish_ctrl_r_widget_test_script,
    fish_ctrl_t_widget_result_fn, fish_history_wrapper_installer,
};

/// Bundled assets for the bootstrap tests: a script per shell and the assets
/// they include.
fn test_assets() -> BundledAssets {
    let mut assets = BundledAssets::new();
    assets.insert("bundled/bootstrap/bash.sh", "#include hello_world");
    assets.insert("bundled/bootstrap/fish.sh", "# this is a comment\nthis_is_a_command");
    assets.insert(
        "bundled/bootstrap/zsh.sh",
        "asdf\n#include whitespace\n    prepended whitespace\n\n\n",
    );
    assets.insert(
        "bundled/bootstrap/pwsh.ps1",
        r#"# This is a comment
                Write-Output 'Testing some output'
                function test1 {
                    [Diagnostics.CodeAnalysis.SuppressMessageAttribute('PSAvoidUsingInvokeExpression', '', Justification = 'We actually need it')]
                    param([string]$command)
                    Invoke-Expression $command
                }"#,
    );
    assets.insert("hello_world", "hello world!");
    assets.insert("whitespace", "no whitespace\n\n\n yes whitespace!");
    assets
}

#[test]
fn bootstrap_tests_test_include_directive() {
    assert_eq!(
        decode_script(&script_for_shell(ShellType::Bash, &test_assets())),
        "hello world!\n"
    );
}

#[test]
fn bootstrap_tests_test_trims_comments() {
    assert_eq!(
        decode_script(&script_for_shell(ShellType::Fish, &test_assets())),
        "this_is_a_command\n"
    );
}

#[test]
fn bootstrap_tests_test_trims_whitespace() {
    assert_eq!(
        decode_script(&script_for_shell(ShellType::Zsh, &test_assets())),
        "asdf\nno whitespace\n yes whitespace!\n prepended whitespace\n"
    );
}

#[test]
fn bootstrap_tests_test_trims_powershell_specifics() {
    assert_eq!(
        decode_script(&script_for_shell(ShellType::PowerShell, &test_assets())),
        " Write-Output 'Testing some output'\n function test1 {\n param([string]$command)\n Invoke-Expression $command\n }\n"
    );
}

#[test]
fn bootstrap_is_empty_without_a_bundled_script() {
    assert!(script_for_shell(ShellType::Bash, &BundledAssets::new()).is_empty());
}

#[test]
fn missing_include_and_nested_include_produce_nothing() {
    let mut assets = BundledAssets::new();
    assets.insert("bundled/bootstrap/bash.sh", "a\n#include missing\n  #include inner\nb");
    assets.insert("inner", "x\n#include deeper\ny");
    assets.insert("deeper", "never");
    assert_eq!(
        decode_script(&script_for_shell(ShellType::Bash, &assets)),
        "a\nx\ny\nb\n"
    );
}

#[test]
fn suppression_attribute_is_kept_outside_powershell() {
    let mut assets = BundledAssets::new();
    assets.insert(
        "bundled/bootstrap/zsh.sh",
        "\t[Diagnostics.CodeAnalysis.SuppressMessageAttribute('x')]   \r",
    );
    assert_eq!(
        decode_script(&script_for_shell(ShellType::Zsh, &assets)),
        " [Diagnostics.CodeAnalysis.SuppressMessageAttribute('x')]\n"
    );
}

#[test]
fn include_targets_lists_included_assets_in_order() {
    assert_eq!(
        include_targets("asdf\n#include whitespace\n  #include  other  \n# include no\n"),
        vec!["whitespace".to_string(), "other".to_string()]
    );
}

const FISH_SAMPLE: &str = "set -g x 1\nfunction warp_ctrl_t_widget_result\n  test \"$argv[1]\" = \"$argv[2]\"; and return\n  echo $argv[2]\nend\nif functions -q fish_should_add_to_history\n  and not functions fish_should_add_to_history\n  functions -c a b\nend\nfunction fish_should_add_to_history\n  warp_original_fish_should_add_to_history $argv\nend\n";

#[test]
fn snippets_run_from_start_marker_through_end_marker() {
    assert_eq!(
        fish_ctrl_t_widget_result_fn(FISH_SAMPLE),
        "function warp_ctrl_t_widget_result\n  test \"$argv[1]\" = \"$argv[2]\"; and return\n  echo $argv[2]\nend\n"
    );
    let installer = fish_history_wrapper_installer(FISH_SAMPLE);
    assert!(installer.starts_with("if functions -q fish_should_add_to_history"));
    assert!(installer.ends_with("  warp_original_fish_should_add_to_history $argv\nend"));
}

#[test]
fn extract_snippet_matches_find_and_slice() {
    for (text, start, end) in [
        ("abcXYdefZZghZZ", "XY", "ZZ"),
        ("no markers", "XY", "ZZ"),
        ("XY but no end", "XY", "ZZ"),
        ("ZZ before XY", "XY", "ZZ"),
        ("XYZZ", "XY", "ZZ"),
    ] {
        let expected = text.find(start).and_then(|s| {
            text[s..].find(end).map(|e| text[s..s + e + end.len()].to_string())
        });
        assert_eq!(extract_snippet(text, start, end), expected, "{text}");
    }
}

#[test]
fn ctrl_r_test_script_wraps_body_and_runner() {
    let script = fish_ctrl_r_widget_test_script("RUNNER", "BODY");
    assert!(script.starts_with("\nfunction warp_escape_json\n  string join \\n $argv\nend\n"));
    assert!(script.contains("function fzf-history-widget\n  BODY\nend\n"));
    assert!(script.ends_with("RUNNER\nwarp_run_external_ctrl_r_widget test-token\n"));
}

#[test]
fn bind_dash_capital_x_needs_bash_4_3() {
    assert_eq!(bash_supports_bind_dash_capital_x(None), None);
    assert_eq!(bash_supports_bind_dash_capital_x(Some((3, 2))), Some(false));
    assert_eq!(bash_supports_bind_dash_capital_x(Some((4, 2))), Some(false));
    assert_eq!(bash_supports_bind_dash_capital_x(Some((4, 3))), Some(true));
    assert_eq!(bash_supports_bind_dash_capital_x(Some((5, 0))), Some(true));
}
