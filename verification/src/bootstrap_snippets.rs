//! Locating the shell functions and snippets of the bundled bootstrap scripts
//! (so they can be exercised on their own), and assembling the fish scripts
//! that drive them.

use vstd::prelude::*;
use crate::text::{chars_of, string_of_chars, push_str};

verus! {

/// `pattern` occurs in `text` at position `i`.
pub open spec fn occurs_at(text: Seq<char>, pattern: Seq<char>, i: int) -> bool {
    0 <= i && i + pattern.len() <= text.len() && text.subrange(i, i + pattern.len()) == pattern
}

/// The first position at or after `i` where `pattern` occurs in `text`.
pub open spec fn first_occurrence_from(text: Seq<char>, pattern: Seq<char>, i: int) -> Option<int>
    decreases text.len() + 1 - i,
{
    if i < 0 || i + pattern.len() > text.len() {
        None
    } else if occurs_at(text, pattern, i) {
        Some(i)
    } else {
        first_occurrence_from(text, pattern, i + 1)
    }
}

/// The text from the first occurrence of `start` through the end of the first
/// occurrence of `end` after it, if both occur.
pub open spec fn snippet(text: Seq<char>, start: Seq<char>, end: Seq<char>) -> Option<Seq<char>> {
    match first_occurrence_from(text, start, 0) {
        Some(i) => match first_occurrence_from(text.skip(i), end, 0) {
            Some(j) => Some(text.subrange(i, i + j + end.len())),
            None => None,
        },
        None => None,
    }
}

fn occurs_at_exec(text: &Vec<char>, pattern: &Vec<char>, i: usize) -> (b: bool)
    requires
        i + pattern.len() <= text.len(),
    ensures
        b == occurs_at(text@, pattern@, i as int),
{
    let mut k: usize = 0;
    while k < pattern.len()
        invariant
            i + pattern.len() <= text.len(),
            k <= pattern.len(),
            forall|m: int| 0 <= m < k ==> text@[i + m] == pattern@[m],
        decreases pattern.len() - k,
    {
        if text[i + k] != pattern[k] {
            assert(text@.subrange(i as int, i + pattern.len())[k as int] != pattern@[k as int]);
            return false;
        }
        k = k + 1;
    }
    assert(text@.subrange(i as int, i + pattern.len()) =~= pattern@);
    true
}

/// The first position at or after `from` where `pattern` occurs in `text`.
fn find_from(text: &Vec<char>, pattern: &Vec<char>, from: usize) -> (r: Option<usize>)
    ensures
        match r {
            Some(i) => first_occurrence_from(text@, pattern@, from as int) == Some(i as int),
            None => first_occurrence_from(text@, pattern@, from as int) is None,
        },
        r matches Some(i) ==> i + pattern.len() <= text.len(),
{
    let mut i = from;
    while i <= text.len() && pattern.len() <= text.len() - i
        invariant
            from <= i,
            first_occurrence_from(text@, pattern@, from as int) == first_occurrence_from(text@, pattern@, i as int),
        decreases text.len() + 1 - i,
    {
        if occurs_at_exec(text, pattern, i) {
            return Some(i);
        }
        if i == text.len() {
            assert(pattern@.len() == 0);
            assert(text@.subrange(i as int, i as int) =~= pattern@);
            assert(false);
            return None;
        }
        i = i + 1;
    }
    None
}

/// The text from the first occurrence of `start` through the end of the first
/// occurrence of `end` after it (see [`snippet`]).
pub fn extract_snippet(text: &str, start: &str, end: &str) -> (s: Option<String>)
    ensures
        match s {
            Some(s) => snippet(text@, start@, end@) == Some(s@),
            None => snippet(text@, start@, end@) is None,
        },
{
    let t = chars_of(text);
    let p = chars_of(start);
    let q = chars_of(end);
    match find_from(&t, &p, 0) {
        None => None,
        Some(i) => {
            let mut rest: Vec<char> = Vec::new();
            let mut k: usize = i;
            while k < t.len()
                invariant
                    i <= k <= t.len(),
                    rest@ == t@.subrange(i as int, k as int),
                decreases t.len() - k,
            {
                rest.push(t[k]);
                k = k + 1;
                assert(rest@ =~= t@.subrange(i as int, k as int));
            }
            assert(rest@ =~= t@.skip(i as int));
            match find_from(&rest, &q, 0) {
                None => None,
                Some(j) => {
                    let stop = i + j + q.len();
                    let mut out: Vec<char> = Vec::new();
                    let mut m: usize = i;
                    while m < stop
                        invariant
                            i <= m <= stop,
                            stop <= t.len(),
                            out@ == t@.subrange(i as int, m as int),
                        decreases stop - m,
                    {
                        out.push(t[m]);
                        m = m + 1;
                        assert(out@ =~= t@.subrange(i as int, m as int));
                    }
                    Some(string_of_chars(&out))
                },
            }
        },
    }
}

/// The snippet of `text` between the markers, which must be present.
fn required_snippet(text: &str, start: &str, end: &str) -> (s: String)
    requires
        snippet(text@, start@, end@) is Some,
    ensures
        snippet(text@, start@, end@) == Some(s@),
{
    match extract_snippet(text, start, end) {
        Some(s) => s,
        None => {
            assert(false);
            String::new()
        },
    }
}

/// Start of fish's `fish_should_add_to_history` wrapper installer.
pub open spec fn history_wrapper_start() -> Seq<char> {
    "if functions -q fish_should_add_to_history\n  and not functions fish_should_add_to_history"@
}

/// End of fish's `fish_should_add_to_history` wrapper installer.
pub open spec fn history_wrapper_end() -> Seq<char> {
    "  warp_original_fish_should_add_to_history $argv\nend"@
}

/// The end of a fish function definition.
pub open spec fn fish_function_end() -> Seq<char> {
    "\nend\n"@
}

/// The installer of fish's `fish_should_add_to_history` wrapper in the fish
/// bootstrap script.
pub fn fish_history_wrapper_installer(fish_sh: &str) -> (s: String)
    requires
        snippet(fish_sh@, history_wrapper_start(), history_wrapper_end()) is Some,
    ensures
        snippet(fish_sh@, history_wrapper_start(), history_wrapper_end()) == Some(s@),
{
    required_snippet(
        fish_sh,
        "if functions -q fish_should_add_to_history\n  and not functions fish_should_add_to_history",
        "  warp_original_fish_should_add_to_history $argv\nend",
    )
}

/// Start of bash's ctrl-t widget detection.
pub open spec fn bash_ctrl_t_detection_start() -> Seq<char> {
    "      _WARP_EXTERNAL_CTRL_T_WIDGET=\"\"\n      warp_ctrl_t_binding="@
}

/// End of bash's ctrl-t widget detection.
pub open spec fn bash_ctrl_t_detection_end() -> Seq<char> {
    "          fi\n          ;;\n      esac"@
}

/// The ctrl-t widget detection of the bash bootstrap script body.
pub fn bash_ctrl_t_detection_snippet(bash_sh: &str) -> (s: String)
    requires
        snippet(bash_sh@, bash_ctrl_t_detection_start(), bash_ctrl_t_detection_end()) is Some,
    ensures
        snippet(bash_sh@, bash_ctrl_t_detection_start(), bash_ctrl_t_detection_end()) == Some(s@),
{
    required_snippet(
        bash_sh,
        "      _WARP_EXTERNAL_CTRL_T_WIDGET=\"\"\n      warp_ctrl_t_binding=",
        "          fi\n          ;;\n      esac",
    )
}

/// The definition of fish's `warp_run_external_ctrl_r_widget`.
pub fn fish_ctrl_r_widget_runner_fn(fish_sh: &str) -> (s: String)
    requires
        snippet(fish_sh@, "function warp_run_external_ctrl_r_widget\n"@, fish_function_end()) is Some,
    ensures
        snippet(fish_sh@, "function warp_run_external_ctrl_r_widget\n"@, fish_function_end()) == Some(s@),
{
    required_snippet(fish_sh, "function warp_run_external_ctrl_r_widget\n", "\nend\n")
}

/// The definition of fish's `warp_escape_json`.
pub fn fish_warp_escape_json_fn(fish_sh: &str) -> (s: String)
    requires
        snippet(fish_sh@, "function warp_escape_json\n"@, fish_function_end()) is Some,
    ensures
        snippet(fish_sh@, "function warp_escape_json\n"@, fish_function_end()) == Some(s@),
{
    required_snippet(fish_sh, "function warp_escape_json\n", "\nend\n")
}

/// Start of fish's `warp_external_ctrl_t_widget` query function.
pub open spec fn ctrl_t_query_start() -> Seq<char> {
    "function warp_external_ctrl_t_widget\n  set -l widget \"\"\n  for binding in (bind \\ct 2>/dev/null)"@
}

/// End of fish's `warp_external_ctrl_t_widget` query function.
pub open spec fn ctrl_t_query_end() -> Seq<char> {
    "  test -n \"$widget\"; or return 1\n  echo \"$widget\"\nend"@
}

/// The definition of fish's `warp_external_ctrl_t_widget`.
pub fn fish_ctrl_t_widget_query_fn(fish_sh: &str) -> (s: String)
    requires
        snippet(fish_sh@, ctrl_t_query_start(), ctrl_t_query_end()) is Some,
    ensures
        snippet(fish_sh@, ctrl_t_query_start(), ctrl_t_query_end()) == Some(s@),
{
    required_snippet(
        fish_sh,
        "function warp_external_ctrl_t_widget\n  set -l widget \"\"\n  for binding in (bind \\ct 2>/dev/null)",
        "  test -n \"$widget\"; or return 1\n  echo \"$widget\"\nend",
    )
}

/// Start of fish's ctrl-t widget detection.
pub open spec fn fish_ctrl_t_detection_start() -> Seq<char> {
    "set -g _WARP_EXTERNAL_CTRL_T_WIDGET \"\"\n  set -l warp_ctrl_t_widget (warp_external_ctrl_t_widget)\n  switch \"$warp_ctrl_t_widget\""@
}

/// End of fish's ctrl-t widget detection.
pub open spec fn fish_ctrl_t_detection_end() -> Seq<char> {
    "        set -a shell_plugins external_ctrl_t_file\n      end\n  end"@
}

/// The ctrl-t widget detection of the fish bootstrap script.
pub fn fish_ctrl_t_detection_snippet(fish_sh: &str) -> (s: String)
    requires
        snippet(fish_sh@, fish_ctrl_t_detection_start(), fish_ctrl_t_detection_end()) is Some,
    ensures
        snippet(fish_sh@, fish_ctrl_t_detection_start(), fish_ctrl_t_detection_end()) == Some(s@),
{
    required_snippet(
        fish_sh,
        "set -g _WARP_EXTERNAL_CTRL_T_WIDGET \"\"\n  set -l warp_ctrl_t_widget (warp_external_ctrl_t_widget)\n  switch \"$warp_ctrl_t_widget\"",
        "        set -a shell_plugins external_ctrl_t_file\n      end\n  end",
    )
}

/// The definition of fish's `warp_ctrl_t_widget_result`.
pub fn fish_ctrl_t_widget_result_fn(fish_sh: &str) -> (s: String)
    requires
        snippet(fish_sh@, "function warp_ctrl_t_widget_result\n"@, fish_function_end()) is Some,
    ensures
        snippet(fish_sh@, "function warp_ctrl_t_widget_result\n"@, fish_function_end()) == Some(s@),
{
    required_snippet(fish_sh, "function warp_ctrl_t_widget_result\n", "\nend\n")
}

/// The block of fish's ctrl-t widget that decodes the draft file.
pub fn fish_ctrl_t_draft_decode_snippet(fish_sh: &str) -> (s: String)
    requires
        snippet(fish_sh@, "if test -f \"$draft_file\"\n"@, "\n      end\n"@) is Some,
    ensures
        snippet(fish_sh@, "if test -f \"$draft_file\"\n"@, "\n      end\n"@) == Some(s@),
{
    required_snippet(fish_sh, "if test -f \"$draft_file\"\n", "\n      end\n")
}

/// The definition of fish's `warp_run_external_ctrl_t_widget`.
pub fn fish_ctrl_t_widget_runner_fn(fish_sh: &str) -> (s: String)
    requires
        snippet(fish_sh@, "function warp_run_external_ctrl_t_widget\n"@, fish_function_end()) is Some,
    ensures
        snippet(fish_sh@, "function warp_run_external_ctrl_t_widget\n"@, fish_function_end()) == Some(s@),
{
    required_snippet(fish_sh, "function warp_run_external_ctrl_t_widget\n", "\nend\n")
}

/// The definition of fish's `warp_ctrl_t_draft_file_path`.
pub fn fish_ctrl_t_draft_file_path_fn(fish_sh: &str) -> (s: String)
    requires
        snippet(fish_sh@, "function warp_ctrl_t_draft_file_path\n"@, fish_function_end()) is Some,
    ensures
        snippet(fish_sh@, "function warp_ctrl_t_draft_file_path\n"@, fish_function_end()) == Some(s@),
{
    required_snippet(fish_sh, "function warp_ctrl_t_draft_file_path\n", "\nend\n")
}

/// Whether a bash of the given `(major, minor)` version has `bind -X` (added in
/// bash 4.3); `None` when bash's version is unknown.
pub fn bash_supports_bind_dash_capital_x(version: Option<(u32, u32)>) -> (b: Option<bool>)
    ensures
        match version {
            Some((major, minor)) => b == Some(major > 4 || (major == 4 && minor >= 3)),
            None => b is None,
        },
{
    match version {
        Some((major, minor)) => Some(major > 4 || (major == 4 && minor >= 3)),
        None => None,
    }
}

/// The first part of the fish ctrl-r widget driver script.
pub open spec fn ctrl_r_script_head() -> Seq<char> {
    "\nfunction warp_escape_json\n  string join \\n $argv\nend\nfunction warp_send_json_message\n  echo \"$argv\"\nend\nset -g _test_commandline_value ''\nfunction commandline\n  echo \"$_test_commandline_value\"\nend\nfunction fzf-history-widget\n  "@
}

/// The part of the fish ctrl-r widget driver script between the widget body
/// and the runner.
pub open spec fn ctrl_r_script_middle() -> Seq<char> {
    "\nend\nset -g _WARP_EXTERNAL_CTRL_R_WIDGET fzf-history-widget\nset -g WARP_SESSION_ID 12345\n"@
}

/// The last part of the fish ctrl-r widget driver script.
pub open spec fn ctrl_r_script_tail() -> Seq<char> {
    "\nwarp_run_external_ctrl_r_widget test-token\n"@
}

/// A fish script that stubs `fzf-history-widget` with `widget_body` (plus the
/// JSON, messaging and `commandline` helpers it relies on), defines the ctrl-r
/// widget `runner`, and runs it.
pub fn fish_ctrl_r_widget_test_script(runner: &str, widget_body: &str) -> (s: String)
    ensures
        s@ == ctrl_r_script_head() + widget_body@ + ctrl_r_script_middle() + runner@ + ctrl_r_script_tail(),
{
    let mut s = String::new();
    push_str(&mut s, "\nfunction warp_escape_json\n  string join \\n $argv\nend\nfunction warp_send_json_message\n  echo \"$argv\"\nend\nset -g _test_commandline_value ''\nfunction commandline\n  echo \"$_test_commandline_value\"\nend\nfunction fzf-history-widget\n  ");
    push_str(&mut s, widget_body);
    push_str(&mut s, "\nend\nset -g _WARP_EXTERNAL_CTRL_R_WIDGET fzf-history-widget\nset -g WARP_SESSION_ID 12345\n");
    push_str(&mut s, runner);
    push_str(&mut s, "\nwarp_run_external_ctrl_r_widget test-token\n");
    assert(s@ =~= ctrl_r_script_head() + widget_body@ + ctrl_r_script_middle() + runner@ + ctrl_r_script_tail());
    s
}

/// The head of the fish ctrl-t widget driver script, before the runtime directory.
pub open spec fn ctrl_t_script_head() -> Seq<char> {
    "\n# Unlike the real warp_escape_json (see fish_warp_escape_json_fn above), this stub doesn't\n# actually escape a real newline into JSON's `\\n` -- piped through `string collect` purely so\n# that leaving one in doesn't itself get re-split by the `set` below that captures this\n# function's own output, which would otherwise mask the very truncation these tests exist to\n# catch behind an unrelated space-joining artifact of the stub.\nfunction warp_escape_json\n  string join \\n $argv | string collect\nend\nfunction warp_send_json_message\n  echo \"$argv\"\nend\nset -gx XDG_RUNTIME_DIR '"@
}

/// The part after the runtime directory.
pub open spec fn ctrl_t_script_after_dir() -> Seq<char> {
    "'\n"@
}

/// The stateful `commandline` stub and the start of the widget definition.
pub open spec fn ctrl_t_script_commandline() -> Seq<char> {
    "\nset -g _test_cl_value ''\nfunction commandline\n  if test (count $argv) -ge 1; and test \"$argv[1]\" = '-r'\n    set -g _test_cl_value (string join \\n -- $argv[3..] | string collect)\n    return 0\n  end\n  if test (count $argv) -ge 1; and test \"$argv[1]\" = '-C'\n    return 0\n  end\n  echo \"$_test_cl_value\"\nend\nfunction fzf-file-widget\n  "@
}

/// The part after the widget body.
pub open spec fn ctrl_t_script_after_body() -> Seq<char> {
    "\nend\nset -g _WARP_EXTERNAL_CTRL_T_WIDGET fzf-file-widget\nset -g WARP_SESSION_ID 12345\n"@
}

/// The last part of the fish ctrl-t widget driver script.
pub open spec fn ctrl_t_script_tail() -> Seq<char> {
    "\nwarp_run_external_ctrl_t_widget test-token\n"@
}

/// A fish script that runs fish's full `warp_run_external_ctrl_t_widget` (taken
/// from `fish_sh` with the draft-file-path and result helpers it calls) against
/// a stateful `commandline` stub and a `fzf-file-widget` stub with
/// `widget_body`, with `XDG_RUNTIME_DIR` set to `xdg_runtime_dir`.
pub fn fish_ctrl_t_widget_test_script(fish_sh: &str, xdg_runtime_dir: &str, widget_body: &str) -> (s: String)
    requires
        snippet(fish_sh@, "function warp_run_external_ctrl_t_widget\n"@, fish_function_end()) is Some,
        snippet(fish_sh@, "function warp_ctrl_t_draft_file_path\n"@, fish_function_end()) is Some,
        snippet(fish_sh@, "function warp_ctrl_t_widget_result\n"@, fish_function_end()) is Some,
    ensures
        s@ == ctrl_t_script_head() + xdg_runtime_dir@ + ctrl_t_script_after_dir()
            + snippet(fish_sh@, "function warp_ctrl_t_draft_file_path\n"@, fish_function_end()).unwrap() + "\n"@
            + snippet(fish_sh@, "function warp_ctrl_t_widget_result\n"@, fish_function_end()).unwrap()
            + ctrl_t_script_commandline() + widget_body@ + ctrl_t_script_after_body()
            + snippet(fish_sh@, "function warp_run_external_ctrl_t_widget\n"@, fish_function_end()).unwrap()
            + ctrl_t_script_tail(),
{
    let runner = fish_ctrl_t_widget_runner_fn(fish_sh);
    let draft_file_path_fn = fish_ctrl_t_draft_file_path_fn(fish_sh);
    let widget_result_fn = fish_ctrl_t_widget_result_fn(fish_sh);
    let mut s = String::new();
    push_str(&mut s, "\n# Unlike the real warp_escape_json (see fish_warp_escape_json_fn above), this stub doesn't\n# actually escape a real newline into JSON's `\\n` -- piped through `string collect` purely so\n# that leaving one in doesn't itself get re-split by the `set` below that captures this\n# function's own output, which would otherwise mask the very truncation these tests exist to\n# catch behind an unrelated space-joining artifact of the stub.\nfunction warp_escape_json\n  string join \\n $argv | string collect\nend\nfunction warp_send_json_message\n  echo \"$argv\"\nend\nset -gx XDG_RUNTIME_DIR '");
    push_str(&mut s, xdg_runtime_dir);
    push_str(&mut s, "'\n");
    push_str(&mut s, draft_file_path_fn.as_str());
    push_str(&mut s, "\n");
    push_str(&mut s, widget_result_fn.as_str());
    push_str(&mut s, "\nset -g _test_cl_value ''\nfunction commandline\n  if test (count $argv) -ge 1; and test \"$argv[1]\" = '-r'\n    set -g _test_cl_value (string join \\n -- $argv[3..] | string collect)\n    return 0\n  end\n  if test (count $argv) -ge 1; and test \"$argv[1]\" = '-C'\n    return 0\n  end\n  echo \"$_test_cl_value\"\nend\nfunction fzf-file-widget\n  ");
    push_str(&mut s, widget_body);
    push_str(&mut s, "\nend\nset -g _WARP_EXTERNAL_CTRL_T_WIDGET fzf-file-widget\nset -g WARP_SESSION_ID 12345\n");
    push_str(&mut s, runner.as_str());
    push_str(&mut s, "\nwarp_run_external_ctrl_t_widget test-token\n");
    s
}

} // verus!
