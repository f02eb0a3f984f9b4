//! Assembly of the shell bootstrap scripts from bundled assets: `#include`
//! directives are expanded, comment and blank lines are dropped, leading
//! indentation collapses to a single space, and PowerShell's analyzer
//! suppression attributes are removed.

use vstd::prelude::*;
use vstd::utf8::{valid_utf8, decode_utf8, encode_utf8};
use vstd::string::StringSliceAdditionalSpecFns;
use crate::text::{chars_of, string_of_chars, string_from, str_equal};

verus! {

/// A shell Warp bootstraps.
#[derive(Clone, Copy, Debug, PartialEq, Eq, Structural)]
pub enum ShellType {
    Zsh,
    Bash,
    Fish,
    PowerShell,
}

/// The path of a shell's bootstrap script among the bundled assets.
pub open spec fn bootstrap_path(shell: ShellType) -> Seq<char> {
    match shell {
        ShellType::Bash => "bundled/bootstrap/bash.sh"@,
        ShellType::Fish => "bundled/bootstrap/fish.sh"@,
        ShellType::Zsh => "bundled/bootstrap/zsh.sh"@,
        ShellType::PowerShell => "bundled/bootstrap/pwsh.ps1"@,
    }
}

/// The path of a shell's bootstrap script among the bundled assets.
pub fn bootstrap_asset_path(shell: ShellType) -> (p: &'static str)
    ensures
        p@ == bootstrap_path(shell),
{
    match shell {
        ShellType::Bash => "bundled/bootstrap/bash.sh",
        ShellType::Fish => "bundled/bootstrap/fish.sh",
        ShellType::Zsh => "bundled/bootstrap/zsh.sh",
        ShellType::PowerShell => "bundled/bootstrap/pwsh.ps1",
    }
}

/// Bundled text assets by path. When a path occurs more than once, its first
/// entry counts.
#[derive(Clone, Debug)]
pub struct BundledAssets {
    pub entries: Vec<(String, String)>,
}

/// The content of the first asset at `path`, if any.
pub open spec fn asset_content(entries: Seq<(String, String)>, path: Seq<char>) -> Option<Seq<char>>
    decreases entries.len(),
{
    if entries.len() == 0 {
        None
    } else if entries[0].0@ == path {
        Some(entries[0].1@)
    } else {
        asset_content(entries.drop_first(), path)
    }
}

impl BundledAssets {
    /// No assets.
    pub fn new() -> (a: Self)
        ensures
            a.entries@.len() == 0,
    {
        BundledAssets { entries: Vec::new() }
    }

    /// Adds an asset after the existing ones.
    pub fn insert(&mut self, path: &str, content: &str)
        ensures
            final(self).entries@.len() == old(self).entries@.len() + 1,
            final(self).entries@.take(old(self).entries@.len() as int) == old(self).entries@,
            final(self).entries@.last().0@ == path@,
            final(self).entries@.last().1@ == content@,
    {
        self.entries.push((string_from(path), string_from(content)));
        assert(self.entries@.take(old(self).entries@.len() as int) =~= old(self).entries@);
    }

    /// The content of the asset at `path`, if any.
    pub fn get(&self, path: &str) -> (c: Option<&String>)
        ensures
            match c {
                Some(s) => asset_content(self.entries@, path@) == Some(s@),
                None => asset_content(self.entries@, path@) is None,
            },
    {
        let mut i: usize = 0;
        assert(self.entries@.skip(0) =~= self.entries@);
        while i < self.entries.len()
            invariant
                i <= self.entries.len(),
                asset_content(self.entries@, path@) == asset_content(self.entries@.skip(i as int), path@),
            decreases self.entries.len() - i,
        {
            assert(self.entries@.skip(i as int).drop_first() =~= self.entries@.skip(i + 1));
            if str_equal(self.entries[i].0.as_str(), path) {
                return Some(&self.entries[i].1);
            }
            i = i + 1;
        }
        None
    }
}

/// Horizontal whitespace and line-ending characters trimmed from script lines.
pub open spec fn is_blank_char(c: char) -> bool {
    c == ' ' || c == '\t' || c == '\r' || c == '\x0B' || c == '\x0C'
}

/// `s` without its leading blank characters.
pub open spec fn trim_start(s: Seq<char>) -> Seq<char>
    decreases s.len(),
{
    if s.len() > 0 && is_blank_char(s[0]) {
        trim_start(s.drop_first())
    } else {
        s
    }
}

/// `s` without its trailing blank characters.
pub open spec fn trim_end(s: Seq<char>) -> Seq<char>
    decreases s.len(),
{
    if s.len() > 0 && is_blank_char(s.last()) {
        trim_end(s.drop_last())
    } else {
        s
    }
}

/// `s` without its leading and trailing blank characters.
pub open spec fn trim(s: Seq<char>) -> Seq<char> {
    trim_end(trim_start(s))
}

/// `s` begins with `prefix`.
pub open spec fn starts_with(s: Seq<char>, prefix: Seq<char>) -> bool {
    prefix.len() <= s.len() && s.take(prefix.len() as int) == prefix
}

/// The directive that splices another asset into a script.
pub open spec fn include_directive() -> Seq<char> {
    "#include "@
}

/// The analyzer suppression attribute PowerShell scripts carry and that is
/// removed from the bootstrap.
pub open spec fn powershell_suppression() -> Seq<char> {
    "[Diagnostics.CodeAnalysis.SuppressMessageAttribute"@
}

/// The output of one script line that is not an `#include` expanded here:
/// comment, blank and (for PowerShell) suppression-attribute lines vanish; any
/// other line is emitted trimmed, with a single leading space when it was
/// indented, and terminated by a newline.
pub open spec fn plain_line_output(shell: ShellType, line: Seq<char>) -> Seq<char> {
    let t = trim(line);
    if t.len() == 0 || t[0] == '#' {
        Seq::empty()
    } else if shell == ShellType::PowerShell && starts_with(t, powershell_suppression()) {
        Seq::empty()
    } else if line.len() > 0 && is_blank_char(line[0]) {
        seq![' '] + t + seq!['\n']
    } else {
        t + seq!['\n']
    }
}

/// The name an `#include` line refers to.
pub open spec fn include_name(t: Seq<char>) -> Seq<char> {
    trim(t.skip(include_directive().len() as int))
}

/// The output of applying `f` to each line of `text` (split at `'\n'`), where
/// `current` holds the characters of the line read so far.
pub open spec fn map_lines_from(text: Seq<char>, current: Seq<char>, f: spec_fn(Seq<char>) -> Seq<char>) -> Seq<char>
    decreases text.len(),
{
    if text.len() == 0 {
        f(current)
    } else if text[0] == '\n' {
        f(current) + map_lines_from(text.drop_first(), Seq::empty(), f)
    } else {
        map_lines_from(text.drop_first(), current.push(text[0]), f)
    }
}

/// The concatenated outputs of `f` on the lines of `text`.
pub open spec fn map_lines(text: Seq<char>, f: spec_fn(Seq<char>) -> Seq<char>) -> Seq<char> {
    map_lines_from(text, Seq::empty(), f)
}

/// [`plain_line_output`] for `shell`.
pub open spec fn plain_line_fn(shell: ShellType) -> spec_fn(Seq<char>) -> Seq<char> {
    |line: Seq<char>| plain_line_output(shell, line)
}

/// The output of an included asset: its lines without further expansion.
pub open spec fn plain_text_output(shell: ShellType, text: Seq<char>) -> Seq<char> {
    map_lines(text, plain_line_fn(shell))
}

/// The output of a line of the bootstrap script itself: an `#include` line is
/// replaced by the output of the named asset (nothing when there is none),
/// every other line as in [`plain_line_output`].
pub open spec fn top_line_output(shell: ShellType, assets: Seq<(String, String)>, line: Seq<char>) -> Seq<char> {
    let t = trim(line);
    if starts_with(t, include_directive()) {
        match asset_content(assets, include_name(t)) {
            Some(content) => plain_text_output(shell, content),
            None => Seq::empty(),
        }
    } else {
        plain_line_output(shell, line)
    }
}

/// [`top_line_output`] for `shell` and `assets`.
pub open spec fn top_line_fn(shell: ShellType, assets: Seq<(String, String)>) -> spec_fn(Seq<char>) -> Seq<char> {
    |line: Seq<char>| top_line_output(shell, assets, line)
}

/// The bootstrap script of `shell`: the processed lines of its bundled script,
/// or nothing when that script is missing.
pub open spec fn bootstrap_text(shell: ShellType, assets: Seq<(String, String)>) -> Seq<char> {
    match asset_content(assets, bootstrap_path(shell)) {
        Some(script) => map_lines(script, top_line_fn(shell, assets)),
        None => Seq::empty(),
    }
}

fn is_blank(c: char) -> (b: bool)
    ensures
        b == is_blank_char(c),
{
    c == ' ' || c == '\t' || c == '\r' || c == '\x0B' || c == '\x0C'
}

proof fn lemma_trim_start_skip(s: Seq<char>, i: int)
    requires
        0 <= i <= s.len(),
        forall|k: int| 0 <= k < i ==> is_blank_char(s[k]),
    ensures
        trim_start(s) == trim_start(s.skip(i)),
    decreases i,
{
    if i > 0 {
        assert(s.drop_first().skip(i - 1) =~= s.skip(i));
        lemma_trim_start_skip(s.drop_first(), i - 1);
    } else {
        assert(s.skip(0) =~= s);
    }
}

proof fn lemma_trim_end_take(s: Seq<char>, j: int)
    requires
        0 <= j <= s.len(),
        forall|k: int| j <= k < s.len() ==> is_blank_char(s[k]),
    ensures
        trim_end(s) == trim_end(s.take(j)),
    decreases s.len() - j,
{
    if j < s.len() {
        assert(s.drop_last().take(j) =~= s.take(j));
        lemma_trim_end_take(s.drop_last(), j);
    } else {
        assert(s.take(j) =~= s);
    }
}

/// `s` without leading and trailing blank characters.
fn trim_chars(s: &Vec<char>) -> (t: Vec<char>)
    ensures
        t@ == trim(s@),
{
    let mut i: usize = 0;
    while i < s.len() && is_blank(s[i])
        invariant
            i <= s.len(),
            forall|k: int| 0 <= k < i ==> is_blank_char(s@[k]),
        decreases s.len() - i,
    {
        i = i + 1;
    }
    proof {
        lemma_trim_start_skip(s@, i as int);
    }
    let ghost u = s@.skip(i as int);
    assert(trim_start(u) == u);
    let mut j: usize = s.len();
    while j > i && is_blank(s[j - 1])
        invariant
            i <= j <= s.len(),
            forall|k: int| j <= k < s.len() ==> is_blank_char(s@[k]),
        decreases j,
    {
        j = j - 1;
    }
    proof {
        lemma_trim_end_take(u, j - i);
        assert(u.take(j - i) =~= s@.subrange(i as int, j as int));
        let w = s@.subrange(i as int, j as int);
        assert(w.len() == 0 || !is_blank_char(w.last()));
    }
    let mut t: Vec<char> = Vec::new();
    let mut k: usize = i;
    while k < j
        invariant
            i <= k <= j <= s.len(),
            t@ == s@.subrange(i as int, k as int),
        decreases j - k,
    {
        t.push(s[k]);
        k = k + 1;
        assert(t@ =~= s@.subrange(i as int, k as int));
    }
    t
}

/// Whether `s` begins with the characters of `prefix`.
fn starts_with_chars(s: &Vec<char>, prefix: &Vec<char>) -> (b: bool)
    ensures
        b == starts_with(s@, prefix@),
{
    if prefix.len() > s.len() {
        return false;
    }
    let mut i: usize = 0;
    while i < prefix.len()
        invariant
            prefix.len() <= s.len(),
            i <= prefix.len(),
            forall|k: int| 0 <= k < i ==> s@[k] == prefix@[k],
        decreases prefix.len() - i,
    {
        if s[i] != prefix[i] {
            assert(s@.take(prefix@.len() as int)[i as int] != prefix@[i as int]);
            return false;
        }
        i = i + 1;
    }
    assert(s@.take(prefix@.len() as int) =~= prefix@);
    true
}

/// Appends the output of a line that is not expanded (see [`plain_line_output`]).
fn push_plain_line(shell: ShellType, line: &Vec<char>, out: &mut Vec<char>)
    ensures
        final(out)@ == old(out)@ + plain_line_output(shell, line@),
        trim(line@).len() == 0 || trim(line@)[0] == '#' ==> final(out)@ == old(out)@,
{
    let t = trim_chars(line);
    let suppression = chars_of("[Diagnostics.CodeAnalysis.SuppressMessageAttribute");
    proof { reveal_strlit("[Diagnostics.CodeAnalysis.SuppressMessageAttribute"); }
    if t.len() == 0 || t[0] == '#' {
        assert(old(out)@ + Seq::<char>::empty() =~= old(out)@);
    } else if shell == ShellType::PowerShell && starts_with_chars(&t, &suppression) {
        assert(old(out)@ + Seq::<char>::empty() =~= old(out)@);
    } else {
        let ghost before = out@;
        if line.len() > 0 && is_blank(line[0]) {
            out.push(' ');
        }
        let mut k: usize = 0;
        while k < t.len()
            invariant
                k <= t.len(),
                out@ == before + (if line@.len() > 0 && is_blank_char(line@[0]) { seq![' '] } else { Seq::empty() }) + t@.take(k as int),
            decreases t.len() - k,
        {
            out.push(t[k]);
            k = k + 1;
            assert(t@.take(k as int) =~= t@.take(k - 1).push(t@[k - 1]));
        }
        out.push('\n');
        assert(t@.take(t@.len() as int) =~= t@);
        assert(final(out)@ =~= old(out)@ + plain_line_output(shell, line@));
    }
}

proof fn lemma_map_lines_newline(text: Seq<char>, i: int, current: Seq<char>, f: spec_fn(Seq<char>) -> Seq<char>)
    requires
        0 <= i < text.len(),
        text[i] == '\n',
    ensures
        map_lines_from(text.skip(i), current, f) == f(current) + map_lines_from(text.skip(i + 1), Seq::empty(), f),
{
    assert(text.skip(i).drop_first() =~= text.skip(i + 1));
}

proof fn lemma_map_lines_char(text: Seq<char>, i: int, current: Seq<char>, f: spec_fn(Seq<char>) -> Seq<char>)
    requires
        0 <= i < text.len(),
        text[i] != '\n',
    ensures
        map_lines_from(text.skip(i), current, f) == map_lines_from(text.skip(i + 1), current.push(text[i]), f),
{
    assert(text.skip(i).drop_first() =~= text.skip(i + 1));
}

/// Appends the output of an included asset (see [`plain_text_output`]).
fn push_plain_text(shell: ShellType, text: &Vec<char>, out: &mut Vec<char>)
    ensures
        final(out)@ == old(out)@ + plain_text_output(shell, text@),
{
    let f = Ghost(plain_line_fn(shell));
    let mut current: Vec<char> = Vec::new();
    let mut i: usize = 0;
    assert(text@.skip(0) =~= text@);
    while i < text.len()
        invariant
            i <= text.len(),
            f@ == plain_line_fn(shell),
            old(out)@ + plain_text_output(shell, text@) == out@ + map_lines_from(text@.skip(i as int), current@, f@),
        decreases text.len() - i,
    {
        if text[i] == '\n' {
            proof { lemma_map_lines_newline(text@, i as int, current@, f@); }
            push_plain_line(shell, &current, out);
            current = Vec::new();
            assert(current@ =~= Seq::<char>::empty());
        } else {
            proof { lemma_map_lines_char(text@, i as int, current@, f@); }
            current.push(text[i]);
        }
        i = i + 1;
    }
    push_plain_line(shell, &current, out);
    assert(text@.skip(i as int).len() == 0);
}

/// Appends the output of a line of the bootstrap script itself (see [`top_line_output`]).
fn push_top_line(shell: ShellType, assets: &BundledAssets, line: &Vec<char>, out: &mut Vec<char>)
    ensures
        final(out)@ == old(out)@ + top_line_output(shell, assets.entries@, line@),
{
    let t = trim_chars(line);
    let directive = chars_of("#include ");
    proof { reveal_strlit("#include "); }
    if starts_with_chars(&t, &directive) {
        let mut rest: Vec<char> = Vec::new();
        let mut k: usize = directive.len();
        while k < t.len()
            invariant
                directive.len() <= k <= t.len(),
                rest@ == t@.subrange(directive.len() as int, k as int),
            decreases t.len() - k,
        {
            rest.push(t[k]);
            k = k + 1;
            assert(rest@ =~= t@.subrange(directive.len() as int, k as int));
        }
        assert(rest@ =~= t@.skip(include_directive().len() as int));
        let name = trim_chars(&rest);
        let name_string = string_of_chars(&name);
        match assets.get(name_string.as_str()) {
            Some(content) => {
                let content_chars = chars_of(content.as_str());
                push_plain_text(shell, &content_chars, out);
            },
            None => {
                assert(old(out)@ + Seq::<char>::empty() =~= old(out)@);
            },
        }
    } else {
        push_plain_line(shell, line, out);
    }
}

/// The bootstrap script for `shell`, as UTF-8 bytes: the shell's bundled
/// script with `#include` lines replaced by the named assets' lines, comment and
/// blank lines dropped, lines trimmed (an indented line keeps one leading
/// space), PowerShell suppression attributes removed, and every emitted line
/// ending in a newline. Empty when the shell's script is not bundled.
pub fn script_for_shell(shell: ShellType, assets: &BundledAssets) -> (bytes: Vec<u8>)
    ensures
        bytes@ == encode_utf8(bootstrap_text(shell, assets.entries@)),
{
    let path = bootstrap_asset_path(shell);
    let mut out: Vec<char> = Vec::new();
    match assets.get(path) {
        Some(script) => {
            let text = chars_of(script.as_str());
            let f = Ghost(top_line_fn(shell, assets.entries@));
            let mut current: Vec<char> = Vec::new();
            let mut i: usize = 0;
            assert(text@.skip(0) =~= text@);
            assert(out@ + map_lines(text@, f@) =~= map_lines(text@, f@));
            while i < text.len()
                invariant
                    i <= text.len(),
                    f@ == top_line_fn(shell, assets.entries@),
                    map_lines(text@, f@) == out@ + map_lines_from(text@.skip(i as int), current@, f@),
                decreases text.len() - i,
            {
                if text[i] == '\n' {
                    proof { lemma_map_lines_newline(text@, i as int, current@, f@); }
                    push_top_line(shell, assets, &current, &mut out);
                    current = Vec::new();
                    assert(current@ =~= Seq::<char>::empty());
                } else {
                    proof { lemma_map_lines_char(text@, i as int, current@, f@); }
                    current.push(text[i]);
                }
                i = i + 1;
            }
            push_top_line(shell, assets, &current, &mut out);
            assert(text@.skip(i as int).len() == 0);
        },
        None => {},
    }
    let s = string_of_chars(&out);
    s.as_str().as_bytes_vec()
}

/// Reads `std::str::from_utf8`: `Some` exactly when the bytes are valid UTF-8,
/// then with the decoded characters.
#[verifier::external_body]
fn utf8_to_str(bytes: &[u8]) -> (s: Option<&str>)
    ensures
        s is Some <==> valid_utf8(bytes@),
        s matches Some(t) ==> t@ == decode_utf8(bytes@),
{
    std::str::from_utf8(bytes).ok()
}

/// The text of UTF-8 encoded script bytes.
pub fn decode_script(bytes: &[u8]) -> (s: &str)
    requires
        valid_utf8(bytes@),
    ensures
        s@ == decode_utf8(bytes@),
{
    match utf8_to_str(bytes) {
        Some(s) => s,
        None => {
            assert(false);
            ""
        },
    }
}


/// The asset names of the `#include` lines of a script, in order, where
/// `current` holds the characters of the line read so far.
pub open spec fn include_targets_from(text: Seq<char>, current: Seq<char>) -> Seq<Seq<char>>
    decreases text.len(),
{
    if text.len() == 0 {
        line_include_target(current)
    } else if text[0] == '\n' {
        line_include_target(current) + include_targets_from(text.drop_first(), Seq::empty())
    } else {
        include_targets_from(text.drop_first(), current.push(text[0]))
    }
}

/// The asset name a line includes, if it is an `#include` line.
pub open spec fn line_include_target(line: Seq<char>) -> Seq<Seq<char>> {
    if starts_with(trim(line), include_directive()) {
        seq![include_name(trim(line))]
    } else {
        Seq::empty()
    }
}

/// The asset names that a script's `#include` lines refer to, in order: the
/// assets the bootstrap for the script needs besides the script itself.
pub fn include_targets(script: &str) -> (names: Vec<String>)
    ensures
        names@.map_values(|n: String| n@) == include_targets_from(script@, Seq::empty()),
{
    let text = chars_of(script);
    let mut names: Vec<String> = Vec::new();
    let mut current: Vec<char> = Vec::new();
    let mut i: usize = 0;
    assert(text@.skip(0) =~= text@);
    assert(names@.map_values(|n: String| n@) =~= Seq::<Seq<char>>::empty());
    while i < text.len()
        invariant
            i <= text.len(),
            text@ == script@,
            include_targets_from(script@, Seq::empty())
                == names@.map_values(|n: String| n@) + include_targets_from(text@.skip(i as int), current@),
        decreases text.len() - i,
    {
        assert(text@.skip(i as int).drop_first() =~= text@.skip(i + 1));
        if text[i] == '\n' {
            push_include_target(&current, &mut names);
            current = Vec::new();
            assert(current@ =~= Seq::<char>::empty());
        } else {
            current.push(text[i]);
        }
        i = i + 1;
    }
    push_include_target(&current, &mut names);
    assert(text@.skip(i as int).len() == 0);
    assert(include_targets_from(script@, Seq::empty()) =~= names@.map_values(|n: String| n@));
    names
}

fn push_include_target(line: &Vec<char>, names: &mut Vec<String>)
    ensures
        final(names)@.map_values(|n: String| n@) == old(names)@.map_values(|n: String| n@) + line_include_target(line@),
{
    let t = trim_chars(line);
    let directive = chars_of("#include ");
    proof { reveal_strlit("#include "); }
    if starts_with_chars(&t, &directive) {
        let mut rest: Vec<char> = Vec::new();
        let mut k: usize = directive.len();
        while k < t.len()
            invariant
                directive.len() <= k <= t.len(),
                rest@ == t@.subrange(directive.len() as int, k as int),
            decreases t.len() - k,
        {
            rest.push(t[k]);
            k = k + 1;
            assert(rest@ =~= t@.subrange(directive.len() as int, k as int));
        }
        assert(rest@ =~= t@.skip(include_directive().len() as int));
        let name = trim_chars(&rest);
        let name_string = string_of_chars(&name);
        let ghost nv = name_string@;
        names.push(name_string);
        assert(final(names)@.map_values(|n: String| n@) =~= old(names)@.map_values(|n: String| n@).push(nv));
    } else {
        assert(final(names)@.map_values(|n: String| n@) =~= old(names)@.map_values(|n: String| n@));
    }
}

/// A comment line (its trimmed text starts with `#`) contributes nothing,
/// whatever its indentation; at the top of a script this holds of every
/// comment line that is not an `#include`.
pub proof fn lemma_comment_lines_vanish(shell: ShellType, assets: Seq<(String, String)>, line: Seq<char>)
    requires
        trim(line).len() > 0,
        trim(line)[0] == '#',
    ensures
        plain_line_output(shell, line) == Seq::<char>::empty(),
        !starts_with(trim(line), "#include "@) ==> top_line_output(shell, assets, line) == Seq::<char>::empty(),
{
}

/// A blank line (nothing left after trimming) contributes nothing.
pub proof fn lemma_blank_lines_vanish(shell: ShellType, assets: Seq<(String, String)>, line: Seq<char>)
    requires
        trim(line).len() == 0,
    ensures
        plain_line_output(shell, line) == Seq::<char>::empty(),
        top_line_output(shell, assets, line) == Seq::<char>::empty(),
{
    reveal_strlit("#include ");
    assert(!starts_with(trim(line), include_directive()));
}

/// Trimming removes only blank characters, from both ends, and leaves no blank
/// character at either end: `line` is some blanks, then `trim(line)`, then
/// some blanks.
pub proof fn lemma_trim_strips_only_surrounding_blanks(line: Seq<char>)
    ensures
        trim(line).len() > 0 ==> !is_blank_char(trim(line)[0]) && !is_blank_char(trim(line).last()),
        exists|i: int| #[trigger] trimmed_at(line, i),
{
    let i = lemma_trim_start_parts(line);
    let u = trim_start(line);
    let j = lemma_trim_end_parts(u);
    let t = trim(line);
    assert(t == u.take(j));
    assert(line.subrange(i, i + t.len()) =~= t);
    assert forall|k: int| i + t.len() <= k < line.len() implies is_blank_char(#[trigger] line[k]) by {
        assert(line[k] == u[k - i]);
    }
    if t.len() > 0 {
        assert(t[0] == u[0]);
    }
    assert(trimmed_at(line, i));
}

/// `trim(line)` stands at position `i` of `line`, with only blank characters
/// before and after it.
pub open spec fn trimmed_at(line: Seq<char>, i: int) -> bool {
    &&& 0 <= i && i + trim(line).len() <= line.len()
    &&& line.subrange(i, i + trim(line).len()) == trim(line)
    &&& forall|k: int| 0 <= k < i ==> is_blank_char(#[trigger] line[k])
    &&& forall|k: int| i + trim(line).len() <= k < line.len() ==> is_blank_char(#[trigger] line[k])
}

proof fn lemma_trim_start_parts(s: Seq<char>) -> (i: int)
    ensures
        0 <= i <= s.len(),
        trim_start(s) == s.skip(i),
        forall|k: int| 0 <= k < i ==> is_blank_char(#[trigger] s[k]),
        trim_start(s).len() > 0 ==> !is_blank_char(trim_start(s)[0]),
    decreases s.len(),
{
    if s.len() > 0 && is_blank_char(s[0]) {
        let i = lemma_trim_start_parts(s.drop_first());
        assert(s.drop_first().skip(i) =~= s.skip(i + 1));
        assert forall|k: int| 0 <= k < i + 1 implies is_blank_char(#[trigger] s[k]) by {
            if k > 0 {
                assert(s[k] == s.drop_first()[k - 1]);
            }
        }
        i + 1
    } else {
        assert(s.skip(0) =~= s);
        0
    }
}

proof fn lemma_trim_end_parts(s: Seq<char>) -> (j: int)
    ensures
        0 <= j <= s.len(),
        trim_end(s) == s.take(j),
        forall|k: int| j <= k < s.len() ==> is_blank_char(#[trigger] s[k]),
        trim_end(s).len() > 0 ==> !is_blank_char(trim_end(s).last()),
        trim_end(s).len() > 0 && s.len() > 0 ==> trim_end(s)[0] == s[0],
    decreases s.len(),
{
    if s.len() > 0 && is_blank_char(s.last()) {
        let j = lemma_trim_end_parts(s.drop_last());
        assert(s.drop_last().take(j) =~= s.take(j));
        assert forall|k: int| j <= k < s.len() implies is_blank_char(#[trigger] s[k]) by {
            if k < s.len() - 1 {
                assert(s[k] == s.drop_last()[k]);
            }
        }
        j
    } else {
        assert(s.take(s.len() as int) =~= s);
        s.len() as int
    }
}

} // verus!
