//! File-based MCP configuration discovery: where each provider keeps its
//! config file, which home subdirectories are watched, which provider configs
//! a scanned directory covers, and which detected repositories are watched.

use vstd::prelude::*;
use crate::text::{chars_of, string_of_chars, push_str, string_from};
use crate::bootstrap::starts_with;

verus! {

/// A tool whose MCP server configuration files Warp reads.
#[derive(Clone, Copy, Debug, PartialEq, Eq, Structural, Hash)]
pub enum MCPProvider {
    Warp,
    Claude,
    Codex,
    Agents,
}

/// Where a provider's config lives inside a repository, relative to its root.
pub open spec fn project_config(p: MCPProvider) -> Seq<char> {
    match p {
        MCPProvider::Warp => ".warp/.mcp.json"@,
        MCPProvider::Claude => ".mcp.json"@,
        MCPProvider::Codex => ".codex/config.toml"@,
        MCPProvider::Agents => ".agents/.mcp.json"@,
    }
}

/// Where a provider's global config lives, relative to the home directory.
pub open spec fn home_config(p: MCPProvider) -> Seq<char> {
    match p {
        MCPProvider::Claude => "\x2eclaude.json"@,
        _ => project_config(p),
    }
}

/// The home subdirectory holding a provider's global config, if it has its own.
pub open spec fn home_subdir(p: MCPProvider) -> Option<Seq<char>> {
    match p {
        MCPProvider::Warp => Some(".warp"@),
        MCPProvider::Claude => None,
        MCPProvider::Codex => Some(".codex"@),
        MCPProvider::Agents => Some(".agents"@),
    }
}

impl MCPProvider {
    /// The provider's global config path, relative to the home directory.
    pub fn home_config_path(&self) -> (p: &'static str)
        ensures
            p@ == home_config(*self),
    {
        match self {
            MCPProvider::Warp => ".warp/.mcp.json",
            MCPProvider::Claude => "\x2eclaude.json",
            MCPProvider::Codex => ".codex/config.toml",
            MCPProvider::Agents => ".agents/.mcp.json",
        }
    }

    /// The provider's config path inside a repository, relative to its root.
    pub fn project_config_path(&self) -> (p: &'static str)
        ensures
            p@ == project_config(*self),
    {
        match self {
            MCPProvider::Warp => ".warp/.mcp.json",
            MCPProvider::Claude => ".mcp.json",
            MCPProvider::Codex => ".codex/config.toml",
            MCPProvider::Agents => ".agents/.mcp.json",
        }
    }
}

/// The home subdirectory to watch for a provider's global config; none for a
/// provider whose global config sits directly in the home directory.
pub fn home_subdir_to_watch(provider: MCPProvider) -> (d: Option<&'static str>)
    ensures
        match d {
            Some(s) => home_subdir(provider) == Some(s@),
            None => home_subdir(provider) is None,
        },
{
    match provider {
        MCPProvider::Warp => Some(".warp"),
        MCPProvider::Claude => None,
        MCPProvider::Codex => Some(".codex"),
        MCPProvider::Agents => Some(".agents"),
    }
}

/// `rel` joined onto `root` with a `/` separator.
pub open spec fn join_path(root: Seq<char>, rel: Seq<char>) -> Seq<char> {
    if root.len() == 0 {
        rel
    } else if root.last() == '/' {
        root + rel
    } else {
        root + seq!['/'] + rel
    }
}

/// `path` is `scope` or lies below it.
pub open spec fn path_within(path: Seq<char>, scope: Seq<char>) -> bool {
    &&& starts_with(path, scope)
    &&& (path.len() == scope.len() || (scope.len() > 0 && scope.last() == '/') || path[scope.len() as int] == '/')
}

/// The provider's project config under `root`, when it lies within `scope`.
pub open spec fn scoped_config(root: Seq<char>, scope: Seq<char>, p: MCPProvider) -> Seq<(MCPProvider, Seq<char>)> {
    if path_within(join_path(root, project_config(p)), scope) {
        seq![(p, join_path(root, project_config(p)))]
    } else {
        Seq::empty()
    }
}

/// The provider configs under `root` that a scan of `scope` covers, in provider order.
pub open spec fn scoped_configs(root: Seq<char>, scope: Seq<char>) -> Seq<(MCPProvider, Seq<char>)> {
    scoped_config(root, scope, MCPProvider::Warp) + scoped_config(root, scope, MCPProvider::Claude)
        + scoped_config(root, scope, MCPProvider::Codex) + scoped_config(root, scope, MCPProvider::Agents)
}

/// `rel` joined onto `root` (see [`join_path`]).
pub fn join(root: &str, rel: &str) -> (p: String)
    ensures
        p@ == join_path(root@, rel@),
{
    let r = chars_of(root);
    if r.len() == 0 {
        string_from(rel)
    } else if r[r.len() - 1] == '/' {
        let mut p = string_from(root);
        push_str(&mut p, rel);
        p
    } else {
        let mut p = string_from(root);
        push_str(&mut p, "/");
        push_str(&mut p, rel);
        proof { reveal_strlit("/"); }
        assert(p@ =~= join_path(root@, rel@));
        p
    }
}

/// Whether `path` is `scope` or lies below it (see [`path_within`]).
pub fn is_within(path: &str, scope: &str) -> (b: bool)
    ensures
        b == path_within(path@, scope@),
{
    let p = chars_of(path);
    let s = chars_of(scope);
    if s.len() > p.len() {
        return false;
    }
    let mut i: usize = 0;
    while i < s.len()
        invariant
            s.len() <= p.len(),
            p@ == path@,
            s@ == scope@,
            i <= s.len(),
            forall|k: int| 0 <= k < i ==> p@[k] == s@[k],
        decreases s.len() - i,
    {
        if p[i] != s[i] {
            assert(p@.take(s@.len() as int)[i as int] != s@[i as int]);
            return false;
        }
        i = i + 1;
    }
    assert(p@.take(s@.len() as int) =~= s@);
    p.len() == s.len() || (s.len() > 0 && s[s.len() - 1] == '/') || p[s.len()] == '/'
}

fn push_if_scoped(root: &str, scope: &str, provider: MCPProvider, out: &mut Vec<(MCPProvider, String)>)
    ensures
        config_views(final(out)@) == config_views(old(out)@) + scoped_config(root@, scope@, provider),
{
    let path = join(root, provider.project_config_path());
    if is_within(path.as_str(), scope) {
        let ghost pv = path@;
        out.push((provider, path));
        assert(config_views(final(out)@) =~= config_views(old(out)@).push((provider, pv)));
    } else {
        assert(config_views(final(out)@) =~= config_views(old(out)@));
    }
}

/// The provider and path views of a list of configs.
pub open spec fn config_views(configs: Seq<(MCPProvider, String)>) -> Seq<(MCPProvider, Seq<char>)> {
    configs.map_values(|c: (MCPProvider, String)| (c.0, c.1@))
}

/// The provider configs under `root` that a scan of the directory `scope`
/// covers: each provider's project config under `root` that lies within `scope`.
pub fn providers_in_scope(root: &str, scope: &str) -> (configs: Vec<(MCPProvider, String)>)
    ensures
        config_views(configs@) == scoped_configs(root@, scope@),
{
    let mut out: Vec<(MCPProvider, String)> = Vec::new();
    assert(config_views(out@) =~= Seq::<(MCPProvider, Seq<char>)>::empty());
    push_if_scoped(root, scope, MCPProvider::Warp, &mut out);
    push_if_scoped(root, scope, MCPProvider::Claude, &mut out);
    push_if_scoped(root, scope, MCPProvider::Codex, &mut out);
    push_if_scoped(root, scope, MCPProvider::Agents, &mut out);
    assert(config_views(out@) =~= scoped_configs(root@, scope@));
    out
}

/// Why a repository was detected.
#[derive(Clone, Copy, Debug, PartialEq, Eq, Structural)]
pub enum RepoDetectionSource {
    TerminalNavigation,
    CloudEnvironmentPrep,
    ProjectRulesIndexing,
    CodeReviewInitialization,
}

/// The surface Warp runs as.
#[derive(Clone, Copy, Debug, PartialEq, Eq, Structural)]
pub enum SettingsMode {
    Gui,
    Tui,
}

/// Whether a detected repository's MCP configs are watched: repositories the
/// user navigated to always, repositories prepared for a cloud environment only
/// in the GUI, and repositories detected for rules indexing or code review never.
pub fn should_watch_repository(source: RepoDetectionSource, mode: SettingsMode) -> (watch: bool)
    ensures
        watch == (source == RepoDetectionSource::TerminalNavigation
            || (source == RepoDetectionSource::CloudEnvironmentPrep && mode == SettingsMode::Gui)),
{
    match source {
        RepoDetectionSource::TerminalNavigation => true,
        RepoDetectionSource::CloudEnvironmentPrep => mode == SettingsMode::Gui,
        RepoDetectionSource::ProjectRulesIndexing => false,
        RepoDetectionSource::CodeReviewInitialization => false,
    }
}


proof fn lemma_join_within_root(root: Seq<char>, rel: Seq<char>)
    requires
        root.len() > 0,
        rel.len() > 0,
    ensures
        path_within(join_path(root, rel), root),
{
    let p = join_path(root, rel);
    assert(p.take(root.len() as int) =~= root);
}

/// A scan of a repository root covers every provider's project config in it.
pub proof fn lemma_repository_scan_covers_every_provider(root: Seq<char>, p: MCPProvider)
    requires
        root.len() > 0,
    ensures
        scoped_configs(root, root).contains((p, join_path(root, project_config(p)))),
{
    reveal_strlit(".warp/.mcp.json");
    reveal_strlit(".mcp.json");
    reveal_strlit(".codex/config.toml");
    reveal_strlit(".agents/.mcp.json");
    lemma_join_within_root(root, project_config(p));
    let x = (p, join_path(root, project_config(p)));
    let w = scoped_config(root, root, MCPProvider::Warp);
    let c = scoped_config(root, root, MCPProvider::Claude);
    let x2 = scoped_config(root, root, MCPProvider::Codex);
    let a = scoped_config(root, root, MCPProvider::Agents);
    let all = scoped_configs(root, root);
    match p {
        MCPProvider::Warp => { assert(all[0] == x); },
        MCPProvider::Claude => { assert(all[w.len() as int] == x); },
        MCPProvider::Codex => { assert(all[(w.len() + c.len()) as int] == x); },
        MCPProvider::Agents => { assert(all[(w.len() + c.len() + x2.len()) as int] == x); },
    }
}

/// A scan of a provider's home subdirectory covers that provider's global config.
pub proof fn lemma_home_subdir_scan_covers_provider(home: Seq<char>, p: MCPProvider)
    requires
        home.len() > 0,
        home_subdir(p) is Some,
    ensures
        scoped_configs(home, join_path(home, home_subdir(p).unwrap())).contains((p, join_path(home, home_config(p)))),
{
    reveal_strlit(".warp/.mcp.json");
    reveal_strlit(".mcp.json");
    reveal_strlit(".codex/config.toml");
    reveal_strlit(".agents/.mcp.json");
    reveal_strlit(".warp");
    reveal_strlit(".codex");
    reveal_strlit(".agents");
    let d = home_subdir(p).unwrap();
    let scope = join_path(home, d);
    let path = join_path(home, home_config(p));
    assert(home_config(p) == project_config(p));
    assert(home_config(p).take(d.len() as int) =~= d);
    assert(home_config(p)[d.len() as int] == '/');
    assert(path.take(scope.len() as int) =~= scope);
    assert(path_within(path, scope));
    let x = (p, path);
    let w = scoped_config(home, scope, MCPProvider::Warp);
    let c = scoped_config(home, scope, MCPProvider::Claude);
    let x2 = scoped_config(home, scope, MCPProvider::Codex);
    let all = scoped_configs(home, scope);
    match p {
        MCPProvider::Warp => { assert(all[0] == x); },
        MCPProvider::Claude => {},
        MCPProvider::Codex => { assert(all[(w.len() + c.len()) as int] == x); },
        MCPProvider::Agents => { assert(all[(w.len() + c.len() + x2.len()) as int] == x); },
    }
}

} // verus!
