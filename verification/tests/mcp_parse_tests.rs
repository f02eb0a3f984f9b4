use warp_usage::mcp::MCPProvider;
use warp_usage::mcp_parse::{FileMCPParseTracker, FileMCPScanOrigin, ParseSettlement};

fn current(scan_origin: FileMCPScanOrigin, initial_scan_complete: bool) -> ParseSettlement {
    ParseSettlement::Current { scan_origin, initial_scan_complete }
}

#[test]
fn abort_config_parse_cancels_and_removes_inflight_task() {
    let mut tracker = FileMCPParseTracker::new();
    let scheduled = tracker.begin_parse("/tmp/.mcp.json", MCPProvider::Warp);
    assert_eq!(scheduled.generation, 0);
    assert_eq!(tracker.next_parse_generation(), 1);

    let aborted = tracker.abort_config_parse("/tmp/.mcp.json", MCPProvider::Warp);

    assert_eq!(aborted, Some(0));
    assert!(!tracker.is_in_flight("/tmp/.mcp.json", MCPProvider::Warp));
}

#[test]
fn initial_global_scan_settles_after_parsed_missing_and_invalid_sources() {
    let mut tracker = FileMCPParseTracker::new();
    let sources = [
        ("/root/parsed.json", MCPProvider::Warp),
        ("/root/missing.json", MCPProvider::Claude),
        ("/root/invalid.json", MCPProvider::Codex),
    ];
    for (path, provider) in sources {
        tracker.await_in_initial_scan(path, provider);
    }
    let generations: Vec<u64> = sources
        .iter()
        .map(|(path, provider)| tracker.begin_parse(path, *provider).generation)
        .collect();

    // Whatever each parse produced, its completion settles the source; only the last one
    // settles the whole scan.
    assert_eq!(
        tracker.finish_parse(sources[0].0, sources[0].1, generations[0]),
        current(FileMCPScanOrigin::InitialGlobal, false)
    );
    assert_eq!(
        tracker.finish_parse(sources[1].0, sources[1].1, generations[1]),
        current(FileMCPScanOrigin::InitialGlobal, false)
    );
    assert_eq!(
        tracker.finish_parse(sources[2].0, sources[2].1, generations[2]),
        current(FileMCPScanOrigin::InitialGlobal, true)
    );
    for (path, provider) in sources {
        assert!(!tracker.is_pending(path, provider));
    }
}

#[test]
fn initial_global_scan_completion_event_fires_exactly_once() {
    let mut tracker = FileMCPParseTracker::new();
    tracker.await_in_initial_scan("/root/missing.json", MCPProvider::Warp);
    let scheduled = tracker.begin_parse("/root/missing.json", MCPProvider::Warp);

    assert_eq!(
        tracker.finish_parse("/root/missing.json", MCPProvider::Warp, scheduled.generation),
        current(FileMCPScanOrigin::InitialGlobal, true)
    );

    // Driving the completion check again after settlement must not signal again.
    assert!(!tracker.maybe_emit_initial_global_scan_complete());

    // Nor does a later, unrelated parse completion.
    let later = tracker.begin_parse("/root/other.json", MCPProvider::Claude);
    assert_eq!(
        tracker.finish_parse("/root/other.json", MCPProvider::Claude, later.generation),
        current(FileMCPScanOrigin::Incremental, false)
    );
}

#[test]
fn replaced_initial_parse_settles_via_replacement() {
    let mut tracker = FileMCPParseTracker::new();
    tracker.await_in_initial_scan("/root/config.json", MCPProvider::Warp);
    let initial = tracker.begin_parse("/root/config.json", MCPProvider::Warp);

    // A file update schedules a replacement parse, superseding the initial one.
    let replacement = tracker.begin_parse("/root/config.json", MCPProvider::Warp);
    assert_eq!(replacement.superseded, Some(initial.generation));
    assert!(
        tracker.is_pending("/root/config.json", MCPProvider::Warp),
        "the obligation must transfer to the replacement, not be dropped on abort"
    );

    assert_eq!(
        tracker.finish_parse("/root/config.json", MCPProvider::Warp, replacement.generation),
        current(FileMCPScanOrigin::InitialGlobal, true)
    );
}

#[test]
fn stale_completion_callback_cannot_reclaim_a_superseded_source() {
    let mut tracker = FileMCPParseTracker::new();
    tracker.await_in_initial_scan("/root/config.json", MCPProvider::Warp);

    let stale_generation = tracker.begin_parse("/root/config.json", MCPProvider::Warp).generation;
    let current_generation = tracker.begin_parse("/root/config.json", MCPProvider::Warp).generation;
    assert_ne!(
        stale_generation, current_generation,
        "the replacement must claim a fresh generation, not reuse A's"
    );

    let reclaimed =
        tracker.take_current_in_flight_parse("/root/config.json", MCPProvider::Warp, stale_generation);
    assert!(
        !reclaimed,
        "a stale callback must not be able to reclaim a source superseded by a replacement"
    );
    assert!(
        tracker.is_in_flight("/root/config.json", MCPProvider::Warp),
        "the stale callback must not have removed the replacement's own record"
    );
    assert!(
        tracker.is_pending("/root/config.json", MCPProvider::Warp),
        "the stale callback must not have claimed or settled the cohort obligation"
    );
    assert_eq!(
        tracker.finish_parse("/root/config.json", MCPProvider::Warp, stale_generation),
        ParseSettlement::Stale
    );

    assert_eq!(
        tracker.finish_parse("/root/config.json", MCPProvider::Warp, current_generation),
        current(FileMCPScanOrigin::InitialGlobal, true)
    );
}

#[test]
fn registration_failure_settles_stranded_subdir_provider_directly() {
    let config = "/home/test/.codex/config.toml";
    let mut tracker = FileMCPParseTracker::new();
    tracker.await_in_initial_scan(config, MCPProvider::Codex);

    let stranded = tracker.stranded_sources(&[(MCPProvider::Codex, config.to_string())]);
    assert_eq!(stranded, vec![(MCPProvider::Codex, config.to_string())]);

    let scheduled = tracker.begin_parse(config, MCPProvider::Codex);
    assert_eq!(
        tracker.finish_parse(config, MCPProvider::Codex, scheduled.generation),
        current(FileMCPScanOrigin::InitialGlobal, true),
        "the stranded source's direct parse must still be attributed to the initial global scan"
    );
}

#[test]
fn settle_stranded_subdir_configs_skips_an_already_settled_source() {
    let config = "/home/test/.codex/config.toml";
    let mut tracker = FileMCPParseTracker::new();
    tracker.await_in_initial_scan(config, MCPProvider::Codex);
    let scheduled = tracker.begin_parse(config, MCPProvider::Codex);
    assert_eq!(
        tracker.finish_parse(config, MCPProvider::Codex, scheduled.generation),
        current(FileMCPScanOrigin::InitialGlobal, true)
    );

    let stranded = tracker.stranded_sources(&[(MCPProvider::Codex, config.to_string())]);
    assert!(stranded.is_empty(), "the fallback must not re-read an already-settled source");
}

#[test]
fn stranded_sources_skip_sources_with_a_parse_in_flight() {
    let mut tracker = FileMCPParseTracker::new();
    tracker.await_in_initial_scan("/home/test/.codex/config.toml", MCPProvider::Codex);
    tracker.await_in_initial_scan("/home/test/.agents/.mcp.json", MCPProvider::Agents);
    tracker.begin_parse("/home/test/.codex/config.toml", MCPProvider::Codex);

    let stranded = tracker.stranded_sources(&[
        (MCPProvider::Codex, "/home/test/.codex/config.toml".to_string()),
        (MCPProvider::Agents, "/home/test/.agents/.mcp.json".to_string()),
        (MCPProvider::Claude, "/home/test/\x2eclaude.json".to_string()),
    ]);
    assert_eq!(
        stranded,
        vec![(MCPProvider::Agents, "/home/test/.agents/.mcp.json".to_string())]
    );
}

#[test]
fn aborted_initial_parse_without_replacement_settles_scan() {
    let config = "/tmp/removed-during-initial-scan.json";
    let mut tracker = FileMCPParseTracker::new();
    tracker.await_in_initial_scan(config, MCPProvider::Warp);
    let scheduled = tracker.begin_parse(config, MCPProvider::Warp);
    assert_eq!(scheduled.generation, 0);

    let (aborted, settled) = tracker.abort_config_parse_for_removal(config, MCPProvider::Warp);

    assert_eq!(aborted, Some(0));
    assert!(settled, "removal without a replacement must still settle the initial scan");
    assert!(!tracker.is_pending(config, MCPProvider::Warp));
}

#[test]
fn aborting_for_an_update_keeps_the_scan_waiting() {
    let config = "/root/config.json";
    let mut tracker = FileMCPParseTracker::new();
    tracker.await_in_initial_scan(config, MCPProvider::Warp);
    tracker.begin_parse(config, MCPProvider::Warp);

    assert_eq!(tracker.abort_config_parse(config, MCPProvider::Warp), Some(0));
    assert!(tracker.is_pending(config, MCPProvider::Warp));
    assert!(!tracker.maybe_emit_initial_global_scan_complete());
}

#[test]
fn sources_are_told_apart_by_provider() {
    let mut tracker = FileMCPParseTracker::new();
    tracker.await_in_initial_scan("/r/.mcp.json", MCPProvider::Warp);
    let claude = tracker.begin_parse("/r/.mcp.json", MCPProvider::Claude);

    assert_eq!(claude.superseded, None);
    assert!(!tracker.is_in_flight("/r/.mcp.json", MCPProvider::Warp));
    assert_eq!(
        tracker.finish_parse("/r/.mcp.json", MCPProvider::Claude, claude.generation),
        current(FileMCPScanOrigin::Incremental, false)
    );
    assert!(tracker.is_pending("/r/.mcp.json", MCPProvider::Warp));
}
