use warp_usage::conversation::{fixed_conversation_id, reusable_bootstrap_conversation, AIConversationId};
use warp_usage::mcp::{
    home_subdir_to_watch, join, providers_in_scope, should_watch_repository, MCPProvider,
    RepoDetectionSource, SettingsMode,
};
use warp_usage::tombstone::{
    data_with_conversation_values, pr_artifact, task_without_run_time_or_credits,
    AmbientAgentTask, AmbientAgentTaskState, TaskStatusMessage, TombstoneDisplayData,
};

/// The very first no-token bootstrap prompt for a task has nothing recorded yet, so it must
/// always fall through to starting a new conversation.
#[test]
fn no_recorded_conversation_means_no_reuse() {
    let reused = reusable_bootstrap_conversation(None, |_| {
        panic!("must not look up a conversation when nothing is recorded")
    });

    assert_eq!(reused, None);
}

#[test]
fn retry_reuses_recorded_conversation_without_a_token_yet() {
    let recorded = fixed_conversation_id();

    let reused = reusable_bootstrap_conversation(Some(recorded), |conversation_id| {
        assert_eq!(conversation_id, recorded);
        Some(false)
    });

    assert_eq!(
        reused,
        Some(recorded),
        "a retry must reuse the still-untokened conversation from a prior delivery"
    );
}

#[test]
fn tokened_conversation_is_not_reused() {
    let recorded = fixed_conversation_id();

    let reused = reusable_bootstrap_conversation(Some(recorded), |conversation_id| {
        assert_eq!(conversation_id, recorded);
        Some(true)
    });

    assert_eq!(
        reused, None,
        "a conversation that already has a server token must not be reused"
    );
}

#[test]
fn vanished_conversation_is_not_reused() {
    let recorded = fixed_conversation_id();

    let reused = reusable_bootstrap_conversation(Some(recorded), |_| None);

    assert_eq!(
        reused, None,
        "a conversation that can no longer be found must not be reused"
    );
}

#[test]
fn conversation_ids_are_random_version_4_uuids() {
    let a = AIConversationId::new();
    let b = AIConversationId::new();
    assert_ne!(a, b);
    assert_eq!((a.value >> 76) & 0xf, 4);
    assert_eq!((a.value >> 62) & 3, 2);
}

fn task_with_run_time_and_credits() -> AmbientAgentTask {
    AmbientAgentTask {
        state: AmbientAgentTaskState::Succeeded,
        status_message: None,
        run_time: Some(TASK_RUN_TIME.to_string()),
        credits: Some(TASK_CREDITS.to_string()),
        artifacts: vec![],
    }
}

#[test]
fn task_failure_status_message_overrides_conversation_error() {
    let mut task = task_with_run_time_and_credits();
    task.state = AmbientAgentTaskState::Failed;
    task.status_message = Some(TaskStatusMessage {
        message: "task failed".to_string(),
    });
    let mut data = TombstoneDisplayData {
        is_error: true,
        error_message: Some("setup failed".to_string()),
        ..Default::default()
    };

    data.enrich_from_task(task);

    assert!(data.is_error);
    assert_eq!(data.error_message.as_deref(), Some("task failed"));
}

#[test]
fn conversation_values_preserved_when_task_lacks_run_time_and_credits() {
    let task = task_without_run_time_or_credits();
    let mut data = data_with_conversation_values();

    data.enrich_from_task(task);

    assert_eq!(data.run_time.as_deref(), Some("conv run time"));
    assert_eq!(data.credits.as_deref(), Some("conv credits"));
}

/// The run time and credit texts the task in these tests reports (a run time
/// of 42 seconds, and 1.5 + 3.0 + 2.5 credits of usage).
const TASK_RUN_TIME: &str = "42.0 sec";
const TASK_CREDITS: &str = "7 credits";

#[test]
fn task_overrides_run_time_and_credits_when_present() {
    let task = task_with_run_time_and_credits();
    let mut data = data_with_conversation_values();

    data.enrich_from_task(task);

    assert_eq!(data.run_time.as_deref(), Some(TASK_RUN_TIME));
    assert_eq!(data.credits.as_deref(), Some(TASK_CREDITS));
    assert!(!data.is_error);
}

#[test]
fn empty_defaults_populated_from_task_for_non_oz() {
    let task = task_with_run_time_and_credits();
    let mut data = TombstoneDisplayData::default();

    data.enrich_from_task(task);

    assert_eq!(data.run_time.as_deref(), Some(TASK_RUN_TIME));
    assert_eq!(data.credits.as_deref(), Some(TASK_CREDITS));
}

#[test]
fn task_artifacts_populate_empty_defaults() {
    let mut task = task_with_run_time_and_credits();
    task.artifacts = vec![pr_artifact("feature/foo")];
    let expected_artifacts = task.artifacts.clone();
    let mut data = TombstoneDisplayData::default();

    data.enrich_from_task(task);

    assert_eq!(data.artifacts, expected_artifacts);
}

#[test]
fn task_artifacts_override_conversation_artifacts() {
    let mut task = task_with_run_time_and_credits();
    task.artifacts = vec![pr_artifact("task-branch")];
    let expected_artifacts = task.artifacts.clone();
    let mut data = TombstoneDisplayData {
        artifacts: vec![pr_artifact("conv-branch")],
        ..Default::default()
    };

    data.enrich_from_task(task);

    assert_eq!(data.artifacts, expected_artifacts);
}

#[test]
fn empty_task_artifacts_preserve_conversation_artifacts() {
    let task = task_with_run_time_and_credits();
    assert!(task.artifacts.is_empty());
    let conversation_artifacts = vec![pr_artifact("conv-branch")];
    let mut data = TombstoneDisplayData {
        artifacts: conversation_artifacts.clone(),
        ..Default::default()
    };

    data.enrich_from_task(task);

    assert_eq!(data.artifacts, conversation_artifacts);
}

#[test]
fn pr_artifact_points_at_the_branch_pull_request() {
    let warp_usage::tombstone::Artifact::PullRequest { url, branch, repo, number } = pr_artifact("feature/foo");
    assert_eq!(url, "https://github.com/example/repo/pull/feature/foo");
    assert_eq!(branch, "feature/foo");
    assert_eq!(repo.as_deref(), Some("example/repo"));
    assert_eq!(number, None);
}

#[test]
fn repository_discovery_is_surface_aware() {
    assert!(should_watch_repository(RepoDetectionSource::TerminalNavigation, SettingsMode::Gui));
    assert!(should_watch_repository(RepoDetectionSource::CloudEnvironmentPrep, SettingsMode::Gui));
    assert!(!should_watch_repository(RepoDetectionSource::ProjectRulesIndexing, SettingsMode::Gui));
    assert!(!should_watch_repository(RepoDetectionSource::CodeReviewInitialization, SettingsMode::Gui));

    assert!(should_watch_repository(RepoDetectionSource::TerminalNavigation, SettingsMode::Tui));
    assert!(!should_watch_repository(RepoDetectionSource::ProjectRulesIndexing, SettingsMode::Tui));
    assert!(!should_watch_repository(RepoDetectionSource::CodeReviewInitialization, SettingsMode::Tui));
    assert!(!should_watch_repository(RepoDetectionSource::CloudEnvironmentPrep, SettingsMode::Tui));
}

#[test]
fn global_provider_initial_scans_cover_claude_codex_and_agents() {
    let home = "/home/test";

    assert_eq!(home_subdir_to_watch(MCPProvider::Claude), None);
    assert_eq!(
        join(home, MCPProvider::Claude.home_config_path()),
        join(home, "\x2eclaude.json")
    );

    for (provider, subdir, config) in [
        (MCPProvider::Codex, ".codex", ".codex/config.toml"),
        (MCPProvider::Agents, ".agents", ".agents/.mcp.json"),
    ] {
        assert_eq!(home_subdir_to_watch(provider), Some(subdir));
        let discovered = providers_in_scope(home, &join(home, subdir));
        assert!(
            discovered.contains(&(provider, join(home, config))),
            "{provider:?} config should be included in its home subdirectory scan"
        );
    }
}

#[test]
fn project_initial_scan_covers_each_supported_provider_config() {
    let repo = "/work/repository";
    let discovered = providers_in_scope(repo, repo);

    for provider in [
        MCPProvider::Warp,
        MCPProvider::Claude,
        MCPProvider::Codex,
        MCPProvider::Agents,
    ] {
        assert!(
            discovered.contains(&(provider, join(repo, provider.project_config_path()))),
            "{provider:?} project config should be included in a repository scan"
        );
    }
}

#[test]
fn scans_stay_within_their_directory() {
    let discovered = providers_in_scope("/home/test", "/home/test/.codex");
    assert_eq!(discovered, vec![(MCPProvider::Codex, "/home/test/.codex/config.toml".to_string())]);
    assert!(providers_in_scope("/home/test", "/home/test/.cod").is_empty());
    assert_eq!(join("/r/", ".mcp.json"), "/r/.mcp.json");
    assert_eq!(join("", ".mcp.json"), ".mcp.json");
}
