use std::collections::hash_map::DefaultHasher;
use std::hash::{Hash, Hasher};
use warp_usage::colors::{chart_palette, color_for_model, ChartColor};
use warp_usage::conversation::AIConversationId;
use warp_usage::popover::{PopoverEffect, UsagePopoverAction, UsagePopoverEvent, UsagePopoverView};
use warp_usage::token_count::format_token_count;
use warp_usage::usage_rows::{
    model, model_usage_rows, role_badge_for_model, rollup_footer_link, truncate_rollup_rows,
    ModelTokenUsage, RollupFooterLink, FULL_TERMINAL_USE_CATEGORY, PRIMARY_AGENT_CATEGORY,
    ROLLUP_TRUNCATION_CAP,
};
use warp_usage::usage_text::{
    charged_usage_breakdown, charged_usage_label, format_count_and_cost, format_tokens_and_cost,
    format_tokens_and_cost_text, model_row_label, response_time_visibility, rollup_footer_text,
    tool_call_summary_rows, total_conversation_tokens, ChargedUsageCategory, ChargedUsageCounts,
    ResponseTimeVisibility, SummaryRow, ToolCallSummary,
};

#[test]
fn color_for_model_is_deterministic() {
    assert_eq!(color_for_model("gpt-5.5"), color_for_model("gpt-5.5"));
}

#[test]
fn color_for_model_differs_across_distinct_models_in_practice() {
    // Not a strict guarantee (hash collisions are possible with only 6
    // buckets), but with these particular sample ids we expect at least
    // one pair to differ, guarding against an accidental constant return.
    let colors: Vec<_> = ["gpt-5.5", "gpt-5.3-codex", "auto", "kimi-k2.6"]
        .iter()
        .map(|id| color_for_model(id))
        .collect();
    assert!(colors.iter().any(|c| *c != colors[0]));
}

#[test]
fn color_for_model_picks_the_palette_entry_of_the_std_string_hash() {
    let palette = chart_palette();
    for id in ["gpt-5.5", "gpt-5.3-codex", "auto", "kimi-k2.6", "", "opus-4"] {
        let mut hasher = DefaultHasher::new();
        id.hash(&mut hasher);
        let expected = palette[(hasher.finish() as usize) % palette.len()];
        assert_eq!(color_for_model(id), expected, "{id}");
    }
}

#[test]
fn chart_palette_matches_the_chart_colors() {
    let palette = chart_palette();
    assert_eq!(palette[0], ChartColor { r: 0xff, g: 0x8f, b: 0xfd, a: 0xff });
    assert_eq!(palette[5], ChartColor { r: 0xff, g: 0x82, b: 0x72, a: 0xff });
}

fn no_costs() -> Vec<(String, f32)> {
    Vec::new()
}

#[test]
fn model_usage_rows_drops_zero_token_models() {
    let models = vec![
        model("gpt-5.5", 100, PRIMARY_AGENT_CATEGORY),
        ModelTokenUsage {
            model_id: "unused-model".to_string(),
            ..Default::default()
        },
    ];
    let rows = model_usage_rows(&models, &no_costs());
    assert_eq!(rows.len(), 1);
    assert_eq!(rows[0].model_id, "gpt-5.5");
}

#[test]
fn model_usage_rows_sorts_primary_agent_first() {
    let models = vec![
        model("codex-model", 50, FULL_TERMINAL_USE_CATEGORY),
        model("primary-model", 100, PRIMARY_AGENT_CATEGORY),
        model("auto-model", 10, "other_category"),
    ];
    let rows = model_usage_rows(&models, &no_costs());
    assert_eq!(rows[0].model_id, "primary-model");
    assert_eq!(rows[0].role_badge, Some("Primary agent"));
}

#[test]
fn model_usage_rows_assigns_full_terminal_use_badge() {
    let models = vec![model("codex-model", 50, FULL_TERMINAL_USE_CATEGORY)];
    let rows = model_usage_rows(&models, &no_costs());
    assert_eq!(rows[0].role_badge, Some("Full terminal use"));
}

#[test]
fn model_usage_rows_has_no_badge_for_unknown_categories() {
    let models = vec![model("auto-model", 10, "some_other_category")];
    let rows = model_usage_rows(&models, &no_costs());
    assert_eq!(rows[0].role_badge, None);
}

#[test]
fn model_usage_rows_joins_cost_by_model_id() {
    let models = vec![
        model("gpt-5.5", 100, PRIMARY_AGENT_CATEGORY),
        model("codex-model", 50, FULL_TERMINAL_USE_CATEGORY),
    ];
    let costs = vec![("gpt-5.5".to_string(), 36.0f32)];
    let rows = model_usage_rows(&models, &costs);
    let gpt_row = rows.iter().find(|r| r.model_id == "gpt-5.5").unwrap();
    let codex_row = rows.iter().find(|r| r.model_id == "codex-model").unwrap();
    assert_eq!(gpt_row.cost_in_cents, Some(36.0));
    assert_eq!(codex_row.cost_in_cents, None);
}

#[test]
fn model_usage_rows_orders_by_id_and_keeps_duplicates_in_model_order() {
    let mut first_b = model("b-model", 7, "x");
    first_b.byok_tokens = 3;
    let models = vec![
        model("c-model", 1, "x"),
        first_b,
        model("a-model", 2, PRIMARY_AGENT_CATEGORY),
        model("b-model", 5, "x"),
        model("a-primary", 4, PRIMARY_AGENT_CATEGORY),
    ];
    let rows = model_usage_rows(&models, &no_costs());
    let order: Vec<(&str, u64)> = rows.iter().map(|r| (r.model_id.as_str(), r.tokens)).collect();
    assert_eq!(
        order,
        vec![("a-model", 2), ("a-primary", 4), ("b-model", 10), ("b-model", 5), ("c-model", 1)]
    );
}

#[test]
fn model_usage_rows_sums_all_token_sources() {
    let mut m = model("m", 1, "x");
    m.byok_tokens = 2;
    m.custom_endpoint_tokens = u32::MAX;
    let rows = model_usage_rows(&[m], &no_costs());
    assert_eq!(rows[0].tokens, 3 + u32::MAX as u64);
}

#[test]
fn role_badge_prefers_primary_and_reads_every_source() {
    let mut m = model("m", 5, FULL_TERMINAL_USE_CATEGORY);
    assert_eq!(role_badge_for_model(&m), Some("Full terminal use"));
    m.custom_endpoint_token_usage_by_category = vec![(PRIMARY_AGENT_CATEGORY.to_string(), 1)];
    assert_eq!(role_badge_for_model(&m), Some("Primary agent"));
    let zero = model("z", 0, PRIMARY_AGENT_CATEGORY);
    assert_eq!(role_badge_for_model(&zero), None);
}

#[test]
fn model_row_label_appends_the_role() {
    let rows = model_usage_rows(&[model("gpt-5.5", 100, PRIMARY_AGENT_CATEGORY)], &no_costs());
    assert_eq!(model_row_label(&rows[0]), "gpt-5.5 (Primary agent)");
    let rows = model_usage_rows(&[model("auto", 1, "other")], &no_costs());
    assert_eq!(model_row_label(&rows[0]), "auto");
}

#[derive(Debug)]
#[allow(dead_code)]
struct PerAgentCreditEntry {
    conversation_id: AIConversationId,
    display_name: String,
    credits_spent: f32,
    cost_in_cents: Option<f32>,
    tokens: Option<u32>,
}

fn per_agent_entry(name: &str, credits: f32) -> PerAgentCreditEntry {
    PerAgentCreditEntry {
        conversation_id: AIConversationId::new(),
        display_name: name.to_string(),
        credits_spent: credits,
        cost_in_cents: None,
        tokens: None,
    }
}

#[test]
fn truncate_rollup_rows_shows_all_under_cap() {
    let entries: Vec<_> = (0..3)
        .map(|i| per_agent_entry(&format!("agent-{i}"), 1.0))
        .collect();
    let (shown, hidden) = truncate_rollup_rows(&entries, false);
    assert_eq!(shown.len(), 3);
    assert_eq!(hidden, 0);
}

#[test]
fn truncate_rollup_rows_truncates_over_cap_until_show_all() {
    let entries: Vec<_> = (0..8)
        .map(|i| per_agent_entry(&format!("agent-{i}"), 1.0))
        .collect();
    let (shown, hidden) = truncate_rollup_rows(&entries, false);
    assert_eq!(shown.len(), ROLLUP_TRUNCATION_CAP);
    assert_eq!(hidden, 3);

    let (shown_all, hidden_all) = truncate_rollup_rows(&entries, true);
    assert_eq!(shown_all.len(), 8);
    assert_eq!(hidden_all, 0);
}

#[test]
fn rollup_footer_offers_more_then_fewer() {
    assert_eq!(rollup_footer_link(8, false), RollupFooterLink::ShowMore(3));
    assert_eq!(rollup_footer_link(8, true), RollupFooterLink::ShowFewer);
    assert_eq!(rollup_footer_link(5, false), RollupFooterLink::NoLink);
    assert_eq!(rollup_footer_link(5, true), RollupFooterLink::NoLink);
}

#[test]
fn format_token_count_abbreviates_above_1000() {
    assert_eq!(format_token_count(500), "500");
    assert_eq!(format_token_count(9600), "9.6k");
    assert_eq!(format_token_count(1000), "1.0k");
}

#[test]
fn format_token_count_matches_float_formatting() {
    let mut samples: Vec<u64> = vec![
        0, 1, 9, 10, 999, 1000, 1049, 1050, 1051, 1149, 1150, 1250, 1750, 2250, 9949, 9950, 9999,
        10_050, 123_456, 999_950, 1_000_000, 9_007_199_254_740_991, 9_007_199_254_740_992,
        9_007_199_254_740_993, 18_014_398_509_481_983, 1_234_567_890_123_456_789,
        9_007_199_254_740_993_000, 18_446_744_073_709_551_615, 18_446_744_073_709_550_000,
    ];
    let mut x: u64 = 0x9E37_79B9_7F4A_7C15;
    for _ in 0..2000 {
        x ^= x << 13;
        x ^= x >> 7;
        x ^= x << 17;
        samples.push(x >> (x % 64));
        samples.push((x % 100_000) / 50 * 50);
    }
    for n in samples {
        let expected = if n >= 1000 {
            format!("{:.1}k", n as f64 / 1000.)
        } else {
            n.to_string()
        };
        assert_eq!(format_token_count(n), expected, "{n}");
    }
}

#[test]
fn format_tokens_and_cost_omits_dollar_suffix_when_flag_disabled() {
    assert_eq!(
        format_tokens_and_cost(Some(9600), Some("$0.36"), false),
        "9.6k tokens"
    );
}

#[test]
fn format_tokens_and_cost_joins_tokens_and_dollar_with_a_slash_when_flag_enabled() {
    assert_eq!(
        format_tokens_and_cost(Some(9600), Some("$0.36"), true),
        "9.6k tokens / $0.36"
    );
}

#[test]
fn format_tokens_and_cost_omits_dollar_suffix_when_cost_is_unknown() {
    assert_eq!(format_tokens_and_cost(Some(9600), None, true), "9.6k tokens");
}

#[test]
fn format_tokens_and_cost_falls_back_to_cost_only_when_tokens_are_unknown() {
    assert_eq!(format_tokens_and_cost(None, Some("$0.36"), true), "$0.36");
}

#[test]
fn format_tokens_and_cost_shows_em_dash_when_both_are_unknown() {
    assert_eq!(format_tokens_and_cost(None, None, true), "\u{2014}");
}

#[test]
fn format_tokens_and_cost_shows_em_dash_for_a_hidden_cost_without_tokens() {
    assert_eq!(format_tokens_and_cost(None, Some("$0.36"), false), "\u{2014}");
}

#[test]
fn format_tokens_and_cost_text_joins_whatever_is_known() {
    assert_eq!(format_tokens_and_cost_text(Some(999), Some("$1.00")), "999 tokens / $1.00");
    assert_eq!(format_tokens_and_cost_text(Some(1500), None), "1.5k tokens");
}

#[test]
fn format_count_and_cost_appends_the_dollar_figure_only_when_flag_enabled() {
    assert_eq!(format_count_and_cost(3, "searches", "$0.02", true), "3 searches / $0.02");
    assert_eq!(format_count_and_cost(3, "searches", "$0.02", false), "3 searches");
    assert_eq!(format_count_and_cost(0, "searches", "$0.00", true), "0 searches / $0.00");
}

#[test]
fn rollup_footer_texts_name_the_hidden_count() {
    assert_eq!(rollup_footer_text(RollupFooterLink::ShowMore(3)), Some("Show 3 more".to_string()));
    assert_eq!(rollup_footer_text(RollupFooterLink::ShowMore(12)), Some("Show 12 more".to_string()));
    assert_eq!(rollup_footer_text(RollupFooterLink::ShowFewer), Some("Show fewer".to_string()));
    assert_eq!(rollup_footer_text(RollupFooterLink::NoLink), None);
    assert_eq!(
        rollup_footer_text(rollup_footer_link(8, false)),
        Some("Show 3 more".to_string())
    );
}

#[test]
fn tool_call_summary_rows_show_counts_and_diffs_when_expanded() {
    let summary = ToolCallSummary {
        tool_calls: 12,
        files_changed: 3,
        lines_added: 40,
        lines_removed: 7,
        commands_executed: 5,
    };
    assert_eq!(
        tool_call_summary_rows(summary, true),
        vec![
            SummaryRow::Count { label: "Tool calls", value: "12".to_string() },
            SummaryRow::Count { label: "Files changed", value: "3".to_string() },
            SummaryRow::Diffs { added: "+40".to_string(), removed: "-7".to_string() },
            SummaryRow::Count { label: "Commands executed", value: "5".to_string() },
        ]
    );
    assert!(tool_call_summary_rows(summary, false).is_empty());
}

#[test]
fn diffs_row_prints_a_negative_count_with_its_sign() {
    let summary = ToolCallSummary {
        tool_calls: 0,
        files_changed: 0,
        lines_added: -2,
        lines_removed: 0,
        commands_executed: 0,
    };
    assert_eq!(
        tool_call_summary_rows(summary, true)[2],
        SummaryRow::Diffs { added: "+-2".to_string(), removed: "-0".to_string() }
    );
}

#[test]
fn total_tokens_sum_every_model() {
    let mut m = model("a", 10, "x");
    m.byok_tokens = 5;
    let models = vec![m, model("b", 7, "y")];
    assert_eq!(total_conversation_tokens(&models), 22);
    assert_eq!(total_conversation_tokens(&[]), 0);
}

#[test]
fn response_time_section_hides_when_all_timings_are_zero() {
    assert_eq!(response_time_visibility(0, 0, None), ResponseTimeVisibility::Hidden);
    assert_eq!(response_time_visibility(0, 0, Some(0)), ResponseTimeVisibility::Hidden);
    assert_eq!(
        response_time_visibility(0, 0, Some(5)),
        ResponseTimeVisibility::Shown { wall_time_row: true }
    );
    assert_eq!(
        response_time_visibility(12, 0, None),
        ResponseTimeVisibility::Shown { wall_time_row: false }
    );
}

#[test]
fn popover_starts_expanded_and_toggles_back() {
    let id = AIConversationId::new();
    let mut view = UsagePopoverView::new(id);
    assert!(view.model_usage_section_expanded());
    assert!(view.tool_call_summary_section_expanded());
    assert!(view.response_time_section_expanded());
    assert!(!view.rollup_show_all());

    let toggle = UsagePopoverAction::ToggleModelUsageSection;
    assert_eq!(view.handle_action(&toggle), PopoverEffect::Notify);
    assert!(!view.model_usage_section_expanded());
    view.handle_action(&toggle);
    assert!(view.model_usage_section_expanded());

    view.handle_action(&UsagePopoverAction::ShowAllRollupAgents);
    view.handle_action(&UsagePopoverAction::ShowAllRollupAgents);
    assert!(view.rollup_show_all());
    view.handle_action(&UsagePopoverAction::ShowFewerRollupAgents);
    assert!(!view.rollup_show_all());
}

#[test]
fn popover_model_expansion_toggles_per_model() {
    let mut view = UsagePopoverView::new(AIConversationId::new());
    let a = UsagePopoverAction::ToggleModelExpanded("gpt-5.5".to_string());
    let b = UsagePopoverAction::ToggleModelExpanded("auto".to_string());
    view.handle_action(&a);
    view.handle_action(&b);
    assert!(view.is_model_expanded("gpt-5.5"));
    assert!(view.is_model_expanded("auto"));
    view.handle_action(&a);
    assert!(!view.is_model_expanded("gpt-5.5"));
    assert!(view.is_model_expanded("auto"));
}

#[test]
fn popover_close_request_emits_close_and_reset_restores_defaults() {
    let first = AIConversationId::new();
    let second = AIConversationId::new();
    let mut view = UsagePopoverView::new(first);
    assert_eq!(
        view.handle_action(&UsagePopoverAction::RequestClose),
        PopoverEffect::Emit(UsagePopoverEvent::Close)
    );
    view.handle_action(&UsagePopoverAction::ToggleResponseTimeSection);
    view.handle_action(&UsagePopoverAction::ToggleModelExpanded("m".to_string()));
    assert_eq!(view.reset_for_conversation(second), PopoverEffect::Notify);
    assert_eq!(view.conversation_id(), second);
    assert!(view.response_time_section_expanded());
    assert!(!view.is_model_expanded("m"));
}

#[test]
fn charged_usage_breakdown_omits_categories_the_model_did_not_incur() {
    let counts = ChargedUsageCounts {
        input_tokens: 1200,
        output_tokens: 0,
        input_cache_read_tokens: 0,
        input_cache_write_tokens: 5,
        web_search_count: 3,
    };
    assert_eq!(
        charged_usage_breakdown(counts),
        vec![
            (ChargedUsageCategory::InputTokens, 1200),
            (ChargedUsageCategory::CacheWriteTokens, 5),
            (ChargedUsageCategory::WebSearches, 3),
        ]
    );

    let none = ChargedUsageCounts {
        input_tokens: 0,
        output_tokens: 0,
        input_cache_read_tokens: 0,
        input_cache_write_tokens: 0,
        web_search_count: 0,
    };
    assert!(charged_usage_breakdown(none).is_empty());
}

#[test]
fn charged_usage_rows_keep_display_order_and_labels() {
    let all = ChargedUsageCounts {
        input_tokens: 1,
        output_tokens: 2,
        input_cache_read_tokens: 3,
        input_cache_write_tokens: 4,
        web_search_count: 5,
    };
    let labels: Vec<&str> = charged_usage_breakdown(all)
        .into_iter()
        .map(|(category, _)| charged_usage_label(category))
        .collect();
    assert_eq!(
        labels,
        vec![
            "Input tokens",
            "Output tokens",
            "Cache read tokens",
            "Cache write tokens",
            "Web searches"
        ]
    );
}
