//! Value texts and small display decisions of the usage popover.

use vstd::prelude::*;
use crate::text::{decimal, push_decimal, push_str, string_from};
use crate::token_count::{format_token_count, token_count_text};
use crate::usage_rows::{ModelTokenUsage, ModelUsageRow, RollupFooterLink, model_tokens};

verus! {

/// The value text of a usage row from its token count and its cost text (the
/// dollar figure, when it is known and shown): `"<count> tokens / <cost>"`, or
/// whichever of the two is known, or an em dash when neither is.
pub open spec fn tokens_and_cost_text(tokens: Option<u64>, cost_text: Option<Seq<char>>) -> Seq<char> {
    match (tokens, cost_text) {
        (Some(t), Some(c)) => token_count_text(t as nat) + " tokens / "@ + c,
        (Some(t), None) => token_count_text(t as nat) + " tokens"@,
        (None, Some(c)) => c,
        (None, None) => seq!['\u{2014}'],
    }
}

/// Joins a token count and a cost text into a row's value text (see
/// [`tokens_and_cost_text`]); `"9.6k tokens / $0.36"` for 9600 tokens at `"$0.36"`.
pub fn format_tokens_and_cost_text(tokens: Option<u64>, cost_text: Option<&str>) -> (s: String)
    ensures
        s@ == tokens_and_cost_text(tokens, match cost_text { Some(c) => Some(c@), None => None }),
{
    match (tokens, cost_text) {
        (Some(t), Some(c)) => {
            let mut s = format_token_count(t);
            push_str(&mut s, " tokens / ");
            push_str(&mut s, c);
            s
        },
        (Some(t), None) => {
            let mut s = format_token_count(t);
            push_str(&mut s, " tokens");
            s
        },
        (None, Some(c)) => string_from(c),
        (None, None) => {
            let s = string_from("\u{2014}");
            proof { reveal_strlit("\u{2014}"); }
            assert(s@ =~= seq!['\u{2014}']);
            s
        },
    }
}

/// The cost text a value shows: the known cost text, only while pricing
/// transparency is on.
pub open spec fn shown_cost(cost_text: Option<&str>, pricing_transparency: bool) -> Option<Seq<char>> {
    if pricing_transparency {
        match cost_text {
            Some(c) => Some(c@),
            None => None,
        }
    } else {
        None
    }
}

/// Formats a token count alongside its dollar cost text (see
/// [`tokens_and_cost_text`]); the dollar figure is left out entirely when
/// pricing transparency is off, even when the cost is known.
pub fn format_tokens_and_cost(tokens: Option<u64>, cost_text: Option<&str>, pricing_transparency: bool) -> (s: String)
    ensures
        s@ == tokens_and_cost_text(tokens, shown_cost(cost_text, pricing_transparency)),
{
    if pricing_transparency {
        format_tokens_and_cost_text(tokens, cost_text)
    } else {
        format_tokens_and_cost_text(tokens, None)
    }
}

/// The value text of a breakdown row counted in `unit`: `"<count> <unit>"`,
/// followed by `" / <cost>"` while pricing transparency is on.
pub open spec fn count_and_cost_text(count: u32, unit: Seq<char>, cost_text: Seq<char>, pricing_transparency: bool) -> Seq<char> {
    let count_text = decimal(count as nat) + " "@ + unit;
    if pricing_transparency {
        count_text + " / "@ + cost_text
    } else {
        count_text
    }
}

/// Formats a count alongside its dollar cost text, e.g. `"3 searches / $0.02"`
/// (see [`count_and_cost_text`]).
pub fn format_count_and_cost(count: u32, unit: &str, cost_text: &str, pricing_transparency: bool) -> (s: String)
    ensures
        s@ == count_and_cost_text(count, unit@, cost_text@, pricing_transparency),
{
    let mut s = String::new();
    push_decimal(&mut s, count as u128);
    push_str(&mut s, " ");
    push_str(&mut s, unit);
    if pricing_transparency {
        push_str(&mut s, " / ");
        push_str(&mut s, cost_text);
    }
    assert(s@ =~= count_and_cost_text(count, unit@, cost_text@, pricing_transparency));
    s
}

/// The text of the link under the per-agent rollup rows: `"Show N more"` with
/// the hidden count, `"Show fewer"`, or none.
pub fn rollup_footer_text(link: RollupFooterLink) -> (t: Option<String>)
    ensures
        match link {
            RollupFooterLink::ShowMore(n) => t matches Some(s) && s@ == "Show "@ + decimal(n as nat) + " more"@,
            RollupFooterLink::ShowFewer => t matches Some(s) && s@ == "Show fewer"@,
            RollupFooterLink::NoLink => t is None,
        },
{
    match link {
        RollupFooterLink::ShowMore(n) => {
            let mut s = string_from("Show ");
            push_decimal(&mut s, n as u128);
            push_str(&mut s, " more");
            Some(s)
        },
        RollupFooterLink::ShowFewer => Some(string_from("Show fewer")),
        RollupFooterLink::NoLink => None,
    }
}

/// The decimal text of a signed number, with a leading `-` when negative.
pub open spec fn signed_decimal(n: int) -> Seq<char> {
    if n < 0 { "-"@ + decimal((-n) as nat) } else { decimal(n as nat) }
}

fn push_signed(s: &mut String, n: i32)
    ensures
        final(s)@ == old(s)@ + signed_decimal(n as int),
{
    if n < 0 {
        push_str(s, "-");
        let m: i64 = -(n as i64);
        push_decimal(s, m as u128);
        assert(s@ =~= old(s)@ + signed_decimal(n as int));
    } else {
        push_decimal(s, n as u128);
    }
}

/// The figures of the TOOL CALL SUMMARY section.
#[derive(Clone, Copy, Debug, PartialEq, Eq, Structural)]
pub struct ToolCallSummary {
    pub tool_calls: u64,
    pub files_changed: u64,
    pub lines_added: i32,
    pub lines_removed: i32,
    pub commands_executed: u64,
}

/// A row of the TOOL CALL SUMMARY section.
#[derive(Clone, Debug, PartialEq, Eq)]
pub enum SummaryRow {
    /// A label with a count text.
    Count { label: &'static str, value: String },
    /// The "Diffs applied" row: the added (`+N`) and removed (`-N`) line texts.
    Diffs { added: String, removed: String },
}

/// Whether `row` is the count row with `label` and `value`.
pub open spec fn is_count_row(row: SummaryRow, label: Seq<char>, value: Seq<char>) -> bool {
    row matches SummaryRow::Count { label: l, value: v } && l@ == label && v@ == value
}

fn count_row(label: &'static str, n: u64) -> (row: SummaryRow)
    ensures
        is_count_row(row, label@, decimal(n as nat)),
{
    let mut value = String::new();
    push_decimal(&mut value, n as u128);
    SummaryRow::Count { label, value }
}

/// The rows under the TOOL CALL SUMMARY header: none while the section is
/// collapsed; otherwise "Tool calls", "Files changed", "Diffs applied" (`+added`
/// and `-removed`) and "Commands executed", in that order.
pub fn tool_call_summary_rows(summary: ToolCallSummary, expanded: bool) -> (rows: Vec<SummaryRow>)
    ensures
        !expanded ==> rows@.len() == 0,
        expanded ==> {
            &&& rows@.len() == 4
            &&& is_count_row(rows@[0], "Tool calls"@, decimal(summary.tool_calls as nat))
            &&& is_count_row(rows@[1], "Files changed"@, decimal(summary.files_changed as nat))
            &&& rows@[2] matches SummaryRow::Diffs { added, removed }
                && added@ == "+"@ + signed_decimal(summary.lines_added as int)
                && removed@ == "-"@ + signed_decimal(summary.lines_removed as int)
            &&& is_count_row(rows@[3], "Commands executed"@, decimal(summary.commands_executed as nat))
        },
{
    let mut rows: Vec<SummaryRow> = Vec::new();
    if !expanded {
        return rows;
    }
    rows.push(count_row("Tool calls", summary.tool_calls));
    rows.push(count_row("Files changed", summary.files_changed));
    let mut added = string_from("+");
    push_signed(&mut added, summary.lines_added);
    let mut removed = string_from("-");
    push_signed(&mut removed, summary.lines_removed);
    rows.push(SummaryRow::Diffs { added, removed });
    rows.push(count_row("Commands executed", summary.commands_executed));
    rows
}

/// The label of a per-model row: the model id, followed by its role pill text
/// in parentheses when it has one.
pub fn model_row_label<C>(row: &ModelUsageRow<C>) -> (label: String)
    ensures
        label@ == match row.role_badge {
            Some(role) => row.model_id@ + " ("@ + role@ + ")"@,
            None => row.model_id@,
        },
{
    let mut s = row.model_id.clone();
    match row.role_badge {
        Some(role) => {
            push_str(&mut s, " (");
            push_str(&mut s, role);
            push_str(&mut s, ")");
        },
        None => {},
    }
    s
}

/// Tokens of a conversation's models, summed over warp, BYOK and custom-endpoint usage.
pub open spec fn conversation_tokens(models: Seq<ModelTokenUsage>) -> nat
    decreases models.len(),
{
    if models.len() == 0 {
        0
    } else {
        conversation_tokens(models.drop_last()) + model_tokens(models.last())
    }
}

/// The conversation-wide token total shown in the "Total Usage" row.
pub fn total_conversation_tokens(models: &[ModelTokenUsage]) -> (total: u64)
    requires
        conversation_tokens(models@) <= u64::MAX,
    ensures
        total == conversation_tokens(models@),
{
    let mut total: u64 = 0;
    let mut i: usize = 0;
    while i < models.len()
        invariant
            i <= models.len(),
            total == conversation_tokens(models@.take(i as int)),
            conversation_tokens(models@) <= u64::MAX,
        decreases models.len() - i,
    {
        assert(models@.take(i + 1).drop_last() =~= models@.take(i as int));
        proof {
            lemma_conversation_tokens_prefix(models@, i + 1);
        }
        let m = &models[i];
        total = total + (m.warp_tokens as u64 + m.byok_tokens as u64 + m.custom_endpoint_tokens as u64);
        i = i + 1;
    }
    assert(models@.take(models@.len() as int) =~= models@);
    total
}

proof fn lemma_conversation_tokens_prefix(models: Seq<ModelTokenUsage>, n: int)
    requires
        0 <= n <= models.len(),
    ensures
        conversation_tokens(models.take(n)) <= conversation_tokens(models),
    decreases models.len(),
{
    if n < models.len() {
        assert(models.drop_last().take(n) =~= models.take(n));
        lemma_conversation_tokens_prefix(models.drop_last(), n);
    } else {
        assert(models.take(n) =~= models);
    }
}

/// The token and web-search counts of a model's charged usage.
#[derive(Clone, Copy, Debug, PartialEq, Eq, Structural)]
pub struct ChargedUsageCounts {
    pub input_tokens: u32,
    pub output_tokens: u32,
    pub input_cache_read_tokens: u32,
    pub input_cache_write_tokens: u32,
    pub web_search_count: u32,
}

/// A row of a model's charged-usage breakdown.
#[derive(Clone, Copy, Debug, PartialEq, Eq, Structural)]
pub enum ChargedUsageCategory {
    InputTokens,
    OutputTokens,
    CacheReadTokens,
    CacheWriteTokens,
    WebSearches,
}

/// The label of a breakdown row.
pub fn charged_usage_label(category: ChargedUsageCategory) -> (label: &'static str)
    ensures
        label@ == match category {
            ChargedUsageCategory::InputTokens => "Input tokens"@,
            ChargedUsageCategory::OutputTokens => "Output tokens"@,
            ChargedUsageCategory::CacheReadTokens => "Cache read tokens"@,
            ChargedUsageCategory::CacheWriteTokens => "Cache write tokens"@,
            ChargedUsageCategory::WebSearches => "Web searches"@,
        },
{
    match category {
        ChargedUsageCategory::InputTokens => "Input tokens",
        ChargedUsageCategory::OutputTokens => "Output tokens",
        ChargedUsageCategory::CacheReadTokens => "Cache read tokens",
        ChargedUsageCategory::CacheWriteTokens => "Cache write tokens",
        ChargedUsageCategory::WebSearches => "Web searches",
    }
}

/// The row of `category` with `count`, present only when the model incurred it.
pub open spec fn row_if_incurred(category: ChargedUsageCategory, count: u32) -> Seq<(ChargedUsageCategory, u32)> {
    if count > 0 { seq![(category, count)] } else { Seq::empty() }
}

/// The breakdown rows of a model's charged usage: input, output, cache read and
/// cache write tokens, then web searches, each only when its count is nonzero.
pub open spec fn breakdown_rows(c: ChargedUsageCounts) -> Seq<(ChargedUsageCategory, u32)> {
    row_if_incurred(ChargedUsageCategory::InputTokens, c.input_tokens)
        + row_if_incurred(ChargedUsageCategory::OutputTokens, c.output_tokens)
        + row_if_incurred(ChargedUsageCategory::CacheReadTokens, c.input_cache_read_tokens)
        + row_if_incurred(ChargedUsageCategory::CacheWriteTokens, c.input_cache_write_tokens)
        + row_if_incurred(ChargedUsageCategory::WebSearches, c.web_search_count)
}

fn push_if_incurred(rows: &mut Vec<(ChargedUsageCategory, u32)>, category: ChargedUsageCategory, count: u32)
    ensures
        final(rows)@ == old(rows)@ + row_if_incurred(category, count),
{
    if count > 0 {
        rows.push((category, count));
    }
    assert(rows@ =~= old(rows)@ + row_if_incurred(category, count));
}

/// The rows shown beneath an expanded per-model row, in display order; a
/// category the model did not incur has no row.
pub fn charged_usage_breakdown(counts: ChargedUsageCounts) -> (rows: Vec<(ChargedUsageCategory, u32)>)
    ensures
        rows@ == breakdown_rows(counts),
{
    let mut rows: Vec<(ChargedUsageCategory, u32)> = Vec::new();
    push_if_incurred(&mut rows, ChargedUsageCategory::InputTokens, counts.input_tokens);
    push_if_incurred(&mut rows, ChargedUsageCategory::OutputTokens, counts.output_tokens);
    push_if_incurred(&mut rows, ChargedUsageCategory::CacheReadTokens, counts.input_cache_read_tokens);
    push_if_incurred(&mut rows, ChargedUsageCategory::CacheWriteTokens, counts.input_cache_write_tokens);
    push_if_incurred(&mut rows, ChargedUsageCategory::WebSearches, counts.web_search_count);
    assert(rows@ =~= breakdown_rows(counts));
    rows
}

/// Whether the RESPONSE TIME section is shown, and whether it has the "Total
/// time (including tool calls)" row.
#[derive(Clone, Copy, Debug, PartialEq, Eq, Structural)]
pub enum ResponseTimeVisibility {
    Hidden,
    Shown { wall_time_row: bool },
}

/// The section is hidden when every timing is zero (a missing wall-to-wall time
/// counts as zero); the wall-to-wall row appears only for a known, nonzero time.
pub fn response_time_visibility(ttft_ms: u64, response_ms: u64, wall_ms: Option<u64>) -> (v: ResponseTimeVisibility)
    ensures
        (ttft_ms == 0 && response_ms == 0 && (wall_ms is None || wall_ms == Some(0u64))) <==> v is Hidden,
        v matches ResponseTimeVisibility::Shown { wall_time_row } ==> wall_time_row == (wall_ms matches Some(w) && w != 0),
{
    let wall = match wall_ms {
        Some(w) => w,
        None => 0,
    };
    if ttft_ms == 0 && response_ms == 0 && wall == 0 {
        ResponseTimeVisibility::Hidden
    } else {
        ResponseTimeVisibility::Shown { wall_time_row: wall != 0 }
    }
}

/// The Total Usage figure adds up every model's warp, BYOK and custom-endpoint
/// tokens: nothing for no models, and each further model adds its three counts.
pub proof fn lemma_conversation_tokens_adds_every_source(models: Seq<ModelTokenUsage>, m: ModelTokenUsage)
    ensures
        conversation_tokens(Seq::<ModelTokenUsage>::empty()) == 0,
        conversation_tokens(models.push(m))
            == conversation_tokens(models) + m.warp_tokens + m.byok_tokens + m.custom_endpoint_tokens,
{
    assert(models.push(m).drop_last() =~= models);
}

/// A breakdown row appears for a category exactly when its count is nonzero,
/// carrying that count; every row has a nonzero count; and when the model
/// incurred everything the rows are input, output, cache read, cache write and
/// web searches, in that order.
pub proof fn lemma_breakdown_rows_are_the_incurred_categories(c: ChargedUsageCounts)
    ensures
        forall|i: int| 0 <= i < breakdown_rows(c).len() ==> (#[trigger] breakdown_rows(c)[i]).1 > 0,
        breakdown_rows(c).contains((ChargedUsageCategory::InputTokens, c.input_tokens)) <==> c.input_tokens > 0,
        breakdown_rows(c).contains((ChargedUsageCategory::OutputTokens, c.output_tokens)) <==> c.output_tokens > 0,
        breakdown_rows(c).contains((ChargedUsageCategory::CacheReadTokens, c.input_cache_read_tokens)) <==> c.input_cache_read_tokens > 0,
        breakdown_rows(c).contains((ChargedUsageCategory::CacheWriteTokens, c.input_cache_write_tokens)) <==> c.input_cache_write_tokens > 0,
        breakdown_rows(c).contains((ChargedUsageCategory::WebSearches, c.web_search_count)) <==> c.web_search_count > 0,
        c.input_tokens > 0 && c.output_tokens > 0 && c.input_cache_read_tokens > 0
            && c.input_cache_write_tokens > 0 && c.web_search_count > 0 ==> breakdown_rows(c) == seq![
                (ChargedUsageCategory::InputTokens, c.input_tokens),
                (ChargedUsageCategory::OutputTokens, c.output_tokens),
                (ChargedUsageCategory::CacheReadTokens, c.input_cache_read_tokens),
                (ChargedUsageCategory::CacheWriteTokens, c.input_cache_write_tokens),
                (ChargedUsageCategory::WebSearches, c.web_search_count),
            ],
{
    let a = row_if_incurred(ChargedUsageCategory::InputTokens, c.input_tokens);
    let b = row_if_incurred(ChargedUsageCategory::OutputTokens, c.output_tokens);
    let d = row_if_incurred(ChargedUsageCategory::CacheReadTokens, c.input_cache_read_tokens);
    let e = row_if_incurred(ChargedUsageCategory::CacheWriteTokens, c.input_cache_write_tokens);
    let f = row_if_incurred(ChargedUsageCategory::WebSearches, c.web_search_count);
    let rows = breakdown_rows(c);
    assert(rows =~= a + b + d + e + f);
    let la = a.len() as int;
    let lb = b.len() as int;
    let ld = d.len() as int;
    let le = e.len() as int;
    assert forall|i: int| 0 <= i < rows.len() implies (#[trigger] rows[i]).1 > 0 by {
        if i < la {
            assert(rows[i] == a[i]);
        } else if i < la + lb {
            assert(rows[i] == b[i - la]);
        } else if i < la + lb + ld {
            assert(rows[i] == d[i - la - lb]);
        } else if i < la + lb + ld + le {
            assert(rows[i] == e[i - la - lb - ld]);
        } else {
            assert(rows[i] == f[i - la - lb - ld - le]);
        }
    }
    if c.input_tokens > 0 { assert(rows[0] == a[0]); }
    if c.output_tokens > 0 { assert(rows[la] == b[0]); }
    if c.input_cache_read_tokens > 0 { assert(rows[la + lb] == d[0]); }
    if c.input_cache_write_tokens > 0 { assert(rows[la + lb + ld] == e[0]); }
    if c.web_search_count > 0 { assert(rows[la + lb + ld + le] == f[0]); }
}

} // verus!
