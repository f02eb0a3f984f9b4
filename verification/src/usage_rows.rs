//! The per-model rows of the usage popover's MODEL USAGE section and the
//! truncation of the per-agent rollup list.

use vstd::prelude::*;
use crate::text::{str_equal, chars_of, string_from};
use crate::lex::{lex_lt, lex_less, lemma_lex_irreflexive, lemma_lex_asymmetric, lemma_lex_transitive, lemma_lex_total};

verus! {

/// Token-usage category of the primary agent.
pub const PRIMARY_AGENT_CATEGORY: &'static str = "primary_agent";

/// Token-usage category of full terminal use.
pub const FULL_TERMINAL_USE_CATEGORY: &'static str = "full_terminal_use";

/// Maximum number of per-agent rollup rows shown before the rest are hidden
/// behind "Show N more".
pub const ROLLUP_TRUNCATION_CAP: usize = 5;

/// Per-conversation token usage of one model. The category lists map a usage
/// category to its token count; when a category occurs more than once, its first
/// entry counts.
#[derive(Clone, Debug)]
pub struct ModelTokenUsage {
    pub model_id: String,
    pub warp_tokens: u32,
    pub byok_tokens: u32,
    pub custom_endpoint_tokens: u32,
    pub warp_token_usage_by_category: Vec<(String, u32)>,
    pub byok_token_usage_by_category: Vec<(String, u32)>,
    pub custom_endpoint_token_usage_by_category: Vec<(String, u32)>,
}

impl Default for ModelTokenUsage {
    fn default() -> (m: Self)
        ensures
            m.model_id@ == Seq::<char>::empty(),
            m.warp_tokens == 0,
            m.byok_tokens == 0,
            m.custom_endpoint_tokens == 0,
            m.warp_token_usage_by_category@.len() == 0,
            m.byok_token_usage_by_category@.len() == 0,
            m.custom_endpoint_token_usage_by_category@.len() == 0,
    {
        ModelTokenUsage {
            model_id: String::new(),
            warp_tokens: 0,
            byok_tokens: 0,
            custom_endpoint_tokens: 0,
            warp_token_usage_by_category: Vec::new(),
            byok_token_usage_by_category: Vec::new(),
            custom_endpoint_token_usage_by_category: Vec::new(),
        }
    }
}

/// A model with `warp_tokens` tokens, all of them in `category`.
pub fn model(id: &str, warp_tokens: u32, category: &str) -> (m: ModelTokenUsage)
    ensures
        m.model_id@ == id@,
        m.warp_tokens == warp_tokens,
        m.byok_tokens == 0,
        m.custom_endpoint_tokens == 0,
        m.warp_token_usage_by_category@.len() == 1,
        m.warp_token_usage_by_category@[0].0@ == category@,
        m.warp_token_usage_by_category@[0].1 == warp_tokens,
        m.byok_token_usage_by_category@.len() == 0,
        m.custom_endpoint_token_usage_by_category@.len() == 0,
{
    let mut categories: Vec<(String, u32)> = Vec::new();
    categories.push((string_from(category), warp_tokens));
    ModelTokenUsage {
        model_id: string_from(id),
        warp_tokens,
        byok_tokens: 0,
        custom_endpoint_tokens: 0,
        warp_token_usage_by_category: categories,
        byok_token_usage_by_category: Vec::new(),
        custom_endpoint_token_usage_by_category: Vec::new(),
    }
}

/// The value of the first entry whose key is `key`, if any.
pub open spec fn first_value<V>(entries: Seq<(String, V)>, key: Seq<char>) -> Option<V>
    decreases entries.len(),
{
    if entries.len() == 0 {
        None
    } else if entries[0].0@ == key {
        Some(entries[0].1)
    } else {
        first_value(entries.drop_first(), key)
    }
}

/// Whether the model has a positive token count in `category` in any of its
/// warp, BYOK or custom-endpoint category lists.
pub open spec fn has_category_tokens(m: ModelTokenUsage, category: Seq<char>) -> bool {
    ||| first_value(m.warp_token_usage_by_category@, category) matches Some(t) && t > 0
    ||| first_value(m.byok_token_usage_by_category@, category) matches Some(t) && t > 0
    ||| first_value(m.custom_endpoint_token_usage_by_category@, category) matches Some(t) && t > 0
}

/// The role pill text of a model: "Primary agent" when it used tokens as the
/// primary agent, otherwise "Full terminal use" when it used tokens in full
/// terminal use, otherwise none.
pub open spec fn role_badge_text(m: ModelTokenUsage) -> Option<Seq<char>> {
    if has_category_tokens(m, PRIMARY_AGENT_CATEGORY@) {
        Some("Primary agent"@)
    } else if has_category_tokens(m, FULL_TERMINAL_USE_CATEGORY@) {
        Some("Full terminal use"@)
    } else {
        None
    }
}

/// The value of the first entry whose key is `key`, if any.
pub fn lookup_first<V: Copy>(entries: &[(String, V)], key: &str) -> (r: Option<V>)
    ensures
        r == first_value(entries@, key@),
{
    let mut i: usize = 0;
    assert(entries@.skip(0) =~= entries@);
    while i < entries.len()
        invariant
            i <= entries.len(),
            first_value(entries@, key@) == first_value(entries@.skip(i as int), key@),
        decreases entries.len() - i,
    {
        assert(entries@.skip(i as int).drop_first() =~= entries@.skip(i + 1));
        if str_equal(entries[i].0.as_str(), key) {
            return Some(entries[i].1);
        }
        i = i + 1;
    }
    None
}

fn has_positive(entries: &Vec<(String, u32)>, category: &str) -> (b: bool)
    ensures
        b == (first_value(entries@, category@) matches Some(t) && t > 0),
{
    match lookup_first(entries.as_slice(), category) {
        Some(t) => t > 0,
        None => false,
    }
}

fn model_has_category(m: &ModelTokenUsage, category: &str) -> (b: bool)
    ensures
        b == has_category_tokens(*m, category@),
{
    has_positive(&m.warp_token_usage_by_category, category)
        || has_positive(&m.byok_token_usage_by_category, category)
        || has_positive(&m.custom_endpoint_token_usage_by_category, category)
}

/// Determines the role pill text of a model (see [`role_badge_text`]).
pub fn role_badge_for_model(m: &ModelTokenUsage) -> (badge: Option<&'static str>)
    ensures
        match badge {
            Some(s) => role_badge_text(*m) == Some(s@),
            None => role_badge_text(*m) is None,
        },
{
    if model_has_category(m, PRIMARY_AGENT_CATEGORY) {
        Some("Primary agent")
    } else if model_has_category(m, FULL_TERMINAL_USE_CATEGORY) {
        Some("Full terminal use")
    } else {
        None
    }
}


/// One row of the per-model usage breakdown: a model with a nonzero token
/// count summed over its warp, BYOK and custom-endpoint tokens, its role pill
/// text, and its cost (of whatever type the caller joins in by model id).
#[derive(Clone, Debug)]
pub struct ModelUsageRow<C> {
    pub model_id: String,
    pub role_badge: Option<&'static str>,
    pub tokens: u64,
    pub cost_in_cents: Option<C>,
}

/// The abstract content of a row: model id, role pill text, token count and cost.
pub type RowView<C> = (Seq<char>, Option<Seq<char>>, u64, Option<C>);

impl<C> View for ModelUsageRow<C> {
    type V = RowView<C>;

    open spec fn view(&self) -> RowView<C> {
        (
            self.model_id@,
            match self.role_badge {
                Some(s) => Some(s@),
                None => None,
            },
            self.tokens,
            self.cost_in_cents,
        )
    }
}

/// The views of a sequence of rows.
pub open spec fn row_views<C>(rows: Seq<ModelUsageRow<C>>) -> Seq<RowView<C>> {
    rows.map_values(|r: ModelUsageRow<C>| r@)
}

/// A model's tokens summed over warp, BYOK and custom-endpoint usage.
pub open spec fn model_tokens(m: ModelTokenUsage) -> nat {
    (m.warp_tokens + m.byok_tokens + m.custom_endpoint_tokens) as nat
}

/// The row of a model, joined with its cost: none for a model without tokens.
pub open spec fn row_of<C>(costs: Seq<(String, C)>) -> spec_fn(ModelTokenUsage) -> Option<RowView<C>> {
    |m: ModelTokenUsage|
        if model_tokens(m) == 0 {
            None
        } else {
            Some((m.model_id@, role_badge_text(m), model_tokens(m) as u64, first_value(costs, m.model_id@)))
        }
}

/// The rows of the models, in model order, before sorting.
pub open spec fn unsorted_rows<C>(models: Seq<ModelTokenUsage>, costs: Seq<(String, C)>) -> Seq<RowView<C>> {
    models.filter_map(row_of(costs))
}

/// Whether the row carries the primary-agent pill.
pub open spec fn is_primary<C>(r: RowView<C>) -> bool {
    r.1 == Some("Primary agent"@)
}

/// Row order: primary-agent rows first, then by model id.
pub open spec fn row_lt<C>(a: RowView<C>, b: RowView<C>) -> bool {
    (is_primary(a) && !is_primary(b)) || (is_primary(a) == is_primary(b) && lex_lt(a.0, b.0))
}

/// Two rows that neither order puts before the other.
pub open spec fn same_key<C>(a: RowView<C>, b: RowView<C>) -> bool {
    is_primary(a) == is_primary(b) && a.0 == b.0
}

/// The predicate "has the same sort key as `r`".
pub open spec fn same_key_as<C>(r: RowView<C>) -> spec_fn(RowView<C>) -> bool {
    |y: RowView<C>| same_key(y, r)
}

/// The rows of `s` with the same sort key as `r`, in their order in `s`.
pub open spec fn key_group<C>(s: Seq<RowView<C>>, r: RowView<C>) -> Seq<RowView<C>> {
    s.filter(same_key_as(r))
}

/// No row sorts before an earlier one.
pub open spec fn rows_sorted<C>(s: Seq<RowView<C>>) -> bool {
    forall|i: int, j: int| 0 <= i < j < s.len() ==> !row_lt(#[trigger] s[j], #[trigger] s[i])
}

/// `sorted` is a stable sort of `rows`: it is sorted, and the rows of each sort key
/// keep their relative order.
pub open spec fn is_stable_sort_of<C>(sorted: Seq<RowView<C>>, rows: Seq<RowView<C>>) -> bool {
    &&& rows_sorted(sorted)
    &&& forall|r: RowView<C>| #[trigger] key_group(sorted, r) == key_group(rows, r)
}

proof fn lemma_row_lt_order<C>(a: RowView<C>, b: RowView<C>, c: RowView<C>)
    ensures
        !row_lt(a, a),
        row_lt(a, b) ==> !row_lt(b, a),
        row_lt(a, b) && row_lt(b, c) ==> row_lt(a, c),
        !same_key(a, b) ==> row_lt(a, b) || row_lt(b, a),
        same_key(a, b) ==> !row_lt(a, b),
{
    lemma_lex_irreflexive(a.0);
    lemma_lex_asymmetric(a.0, b.0);
    lemma_lex_transitive(a.0, b.0, c.0);
    lemma_lex_total(a.0, b.0);
}

proof fn lemma_filter_none<C>(s: Seq<RowView<C>>, pred: spec_fn(RowView<C>) -> bool)
    requires
        forall|i: int| 0 <= i < s.len() ==> !pred(s[i]),
    ensures
        s.filter(pred) == Seq::<RowView<C>>::empty(),
    decreases s.len(),
{
    reveal(Seq::filter);
    if s.len() > 0 {
        lemma_filter_none(s.drop_last(), pred);
    }
    assert(s.filter(pred) =~= Seq::<RowView<C>>::empty());
}

/// Inserting `x` where a stable insertion sort puts it keeps `s` sorted and
/// appends `x` to its own key group.
proof fn lemma_stable_insert<C>(s: Seq<RowView<C>>, p: int, x: RowView<C>)
    requires
        rows_sorted(s),
        0 <= p <= s.len(),
        forall|k: int| 0 <= k < p ==> !row_lt(x, #[trigger] s[k]),
        p < s.len() ==> row_lt(x, s[p]),
    ensures
        rows_sorted(s.insert(p, x)),
        forall|r: RowView<C>| #[trigger] key_group(s.insert(p, x), r) == if same_key(x, r) {
            key_group(s, r).push(x)
        } else {
            key_group(s, r)
        },
{
    let t = s.insert(p, x);
    assert forall|j: int| p <= j < s.len() implies row_lt(x, #[trigger] s[j]) by {
        lemma_row_lt_order(x, s[p], s[j]);
        lemma_row_lt_order(s[p], s[j], x);
        lemma_row_lt_order(s[j], s[p], x);
        if j > p {
            assert(!row_lt(s[j], s[p]));
            if same_key(s[p], s[j]) {
            } else {
                assert(row_lt(s[p], s[j]));
            }
        }
    }
    assert forall|i: int, j: int| 0 <= i < j < t.len() implies !row_lt(#[trigger] t[j], #[trigger] t[i]) by {
        if i < p && j == p {
        } else if i == p {
            lemma_row_lt_order(x, t[j], x);
        } else if i < p && j > p {
            assert(t[i] == s[i]);
            assert(t[j] == s[j - 1]);
        } else if i > p {
            assert(t[i] == s[i - 1]);
            assert(t[j] == s[j - 1]);
        } else {
            assert(t[i] == s[i]);
            assert(t[j] == s[j]);
        }
    }
    let a = s.subrange(0, p);
    let b = s.subrange(p, s.len() as int);
    assert(s =~= a + b);
    assert(t =~= a + seq![x] + b);
    assert forall|r: RowView<C>| #[trigger] key_group(t, r) == if same_key(x, r) {
        key_group(s, r).push(x)
    } else {
        key_group(s, r)
    } by {
        let pred = same_key_as(r);
        Seq::filter_distributes_over_add(a + seq![x], b, pred);
        Seq::filter_distributes_over_add(a, seq![x], pred);
        Seq::filter_distributes_over_add(a, b, pred);
        reveal(Seq::filter);
        assert(seq![x].drop_last() =~= Seq::<RowView<C>>::empty());
        if same_key(x, r) {
            assert forall|i: int| 0 <= i < b.len() implies !pred(b[i]) by {
                lemma_row_lt_order(x, b[i], r);
                lemma_row_lt_order(b[i], r, x);
                assert(row_lt(x, s[p + i]));
            }
            lemma_filter_none(b, pred);
            assert(key_group(t, r) =~= key_group(s, r).push(x));
        } else {
            lemma_filter_none(seq![x], pred);
            assert(key_group(t, r) =~= key_group(s, r));
        }
    }
}

fn primary_row<C>(r: &ModelUsageRow<C>) -> (b: bool)
    ensures
        b == is_primary(r@),
{
    match r.role_badge {
        Some(s) => {
            let eq = str_equal(s, "Primary agent");
            proof {
                if eq {
                } else {
                    assert(s@ != "Primary agent"@);
                }
            }
            eq
        },
        None => false,
    }
}

fn row_less<C>(a: &ModelUsageRow<C>, b: &ModelUsageRow<C>) -> (lt: bool)
    ensures
        lt == row_lt(a@, b@),
{
    let pa = primary_row(a);
    let pb = primary_row(b);
    if pa && !pb {
        true
    } else if pa == pb {
        let ca = chars_of(a.model_id.as_str());
        let cb = chars_of(b.model_id.as_str());
        lex_less(&ca, &cb)
    } else {
        false
    }
}

fn row_for_model<C: Copy>(m: &ModelTokenUsage, costs: &[(String, C)]) -> (r: Option<ModelUsageRow<C>>)
    ensures
        match r {
            Some(row) => row_of(costs@)(*m) == Some(row@),
            None => row_of(costs@)(*m) is None,
        },
{
    let tokens: u64 = m.warp_tokens as u64 + m.byok_tokens as u64 + m.custom_endpoint_tokens as u64;
    if tokens == 0 {
        return None;
    }
    let role_badge = role_badge_for_model(m);
    let cost_in_cents = lookup_first(costs, m.model_id.as_str());
    let row = ModelUsageRow { model_id: m.model_id.clone(), role_badge, tokens, cost_in_cents };
    assert(row@ == (m.model_id@, role_badge_text(*m), model_tokens(*m) as u64, first_value(costs@, m.model_id@)));
    Some(row)
}

/// Builds the per-model rows: one for each model with a nonzero token count
/// (summed over warp, BYOK and custom-endpoint tokens), with its role pill and
/// the cost of the first `costs` entry for its model id. Rows are ordered
/// primary-agent first, then by model id; rows with the same key keep the
/// order of their models.
pub fn model_usage_rows<C: Copy>(models: &[ModelTokenUsage], costs: &[(String, C)]) -> (rows: Vec<ModelUsageRow<C>>)
    ensures
        is_stable_sort_of(row_views(rows@), unsorted_rows(models@, costs@)),
{
    let mut rows: Vec<ModelUsageRow<C>> = Vec::new();
    let mut i: usize = 0;
    assert(row_views(rows@) =~= Seq::<RowView<C>>::empty());
    assert(models@.take(0).filter_map(row_of(costs@)) =~= Seq::<RowView<C>>::empty());
    while i < models.len()
        invariant
            i <= models.len(),
            is_stable_sort_of(row_views(rows@), unsorted_rows(models@.take(i as int), costs@)),
        decreases models.len() - i,
    {
        proof {
            models@.lemma_filter_map_take_succ(row_of(costs@), i as int);
        }
        let next = row_for_model(&models[i], costs);
        match next {
            Some(x) => {
                let ghost old_views = row_views(rows@);
                let mut p: usize = 0;
                while p < rows.len() && !row_less(&x, &rows[p])
                    invariant
                        p <= rows.len(),
                        old_views == row_views(rows@),
                        forall|k: int| 0 <= k < p ==> !row_lt(x@, #[trigger] old_views[k]),
                    decreases rows.len() - p,
                {
                    p = p + 1;
                }
                proof {
                    lemma_stable_insert(old_views, p as int, x@);
                }
                let ghost xv = x@;
                rows.insert(p, x);
                proof {
                    assert(row_views(rows@) =~= old_views.insert(p as int, xv));
                    assert(models@.take(i + 1).filter_map(row_of(costs@)) =~= models@.take(i as int).filter_map(row_of(costs@)).push(xv));
                    assert forall|r: RowView<C>| #[trigger] key_group(row_views(rows@), r)
                        == key_group(unsorted_rows(models@.take(i + 1), costs@), r) by {
                        models@.take(i as int).filter_map(row_of(costs@)).lemma_filter_push(xv, same_key_as(r));
                    }
                }
            },
            None => {
                assert(models@.take(i + 1).filter_map(row_of(costs@)) =~= models@.take(i as int).filter_map(row_of(costs@)));
            },
        }
        i = i + 1;
    }
    assert(models@.take(models@.len() as int) =~= models@);
    rows
}


/// Splits the per-agent rollup list into the entries shown now and the count
/// still hidden: everything when `show_all` or when the list is within the cap,
/// otherwise the first [`ROLLUP_TRUNCATION_CAP`] entries.
pub fn truncate_rollup_rows<T>(entries: &[T], show_all: bool) -> (out: (&[T], usize))
    ensures
        show_all || entries@.len() <= ROLLUP_TRUNCATION_CAP ==> out.0@ == entries@ && out.1 == 0,
        !(show_all || entries@.len() <= ROLLUP_TRUNCATION_CAP) ==> out.0@ == entries@.subrange(0, ROLLUP_TRUNCATION_CAP as int)
            && out.1 == entries@.len() - ROLLUP_TRUNCATION_CAP,
        out.0@.len() + out.1 == entries@.len(),
        out.0@ == entries@.take(out.0@.len() as int),
{
    if show_all || entries.len() <= ROLLUP_TRUNCATION_CAP {
        (entries, 0)
    } else {
        let (shown, _) = entries.split_at(ROLLUP_TRUNCATION_CAP);
        (shown, entries.len() - ROLLUP_TRUNCATION_CAP)
    }
}

/// The link under the per-agent rollup rows.
#[derive(Clone, Copy, Debug, PartialEq, Eq, Structural)]
pub enum RollupFooterLink {
    /// "Show N more", with the number of hidden entries.
    ShowMore(usize),
    /// "Show fewer", offered once every entry of an over-cap list is shown.
    ShowFewer,
    /// No link.
    NoLink,
}

/// Which link follows the rollup rows of a list of `entry_count` entries.
pub fn rollup_footer_link(entry_count: usize, show_all: bool) -> (link: RollupFooterLink)
    ensures
        !show_all && entry_count > ROLLUP_TRUNCATION_CAP ==> link == RollupFooterLink::ShowMore((entry_count - ROLLUP_TRUNCATION_CAP) as usize),
        show_all && entry_count > ROLLUP_TRUNCATION_CAP ==> link == RollupFooterLink::ShowFewer,
        entry_count <= ROLLUP_TRUNCATION_CAP ==> link == RollupFooterLink::NoLink,
{
    let hidden_count = if show_all || entry_count <= ROLLUP_TRUNCATION_CAP { 0 } else { entry_count - ROLLUP_TRUNCATION_CAP };
    if hidden_count > 0 {
        RollupFooterLink::ShowMore(hidden_count)
    } else if show_all && entry_count > ROLLUP_TRUNCATION_CAP {
        RollupFooterLink::ShowFewer
    } else {
        RollupFooterLink::NoLink
    }
}


/// In sorted rows, primary-agent rows come first, and rows with the same
/// primary-ness are in model id order.
pub proof fn lemma_sorted_rows_order<C>(rows: Seq<RowView<C>>)
    requires
        rows_sorted(rows),
    ensures
        forall|i: int, j: int| 0 <= i < j < rows.len() && is_primary(#[trigger] rows[j]) ==> is_primary(#[trigger] rows[i]),
        forall|i: int, j: int| 0 <= i < j < rows.len() && is_primary(rows[i]) == is_primary(rows[j])
            ==> !lex_lt(#[trigger] rows[j].0, #[trigger] rows[i].0),
{
}

proof fn lemma_filter_map_contains_image<C>(models: Seq<ModelTokenUsage>, f: spec_fn(ModelTokenUsage) -> Option<RowView<C>>, k: int)
    requires
        0 <= k < models.len(),
        f(models[k]) is Some,
    ensures
        models.filter_map(f).contains(f(models[k]).unwrap()),
    decreases models.len(),
{
    let rest = models.drop_last();
    if k == models.len() - 1 {
        assert(models.filter_map(f) == rest.filter_map(f) + seq![f(models[k]).unwrap()]);
        assert(models.filter_map(f)[rest.filter_map(f).len() as int] == f(models[k]).unwrap());
    } else {
        lemma_filter_map_contains_image(rest, f, k);
        let x = f(models[k]).unwrap();
        let j = choose|j: int| 0 <= j < rest.filter_map(f).len() && rest.filter_map(f)[j] == x;
        match f(models.last()) {
            Some(y) => {
                assert(models.filter_map(f) == rest.filter_map(f) + seq![y]);
                assert(models.filter_map(f)[j] == x);
            },
            None => {
                assert(models.filter_map(f) == rest.filter_map(f));
            },
        }
    }
}

/// The rows are exactly those of the models with tokens: every row is the row
/// of a model with a nonzero token count, and every such model has its row.
pub proof fn lemma_rows_are_the_models_with_tokens<C>(
    models: Seq<ModelTokenUsage>,
    costs: Seq<(String, C)>,
    rows: Seq<RowView<C>>,
)
    requires
        is_stable_sort_of(rows, unsorted_rows(models, costs)),
    ensures
        forall|i: int| 0 <= i < rows.len() ==> #[trigger] rows[i].2 > 0 && exists|m: ModelTokenUsage|
            models.contains(m) && model_tokens(m) > 0 && row_of(costs)(m) == Some(rows[i]),
        forall|k: int| 0 <= k < models.len() && model_tokens(#[trigger] models[k]) > 0 ==> rows.contains(
            row_of(costs)(models[k]).unwrap(),
        ),
{
    let unsorted = unsorted_rows(models, costs);
    assert forall|i: int| 0 <= i < rows.len() implies #[trigger] rows[i].2 > 0 && exists|m: ModelTokenUsage|
        models.contains(m) && model_tokens(m) > 0 && row_of(costs)(m) == Some(rows[i]) by {
        let x = rows[i];
        let pred = same_key_as(x);
        rows.lemma_filter_contains(pred, i);
        assert(key_group(rows, x) == key_group(unsorted, x));
        unsorted.lemma_filter_contains_rev(pred, x);
        models.lemma_filter_map_contains(row_of(costs), x);
        let m = choose|m: ModelTokenUsage| #[trigger] models.contains(m) && row_of(costs)(m) == Some(x);
        assert(model_tokens(m) > 0);
        assert(model_tokens(m) <= 3 * 0xffff_ffffnat);
    }
    assert forall|k: int| 0 <= k < models.len() && model_tokens(#[trigger] models[k]) > 0 implies rows.contains(
        row_of(costs)(models[k]).unwrap(),
    ) by {
        let x = row_of(costs)(models[k]).unwrap();
        lemma_filter_map_contains_image(models, row_of(costs), k);
        let j = choose|j: int| 0 <= j < unsorted.len() && unsorted[j] == x;
        let pred = same_key_as(x);
        unsorted.lemma_filter_contains(pred, j);
        assert(key_group(rows, x) == key_group(unsorted, x));
        rows.lemma_filter_contains_rev(pred, x);
    }
}

/// The role pill reads all three category lists: a positive primary-agent
/// count in the warp, BYOK or custom-endpoint list gives "Primary agent";
/// otherwise a positive full-terminal-use count in any of them gives "Full
/// terminal use"; otherwise there is no pill.
pub proof fn lemma_role_badge_reads_every_list(m: ModelTokenUsage)
    ensures
        first_value(m.warp_token_usage_by_category@, "primary_agent"@) matches Some(t) && t > 0
            ==> role_badge_text(m) == Some("Primary agent"@),
        first_value(m.byok_token_usage_by_category@, "primary_agent"@) matches Some(t) && t > 0
            ==> role_badge_text(m) == Some("Primary agent"@),
        first_value(m.custom_endpoint_token_usage_by_category@, "primary_agent"@) matches Some(t) && t > 0
            ==> role_badge_text(m) == Some("Primary agent"@),
        !(first_value(m.warp_token_usage_by_category@, "primary_agent"@) matches Some(t) && t > 0)
            && !(first_value(m.byok_token_usage_by_category@, "primary_agent"@) matches Some(t) && t > 0)
            && !(first_value(m.custom_endpoint_token_usage_by_category@, "primary_agent"@) matches Some(t) && t > 0)
            ==> role_badge_text(m) == if {
                ||| first_value(m.warp_token_usage_by_category@, "full_terminal_use"@) matches Some(t) && t > 0
                ||| first_value(m.byok_token_usage_by_category@, "full_terminal_use"@) matches Some(t) && t > 0
                ||| first_value(m.custom_endpoint_token_usage_by_category@, "full_terminal_use"@) matches Some(t) && t > 0
            } {
                Some("Full terminal use"@)
            } else {
                None
            },
{
}

/// The row of a model with tokens carries the pill of the model, read from
/// all three category lists, and its tokens summed over all three sources.
pub proof fn lemma_row_of_model_with_tokens<C>(m: ModelTokenUsage, costs: Seq<(String, C)>)
    requires
        m.warp_tokens + m.byok_tokens + m.custom_endpoint_tokens > 0,
    ensures
        row_of(costs)(m) matches Some(r) && r.0 == m.model_id@
            && r.1 == role_badge_text(m)
            && r.2 == m.warp_tokens + m.byok_tokens + m.custom_endpoint_tokens,
{
}

} // verus!
