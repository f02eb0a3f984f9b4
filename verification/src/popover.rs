//! State and action handling of the "Conversation" usage popover: which
//! sections are expanded, whether the per-agent rollup shows every agent, and
//! which models have their per-model breakdown expanded.

use vstd::prelude::*;
use crate::conversation::AIConversationId;
use crate::text::str_equal;

verus! {

/// Actions the popover dispatches to itself.
#[derive(Clone, Debug, PartialEq, Eq)]
pub enum UsagePopoverAction {
    ToggleModelUsageSection,
    ToggleToolCallSummarySection,
    ToggleResponseTimeSection,
    ShowAllRollupAgents,
    ShowFewerRollupAgents,
    /// Dispatched when the user clicks outside the popover.
    RequestClose,
    /// Toggles the per-model breakdown of the given model id.
    ToggleModelExpanded(String),
}

/// Emitted when the popover should be closed.
#[derive(Clone, Copy, Debug, PartialEq, Eq, Structural)]
pub enum UsagePopoverEvent {
    Close,
}

/// What the host must do after the popover handled an action.
#[derive(Clone, Copy, Debug, PartialEq, Eq, Structural)]
pub enum PopoverEffect {
    /// The popover's state changed; re-render it.
    Notify,
    /// Emit the event to the popover's subscribers.
    Emit(UsagePopoverEvent),
}

/// The abstract state of the popover.
pub struct PopoverSnapshot {
    pub conversation_id: AIConversationId,
    pub model_usage_section_expanded: bool,
    pub tool_call_summary_section_expanded: bool,
    pub response_time_section_expanded: bool,
    pub rollup_show_all: bool,
    pub expanded_model_ids: Set<Seq<char>>,
}

/// The state of a freshly opened popover for `id`: every section expanded,
/// the rollup truncated and no model breakdown expanded.
pub open spec fn initial_snapshot(id: AIConversationId) -> PopoverSnapshot {
    PopoverSnapshot {
        conversation_id: id,
        model_usage_section_expanded: true,
        tool_call_summary_section_expanded: true,
        response_time_section_expanded: true,
        rollup_show_all: false,
        expanded_model_ids: Set::empty(),
    }
}

/// The state after handling `action` in state `s`.
pub open spec fn next_snapshot(s: PopoverSnapshot, action: UsagePopoverAction) -> PopoverSnapshot {
    match action {
        UsagePopoverAction::ToggleModelUsageSection =>
            PopoverSnapshot { model_usage_section_expanded: !s.model_usage_section_expanded, ..s },
        UsagePopoverAction::ToggleToolCallSummarySection =>
            PopoverSnapshot { tool_call_summary_section_expanded: !s.tool_call_summary_section_expanded, ..s },
        UsagePopoverAction::ToggleResponseTimeSection =>
            PopoverSnapshot { response_time_section_expanded: !s.response_time_section_expanded, ..s },
        UsagePopoverAction::ShowAllRollupAgents => PopoverSnapshot { rollup_show_all: true, ..s },
        UsagePopoverAction::ShowFewerRollupAgents => PopoverSnapshot { rollup_show_all: false, ..s },
        UsagePopoverAction::RequestClose => s,
        UsagePopoverAction::ToggleModelExpanded(id) => PopoverSnapshot {
            expanded_model_ids: if s.expanded_model_ids.contains(id@) {
                s.expanded_model_ids.remove(id@)
            } else {
                s.expanded_model_ids.insert(id@)
            },
            ..s
        },
    }
}

/// What the host must do after `action`: closing emits [`UsagePopoverEvent::Close`],
/// every other action re-renders.
pub open spec fn action_effect(action: UsagePopoverAction) -> PopoverEffect {
    match action {
        UsagePopoverAction::RequestClose => PopoverEffect::Emit(UsagePopoverEvent::Close),
        _ => PopoverEffect::Notify,
    }
}

/// The views of a list of model ids.
pub open spec fn id_views(ids: Seq<String>) -> Seq<Seq<char>> {
    ids.map_values(|s: String| s@)
}

/// The floating "Conversation" usage popover's state.
pub struct UsagePopoverView {
    conversation_id: AIConversationId,
    model_usage_section_expanded: bool,
    tool_call_summary_section_expanded: bool,
    response_time_section_expanded: bool,
    rollup_show_all: bool,
    /// Model ids whose per-model breakdown is expanded, each once.
    expanded_model_ids: Vec<String>,
}

impl View for UsagePopoverView {
    type V = PopoverSnapshot;

    closed spec fn view(&self) -> PopoverSnapshot {
        PopoverSnapshot {
            conversation_id: self.conversation_id,
            model_usage_section_expanded: self.model_usage_section_expanded,
            tool_call_summary_section_expanded: self.tool_call_summary_section_expanded,
            response_time_section_expanded: self.response_time_section_expanded,
            rollup_show_all: self.rollup_show_all,
            expanded_model_ids: id_views(self.expanded_model_ids@).to_set(),
        }
    }
}

impl UsagePopoverView {
    #[verifier::type_invariant]
    spec fn expanded_ids_are_distinct(&self) -> bool {
        id_views(self.expanded_model_ids@).no_duplicates()
    }

    /// A popover for `conversation_id` in its initial state.
    pub fn new(conversation_id: AIConversationId) -> (v: Self)
        ensures
            v@ == initial_snapshot(conversation_id),
    {
        let v = UsagePopoverView {
            conversation_id,
            model_usage_section_expanded: true,
            tool_call_summary_section_expanded: true,
            response_time_section_expanded: true,
            rollup_show_all: false,
            expanded_model_ids: Vec::new(),
        };
        assert(id_views(v.expanded_model_ids@).to_set() =~= Set::empty());
        v
    }

    /// Points the (reused) popover at `conversation_id` and resets all state to
    /// what [`Self::new`] produces; the host re-renders.
    pub fn reset_for_conversation(&mut self, conversation_id: AIConversationId) -> (effect: PopoverEffect)
        ensures
            final(self)@ == initial_snapshot(conversation_id),
            effect == PopoverEffect::Notify,
    {
        *self = Self::new(conversation_id);
        PopoverEffect::Notify
    }

    /// The conversation the popover shows.
    pub fn conversation_id(&self) -> (id: AIConversationId)
        ensures
            id == self@.conversation_id,
    {
        self.conversation_id
    }

    /// Whether the MODEL USAGE (or AGENT USAGE) section is expanded.
    pub fn model_usage_section_expanded(&self) -> (b: bool)
        ensures
            b == self@.model_usage_section_expanded,
    {
        self.model_usage_section_expanded
    }

    /// Whether the TOOL CALL SUMMARY section is expanded.
    pub fn tool_call_summary_section_expanded(&self) -> (b: bool)
        ensures
            b == self@.tool_call_summary_section_expanded,
    {
        self.tool_call_summary_section_expanded
    }

    /// Whether the RESPONSE TIME section is expanded.
    pub fn response_time_section_expanded(&self) -> (b: bool)
        ensures
            b == self@.response_time_section_expanded,
    {
        self.response_time_section_expanded
    }

    /// Whether the per-agent rollup shows every agent.
    pub fn rollup_show_all(&self) -> (b: bool)
        ensures
            b == self@.rollup_show_all,
    {
        self.rollup_show_all
    }

    /// The position of `model_id` in the expanded list, if it is there.
    fn expanded_index(&self, model_id: &str) -> (i: Option<usize>)
        ensures
            match i {
                Some(i) => i < self.expanded_model_ids@.len() && self.expanded_model_ids@[i as int]@ == model_id@,
                None => !id_views(self.expanded_model_ids@).contains(model_id@),
            },
    {
        let mut i: usize = 0;
        while i < self.expanded_model_ids.len()
            invariant
                i <= self.expanded_model_ids@.len(),
                forall|j: int| 0 <= j < i ==> self.expanded_model_ids@[j]@ != model_id@,
            decreases self.expanded_model_ids.len() - i,
        {
            if str_equal(self.expanded_model_ids[i].as_str(), model_id) {
                return Some(i);
            }
            i = i + 1;
        }
        assert(!id_views(self.expanded_model_ids@).contains(model_id@)) by {
            if id_views(self.expanded_model_ids@).contains(model_id@) {
                let j = choose|j: int| 0 <= j < id_views(self.expanded_model_ids@).len()
                    && id_views(self.expanded_model_ids@)[j] == model_id@;
                assert(self.expanded_model_ids@[j]@ == model_id@);
            }
        }
        None
    }

    /// Whether the per-model breakdown of `model_id` is expanded.
    pub fn is_model_expanded(&self, model_id: &str) -> (b: bool)
        ensures
            b == self@.expanded_model_ids.contains(model_id@),
    {
        let i = self.expanded_index(model_id);
        proof {
            match i {
                Some(i) => {
                    assert(id_views(self.expanded_model_ids@)[i as int] == model_id@);
                },
                None => {},
            }
        }
        i.is_some()
    }

    /// Handles an action: toggles a section, shows all or fewer rollup agents,
    /// toggles a model's breakdown, or asks the host to close the popover.
    pub fn handle_action(&mut self, action: &UsagePopoverAction) -> (effect: PopoverEffect)
        ensures
            final(self)@ == next_snapshot(old(self)@, *action),
            effect == action_effect(*action),
    {
        proof { use_type_invariant(&*self); }
        match action {
            UsagePopoverAction::ToggleModelUsageSection => {
                self.model_usage_section_expanded = !self.model_usage_section_expanded;
                PopoverEffect::Notify
            },
            UsagePopoverAction::ToggleToolCallSummarySection => {
                self.tool_call_summary_section_expanded = !self.tool_call_summary_section_expanded;
                PopoverEffect::Notify
            },
            UsagePopoverAction::ToggleResponseTimeSection => {
                self.response_time_section_expanded = !self.response_time_section_expanded;
                PopoverEffect::Notify
            },
            UsagePopoverAction::ShowAllRollupAgents => {
                self.rollup_show_all = true;
                PopoverEffect::Notify
            },
            UsagePopoverAction::ShowFewerRollupAgents => {
                self.rollup_show_all = false;
                PopoverEffect::Notify
            },
            UsagePopoverAction::RequestClose => PopoverEffect::Emit(UsagePopoverEvent::Close),
            UsagePopoverAction::ToggleModelExpanded(model_id) => {
                self.toggle_model_expanded(model_id.as_str());
                PopoverEffect::Notify
            },
        }
    }

    fn toggle_model_expanded(&mut self, model_id: &str)
        ensures
            final(self)@ == (PopoverSnapshot {
                expanded_model_ids: if old(self)@.expanded_model_ids.contains(model_id@) {
                    old(self)@.expanded_model_ids.remove(model_id@)
                } else {
                    old(self)@.expanded_model_ids.insert(model_id@)
                },
                ..old(self)@
            }),
    {
        proof { use_type_invariant(&*self); }
        let ghost old_ids = id_views(self.expanded_model_ids@);
        match self.expanded_index(model_id) {
            Some(i) => {
                let mut ids: Vec<String> = Vec::new();
                std::mem::swap(&mut ids, &mut self.expanded_model_ids);
                ids.remove(i);
                proof {
                    let new_ids = id_views(ids@);
                    assert(new_ids =~= old_ids.remove(i as int));
                    assert(old_ids[i as int] == model_id@);
                    assert forall|a: int, b: int| 0 <= a < b < new_ids.len() implies new_ids[a] != new_ids[b] by {
                        let a2 = if a < i { a } else { a + 1 };
                        let b2 = if b < i { b } else { b + 1 };
                        assert(new_ids[a] == old_ids[a2]);
                        assert(new_ids[b] == old_ids[b2]);
                    }
                    assert(new_ids.to_set() =~= old_ids.to_set().remove(model_id@)) by {
                        assert forall|x: Seq<char>| new_ids.to_set().contains(x) <==> old_ids.to_set().remove(model_id@).contains(x) by {
                            if new_ids.contains(x) {
                                let j = choose|j: int| 0 <= j < new_ids.len() && new_ids[j] == x;
                                let j2 = if j < i { j } else { j + 1 };
                                assert(old_ids[j2] == x);
                                assert(j2 != i);
                            }
                            if old_ids.contains(x) && x != model_id@ {
                                let j = choose|j: int| 0 <= j < old_ids.len() && old_ids[j] == x;
                                assert(j != i);
                                let j2 = if j < i { j } else { j - 1 };
                                assert(new_ids[j2] == x);
                            }
                        }
                    }
                    assert(old_ids.to_set().contains(model_id@)) by {
                        assert(old_ids[i as int] == model_id@);
                    }
                }
                self.expanded_model_ids = ids;
            },
            None => {
                let mut ids: Vec<String> = Vec::new();
                std::mem::swap(&mut ids, &mut self.expanded_model_ids);
                let s = crate::text::string_from(model_id);
                ids.push(s);
                proof {
                    let new_ids = id_views(ids@);
                    assert(new_ids =~= old_ids.push(model_id@));
                    assert forall|a: int, b: int| 0 <= a < b < new_ids.len() implies new_ids[a] != new_ids[b] by {
                        if b == new_ids.len() - 1 {
                            assert(new_ids[a] == old_ids[a]);
                            assert(old_ids.contains(old_ids[a]));
                        }
                    }
                    assert(new_ids.to_set() =~= old_ids.to_set().insert(model_id@)) by {
                        assert forall|x: Seq<char>| new_ids.to_set().contains(x) <==> old_ids.to_set().insert(model_id@).contains(x) by {
                            if new_ids.contains(x) {
                                let j = choose|j: int| 0 <= j < new_ids.len() && new_ids[j] == x;
                                if j < old_ids.len() {
                                    assert(old_ids[j] == x);
                                }
                            }
                            if old_ids.contains(x) {
                                let j = choose|j: int| 0 <= j < old_ids.len() && old_ids[j] == x;
                                assert(new_ids[j] == x);
                            }
                            if x == model_id@ {
                                assert(new_ids[old_ids.len() as int] == x);
                            }
                        }
                    }
                }
                self.expanded_model_ids = ids;
            },
        }
    }
}


/// Whether `action` toggles a piece of popover state.
pub open spec fn is_toggle(action: UsagePopoverAction) -> bool {
    match action {
        UsagePopoverAction::ToggleModelUsageSection => true,
        UsagePopoverAction::ToggleToolCallSummarySection => true,
        UsagePopoverAction::ToggleResponseTimeSection => true,
        UsagePopoverAction::ToggleModelExpanded(_) => true,
        _ => false,
    }
}

/// Handling the same toggle action twice returns the popover to the state it
/// started from.
pub proof fn lemma_toggle_twice_restores(s: PopoverSnapshot, action: UsagePopoverAction)
    requires
        is_toggle(action),
    ensures
        next_snapshot(next_snapshot(s, action), action) == s,
{
    if let UsagePopoverAction::ToggleModelExpanded(id) = action {
        let once = next_snapshot(s, action);
        if s.expanded_model_ids.contains(id@) {
            assert(once.expanded_model_ids.insert(id@) =~= s.expanded_model_ids);
        } else {
            assert(once.expanded_model_ids.remove(id@) =~= s.expanded_model_ids);
        }
    }
}

/// Showing all (or fewer) rollup agents a second time changes nothing more.
pub proof fn lemma_rollup_visibility_is_idempotent(s: PopoverSnapshot, action: UsagePopoverAction)
    requires
        action is ShowAllRollupAgents || action is ShowFewerRollupAgents,
    ensures
        next_snapshot(next_snapshot(s, action), action) == next_snapshot(s, action),
{
}

/// A close request changes no state and only asks the host to emit
/// [`UsagePopoverEvent::Close`].
pub proof fn lemma_close_request_keeps_state(s: PopoverSnapshot)
    ensures
        next_snapshot(s, UsagePopoverAction::RequestClose) == s,
        action_effect(UsagePopoverAction::RequestClose) == PopoverEffect::Emit(UsagePopoverEvent::Close),
{
}

/// Toggling the breakdowns of two models gives the same state in either order.
pub proof fn lemma_model_toggles_commute(s: PopoverSnapshot, a: String, b: String)
    ensures
        next_snapshot(next_snapshot(s, UsagePopoverAction::ToggleModelExpanded(a)), UsagePopoverAction::ToggleModelExpanded(b))
            == next_snapshot(next_snapshot(s, UsagePopoverAction::ToggleModelExpanded(b)), UsagePopoverAction::ToggleModelExpanded(a)),
{
    let ab = next_snapshot(next_snapshot(s, UsagePopoverAction::ToggleModelExpanded(a)), UsagePopoverAction::ToggleModelExpanded(b));
    let ba = next_snapshot(next_snapshot(s, UsagePopoverAction::ToggleModelExpanded(b)), UsagePopoverAction::ToggleModelExpanded(a));
    assert(ab.expanded_model_ids =~= ba.expanded_model_ids);
}

/// Each section toggle flips exactly its own section and leaves every other
/// piece of popover state as it was.
pub proof fn lemma_section_toggles_flip_only_their_section(s: PopoverSnapshot)
    ensures
        next_snapshot(s, UsagePopoverAction::ToggleModelUsageSection).model_usage_section_expanded == !s.model_usage_section_expanded,
        next_snapshot(s, UsagePopoverAction::ToggleModelUsageSection).tool_call_summary_section_expanded == s.tool_call_summary_section_expanded,
        next_snapshot(s, UsagePopoverAction::ToggleModelUsageSection).response_time_section_expanded == s.response_time_section_expanded,
        next_snapshot(s, UsagePopoverAction::ToggleModelUsageSection).rollup_show_all == s.rollup_show_all,
        next_snapshot(s, UsagePopoverAction::ToggleModelUsageSection).expanded_model_ids == s.expanded_model_ids,
        next_snapshot(s, UsagePopoverAction::ToggleModelUsageSection).conversation_id == s.conversation_id,

        next_snapshot(s, UsagePopoverAction::ToggleToolCallSummarySection).tool_call_summary_section_expanded == !s.tool_call_summary_section_expanded,
        next_snapshot(s, UsagePopoverAction::ToggleToolCallSummarySection).model_usage_section_expanded == s.model_usage_section_expanded,
        next_snapshot(s, UsagePopoverAction::ToggleToolCallSummarySection).response_time_section_expanded == s.response_time_section_expanded,
        next_snapshot(s, UsagePopoverAction::ToggleToolCallSummarySection).rollup_show_all == s.rollup_show_all,
        next_snapshot(s, UsagePopoverAction::ToggleToolCallSummarySection).expanded_model_ids == s.expanded_model_ids,
        next_snapshot(s, UsagePopoverAction::ToggleToolCallSummarySection).conversation_id == s.conversation_id,

        next_snapshot(s, UsagePopoverAction::ToggleResponseTimeSection).response_time_section_expanded == !s.response_time_section_expanded,
        next_snapshot(s, UsagePopoverAction::ToggleResponseTimeSection).model_usage_section_expanded == s.model_usage_section_expanded,
        next_snapshot(s, UsagePopoverAction::ToggleResponseTimeSection).tool_call_summary_section_expanded == s.tool_call_summary_section_expanded,
        next_snapshot(s, UsagePopoverAction::ToggleResponseTimeSection).rollup_show_all == s.rollup_show_all,
        next_snapshot(s, UsagePopoverAction::ToggleResponseTimeSection).expanded_model_ids == s.expanded_model_ids,
        next_snapshot(s, UsagePopoverAction::ToggleResponseTimeSection).conversation_id == s.conversation_id,
{
}

/// "Show all" sets the rollup to show every agent and "Show fewer" truncates
/// it again; neither touches anything else.
pub proof fn lemma_rollup_actions_set_only_show_all(s: PopoverSnapshot)
    ensures
        next_snapshot(s, UsagePopoverAction::ShowAllRollupAgents).rollup_show_all,
        !next_snapshot(s, UsagePopoverAction::ShowFewerRollupAgents).rollup_show_all,
        next_snapshot(s, UsagePopoverAction::ShowAllRollupAgents).model_usage_section_expanded == s.model_usage_section_expanded,
        next_snapshot(s, UsagePopoverAction::ShowAllRollupAgents).tool_call_summary_section_expanded == s.tool_call_summary_section_expanded,
        next_snapshot(s, UsagePopoverAction::ShowAllRollupAgents).response_time_section_expanded == s.response_time_section_expanded,
        next_snapshot(s, UsagePopoverAction::ShowAllRollupAgents).expanded_model_ids == s.expanded_model_ids,
        next_snapshot(s, UsagePopoverAction::ShowAllRollupAgents).conversation_id == s.conversation_id,
        next_snapshot(s, UsagePopoverAction::ShowFewerRollupAgents).model_usage_section_expanded == s.model_usage_section_expanded,
        next_snapshot(s, UsagePopoverAction::ShowFewerRollupAgents).tool_call_summary_section_expanded == s.tool_call_summary_section_expanded,
        next_snapshot(s, UsagePopoverAction::ShowFewerRollupAgents).response_time_section_expanded == s.response_time_section_expanded,
        next_snapshot(s, UsagePopoverAction::ShowFewerRollupAgents).expanded_model_ids == s.expanded_model_ids,
        next_snapshot(s, UsagePopoverAction::ShowFewerRollupAgents).conversation_id == s.conversation_id,
{
}

/// Toggling a model's breakdown flips whether that model is expanded, leaves
/// every other model as it was, and touches no section.
pub proof fn lemma_model_toggle_flips_only_that_model(s: PopoverSnapshot, id: String, other: Seq<char>)
    requires
        other != id@,
    ensures
        next_snapshot(s, UsagePopoverAction::ToggleModelExpanded(id)).expanded_model_ids.contains(id@)
            == !s.expanded_model_ids.contains(id@),
        next_snapshot(s, UsagePopoverAction::ToggleModelExpanded(id)).expanded_model_ids.contains(other)
            == s.expanded_model_ids.contains(other),
        next_snapshot(s, UsagePopoverAction::ToggleModelExpanded(id)).model_usage_section_expanded == s.model_usage_section_expanded,
        next_snapshot(s, UsagePopoverAction::ToggleModelExpanded(id)).tool_call_summary_section_expanded == s.tool_call_summary_section_expanded,
        next_snapshot(s, UsagePopoverAction::ToggleModelExpanded(id)).response_time_section_expanded == s.response_time_section_expanded,
        next_snapshot(s, UsagePopoverAction::ToggleModelExpanded(id)).rollup_show_all == s.rollup_show_all,
        next_snapshot(s, UsagePopoverAction::ToggleModelExpanded(id)).conversation_id == s.conversation_id,
{
}

/// A freshly opened (or reset) popover shows every section expanded, the
/// rollup truncated and no model breakdown expanded.
pub proof fn lemma_initial_state_is_all_expanded(id: AIConversationId)
    ensures
        initial_snapshot(id).conversation_id == id,
        initial_snapshot(id).model_usage_section_expanded,
        initial_snapshot(id).tool_call_summary_section_expanded,
        initial_snapshot(id).response_time_section_expanded,
        !initial_snapshot(id).rollup_show_all,
        forall|m: Seq<char>| !initial_snapshot(id).expanded_model_ids.contains(m),
{
}

} // verus!
