//! Conversation identifiers and the decision of whether a redelivered
//! bootstrap prompt reuses the conversation created for a prior delivery.

use vstd::prelude::*;

verus! {

/// Identifier of an AI conversation: the 128-bit value of a random (version 4) UUID.
#[derive(Clone, Copy, Debug, PartialEq, Eq, Structural, Hash)]
pub struct AIConversationId {
    pub value: u128,
}

/// Calls `uuid::Uuid::new_v4` and returns the UUID as a `u128`.
/// The contract claims only what the `uuid` source shows for every outcome:
/// the version nibble (bits 76..80) is 4 and the variant bits (62..64) are `0b10`.
#[verifier::external_body]
fn random_v4_uuid_value() -> (v: u128)
    ensures
        (v >> 76u128) & 0xfu128 == 4u128,
        (v >> 62u128) & 3u128 == 2u128,
{
    uuid::Uuid::new_v4().as_u128()
}

impl AIConversationId {
    /// A fresh conversation id backed by a random version-4 UUID.
    pub fn new() -> (id: Self)
        ensures
            (id.value >> 76u128) & 0xfu128 == 4u128,
            (id.value >> 62u128) & 3u128 == 2u128,
    {
        AIConversationId { value: random_v4_uuid_value() }
    }
}

/// A conversation id for use where any fresh id will do.
pub fn fixed_conversation_id() -> (id: AIConversationId)
    ensures
        (id.value >> 76u128) & 0xfu128 == 4u128,
        (id.value >> 62u128) & 3u128 == 2u128,
{
    AIConversationId::new()
}

/// What reuse decision follows from the recorded conversation and what a lookup of it said:
/// `has_token` is `None` when the conversation can no longer be found, otherwise whether it
/// has been assigned a server token.
pub open spec fn reuse_decision(
    recorded: Option<AIConversationId>,
    has_token: Option<bool>,
) -> Option<AIConversationId> {
    match recorded {
        Some(id) => if has_token == Some(false) { Some(id) } else { None },
        None => None,
    }
}

/// Decides reuse from an already looked-up token state (see [`reuse_decision`]).
pub fn reuse_recorded_conversation(
    recorded: Option<AIConversationId>,
    has_token: Option<bool>,
) -> (reused: Option<AIConversationId>)
    ensures
        reused == reuse_decision(recorded, has_token),
{
    match recorded {
        Some(id) => match has_token {
            Some(false) => Some(id),
            _ => None,
        },
        None => None,
    }
}

/// Returns the conversation to reuse for a redelivered no-token bootstrap prompt.
///
/// A conversation is reused only when one was recorded for a prior delivery, it can still be
/// found, and it has not yet been assigned a server token. `has_server_token` looks the recorded
/// conversation up (`None`: it vanished); it is called only when a conversation was recorded.
pub fn reusable_bootstrap_conversation<F: FnOnce(AIConversationId) -> Option<bool>>(
    recorded: Option<AIConversationId>,
    has_server_token: F,
) -> (reused: Option<AIConversationId>)
    requires
        recorded matches Some(id) ==> call_requires(has_server_token, (id,)),
    ensures
        recorded is None ==> reused is None,
        recorded matches Some(id) ==> exists|t: Option<bool>|
            call_ensures(has_server_token, (id,), t) && reused == reuse_decision(recorded, t),
{
    match recorded {
        None => None,
        Some(id) => {
            let has_token = has_server_token(id);
            reuse_recorded_conversation(recorded, has_token)
        },
    }
}

/// A recorded conversation is reused exactly when it can still be found and has
/// no server token yet: a tokened or vanished conversation is never reused,
/// nothing is reused when nothing was recorded, and a reused id is the recorded one.
pub proof fn lemma_reuse_only_untokened_recorded_conversation(
    recorded: Option<AIConversationId>,
    has_token: Option<bool>,
)
    ensures
        recorded is None ==> reuse_decision(recorded, has_token) is None,
        has_token == Some(true) ==> reuse_decision(recorded, has_token) is None,
        has_token is None ==> reuse_decision(recorded, has_token) is None,
        has_token == Some(false) ==> (recorded matches Some(id) ==> reuse_decision(recorded, has_token) == Some(id)),
        reuse_decision(recorded, has_token) matches Some(id) ==> recorded == Some(id),
{
}

} // verus!
