// The decision whether a command has to be confirmed before it runs.

use crate::clock::{utc_now, Timestamp};
use crate::session::{confirmed_state, fresh_state, SessionState, SessionView};
use vstd::prelude::*;

verus! {

/// The debounce window, ten minutes, in nanoseconds: for so long after a
/// confirmation the contexts that the session has confirmed need none.
pub const DEBOUNCE_NANOS: i128 = 600_000_000_000;

/// `context` is flagged as confirmed in `state`.
pub open spec fn is_confirmed(state: SessionView, context: Seq<char>) -> bool {
    state.confirmed.contains_key(context) && state.confirmed[context]
}

/// More than the debounce window has passed at `now` since the last
/// confirmation in `state`.
pub open spec fn is_stale(state: SessionView, now: int) -> bool {
    now - state.last_confirmed > DEBOUNCE_NANOS
}

/// Whether a command for `context` has to be confirmed at `now`: always
/// once the last confirmation is stale, and else unless the context is
/// flagged as confirmed.
pub open spec fn prompt_needed(state: SessionView, context: Seq<char>, now: int) -> bool {
    is_stale(state, now) || !is_confirmed(state, context)
}

/// Decides whether a command for `current_context` has to be confirmed at
/// `now`.
pub fn should_prompt_at(session_state: &SessionState, current_context: &str, now: &Timestamp) -> (prompt:
    bool)
    ensures
        prompt == prompt_needed(session_state@, current_context@, now.instant()),
{
    let duration_since = now.nanos_since(&session_state.last_confirmed_date_time);
    if duration_since > DEBOUNCE_NANOS {
        return true;
    }
    match session_state.confirmed_contexts.get(current_context) {
        Some(has_confirmed) => !has_confirmed,
        None => true,
    }
}

/// Decides whether a command for `current_context` has to be confirmed
/// now: the answer is that of `should_prompt_at` for the point in time that
/// the clock gives. Whatever the clock says, a context that is not flagged
/// as confirmed has to be.
pub fn should_prompt(session_state: &SessionState, current_context: &str) -> (prompt: bool)
    ensures
        exists|now: Timestamp|
            prompt == prompt_needed(session_state@, current_context@, #[trigger] now.instant()),
        !is_confirmed(session_state@, current_context@) ==> prompt,
{
    let now = utc_now();
    should_prompt_at(session_state, current_context, &now)
}

/// In a session of which nothing is recorded, every context has to be
/// confirmed, at whatever time.
pub proof fn lemma_fresh_session_prompts(created: int, context: Seq<char>, now: int)
    ensures
        prompt_needed(fresh_state(created), context, now),
{
}

/// After `context` was confirmed at `confirmed_at`, it needs no
/// confirmation while less than the window has passed, and needs one again
/// once the window has passed, though it is still flagged. The moment at
/// which exactly the window has passed is left out: see
/// `lemma_confirmation_holds_at_window_end`.
pub proof fn lemma_confirmation_lasts_for_window(
    state: SessionView,
    context: Seq<char>,
    confirmed_at: int,
    now: int,
)
    requires
        now - confirmed_at != DEBOUNCE_NANOS,
    ensures
        prompt_needed(confirmed_state(state, context, confirmed_at), context, now) == (now
            - confirmed_at >= DEBOUNCE_NANOS),
        is_confirmed(confirmed_state(state, context, confirmed_at), context),
{
}

/// At the moment at which exactly the window has passed since `context` was
/// confirmed, it still needs no confirmation: the window has to be
/// exceeded.
pub proof fn lemma_confirmation_holds_at_window_end(
    state: SessionView,
    context: Seq<char>,
    confirmed_at: int,
)
    ensures
        !prompt_needed(
            confirmed_state(state, context, confirmed_at),
            context,
            confirmed_at + DEBOUNCE_NANOS,
        ),
{
}

/// Within the window after `context` was confirmed, another context has to
/// be confirmed unless it was flagged as confirmed before.
pub proof fn lemma_other_context_still_prompts(
    state: SessionView,
    context: Seq<char>,
    other: Seq<char>,
    confirmed_at: int,
    now: int,
)
    requires
        other != context,
        now - confirmed_at <= DEBOUNCE_NANOS,
    ensures
        prompt_needed(confirmed_state(state, context, confirmed_at), other, now) == !is_confirmed(
            state,
            other,
        ),
{
}

/// Within the window after `context` was confirmed, the decision for
/// another context is what it was before, except where that context was
/// flagged and the flag had gone stale: the confirmation renews the
/// session, and with it every flag.
pub proof fn lemma_other_context_decision_unchanged(
    state: SessionView,
    context: Seq<char>,
    other: Seq<char>,
    confirmed_at: int,
    now: int,
)
    requires
        other != context,
        now - confirmed_at <= DEBOUNCE_NANOS,
        !(is_stale(state, now) && is_confirmed(state, other)),
    ensures
        prompt_needed(confirmed_state(state, context, confirmed_at), other, now) == prompt_needed(
            state,
            other,
            now,
        ),
{
}

} // verus!
