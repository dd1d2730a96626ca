// The record that is kept for each shell session: when a command was last
// confirmed in it, and for which contexts.

use crate::clock::{utc_now, Timestamp};
use crate::context_map::ContextMap;
use crate::text::{decimal, push_decimal};
use vstd::prelude::*;
use vstd::string::*;

verus! {

/// The state of one session.
#[derive(Debug)]
pub struct SessionState {
    /// When a command was last confirmed, for whatever context.
    pub last_confirmed_date_time: Timestamp,
    /// The contexts that were confirmed, each with its flag.
    pub confirmed_contexts: ContextMap,
}

/// What a `SessionState` holds, as plain values.
pub struct SessionView {
    /// The time of the last confirmation, in nanoseconds since the Unix
    /// epoch.
    pub last_confirmed: int,
    /// The flag of each confirmed context.
    pub confirmed: Map<Seq<char>, bool>,
}

impl View for SessionState {
    type V = SessionView;

    open spec fn view(&self) -> SessionView {
        SessionView {
            last_confirmed: self.last_confirmed_date_time.instant(),
            confirmed: self.confirmed_contexts@,
        }
    }
}

/// The state of a session of which nothing is recorded yet, created at
/// `created`.
pub open spec fn fresh_state(created: int) -> SessionView {
    SessionView { last_confirmed: created, confirmed: Map::empty() }
}

/// The state after `context` has been confirmed at `now`: the time of the
/// last confirmation is `now`, `context` is flagged, and every other entry
/// is as before.
pub open spec fn confirmed_state(state: SessionView, context: Seq<char>, now: int) -> SessionView {
    SessionView { last_confirmed: now, confirmed: state.confirmed.insert(context, true) }
}

/// The name of the file that holds the record of session `pid`.
pub open spec fn file_name_of(pid: u32) -> Seq<char> {
    "kcwrap-"@ + decimal(pid as nat) + ".json"@
}

impl SessionState {
    /// The state of a session of which nothing is recorded yet.
    pub fn fresh(now: Timestamp) -> (state: SessionState)
        ensures
            state@ == fresh_state(now.instant()),
            state.last_confirmed_date_time == now,
    {
        SessionState { last_confirmed_date_time: now, confirmed_contexts: ContextMap::new() }
    }

    /// Records that `context` was confirmed at `now`.
    pub fn confirm(&mut self, context: String, now: Timestamp)
        ensures
            final(self)@ == confirmed_state(old(self)@, context@, now.instant()),
            final(self).last_confirmed_date_time == now,
    {
        self.last_confirmed_date_time = now;
        self.confirmed_contexts.insert(context, true);
    }
}

impl Default for SessionState {
    /// A fresh state, created at the present time.
    fn default() -> (state: SessionState)
        ensures
            state@.confirmed == Map::<Seq<char>, bool>::empty(),
    {
        SessionState::fresh(utc_now())
    }
}

/// The state to work on, given the record that was found for the session:
/// that record, or a fresh state where none was found.
pub fn load_sessions_state(persisted: Option<SessionState>) -> (state: SessionState)
    ensures
        match persisted {
            Some(record) => state == record,
            None => state@.confirmed == Map::<Seq<char>, bool>::empty(),
        },
{
    match persisted {
        Some(record) => record,
        None => SessionState::default(),
    }
}

/// Records that `current_context` was confirmed just now. The time is the
/// clock's; all else is as `SessionState::confirm` leaves it.
pub fn update_session(session: &mut SessionState, current_context: String)
    ensures
        final(session)@ == confirmed_state(
            old(session)@,
            current_context@,
            final(session)@.last_confirmed,
        ),
{
    let now = utc_now();
    session.confirm(current_context, now);
}

/// The name of the file that holds the record of session `pid`.
pub fn session_file_name(pid: u32) -> (name: String)
    ensures
        name@ == file_name_of(pid),
{
    let mut name = String::from_str("kcwrap-");
    push_decimal(&mut name, pid);
    name.append(".json");
    name
}

} // verus!
