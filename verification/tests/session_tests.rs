use kcwrap::clock::Timestamp;
use kcwrap::confirmation::{should_prompt, should_prompt_at, DEBOUNCE_NANOS};
use kcwrap::context_map::ContextMap;
use kcwrap::session::{load_sessions_state, session_file_name, update_session, SessionState};
use kcwrap::text::push_decimal;

const T0: i64 = 1_700_000_000;

fn at(secs: i64, nanos: u32) -> Timestamp {
    Timestamp::new(secs, nanos)
}

#[test]
fn fresh_session_prompts_for_any_context() {
    let state = SessionState::fresh(at(T0, 0));
    assert!(should_prompt_at(&state, "staging-west", &at(T0, 0)));
    assert!(should_prompt_at(&state, "prod", &at(T0 + 1, 0)));
    assert!(should_prompt_at(&state, "", &at(T0 - 5, 0)));
    assert!(should_prompt_at(&state, "prod", &at(T0 + 3600, 0)));
}

#[test]
fn confirmation_lasts_for_the_window() {
    let mut state = SessionState::fresh(at(T0, 0));
    assert!(should_prompt_at(&state, "staging-west", &at(T0, 0)));
    state.confirm("staging-west".to_string(), at(T0, 0));
    assert!(!should_prompt_at(&state, "staging-west", &at(T0 + 1, 0)));
    assert!(should_prompt_at(&state, "staging-west", &at(T0 + 11 * 60, 0)));
    assert_eq!(state.confirmed_contexts.get("staging-west"), Some(true));
}

#[test]
fn the_window_has_to_be_exceeded() {
    assert_eq!(DEBOUNCE_NANOS, 600_000_000_000);
    let mut state = SessionState::fresh(at(T0, 250));
    state.confirm("c".to_string(), at(T0, 250));
    assert!(!should_prompt_at(&state, "c", &at(T0, 250)));
    assert!(!should_prompt_at(&state, "c", &at(T0 + 599, 999_999_999)));
    assert!(!should_prompt_at(&state, "c", &at(T0 + 600, 249)));
    assert!(!should_prompt_at(&state, "c", &at(T0 + 600, 250)));
    assert!(should_prompt_at(&state, "c", &at(T0 + 600, 251)));
    assert!(should_prompt_at(&state, "c", &at(T0 + 601, 0)));
}

#[test]
fn a_time_before_the_confirmation_is_within_the_window() {
    let mut state = SessionState::fresh(at(T0, 0));
    state.confirm("c".to_string(), at(T0, 0));
    assert!(!should_prompt_at(&state, "c", &at(T0 - 3600, 0)));
    assert!(should_prompt_at(&state, "d", &at(T0 - 3600, 0)));
}

#[test]
fn other_contexts_still_prompt() {
    let mut state = SessionState::fresh(at(T0, 0));
    state.confirm("prod-a".to_string(), at(T0, 0));
    assert!(should_prompt_at(&state, "prod-b", &at(T0 + 1, 0)));
    assert!(should_prompt_at(&state, "prod-a ", &at(T0 + 1, 0)));
    assert!(should_prompt_at(&state, "PROD-A", &at(T0 + 1, 0)));
    state.confirm("prod-b".to_string(), at(T0 + 2, 0));
    assert!(!should_prompt_at(&state, "prod-b", &at(T0 + 3, 0)));
    assert!(!should_prompt_at(&state, "prod-a", &at(T0 + 3, 0)));
}

#[test]
fn a_confirmation_renews_the_flags_of_other_contexts() {
    let mut state = SessionState::fresh(at(T0, 0));
    state.confirm("a".to_string(), at(T0, 0));
    let later = T0 + 3600;
    assert!(should_prompt_at(&state, "a", &at(later, 0)));
    state.confirm("b".to_string(), at(later, 0));
    assert!(!should_prompt_at(&state, "a", &at(later + 1, 0)));
    assert!(!should_prompt_at(&state, "b", &at(later + 1, 0)));
}

#[test]
fn confirm_sets_the_time_and_the_flag() {
    let mut state = SessionState::fresh(at(T0, 0));
    state.confirm("a".to_string(), at(T0 + 5, 17));
    assert_eq!(state.last_confirmed_date_time, at(T0 + 5, 17));
    assert_eq!(state.confirmed_contexts.get("a"), Some(true));
    assert_eq!(state.confirmed_contexts.get("b"), None);
    state.confirm("b".to_string(), at(T0 + 9, 0));
    assert_eq!(state.last_confirmed_date_time, at(T0 + 9, 0));
    assert_eq!(state.confirmed_contexts.get("a"), Some(true));
    assert_eq!(state.confirmed_contexts.get("b"), Some(true));
    assert_eq!(state.confirmed_contexts.entries().len(), 2);
    state.confirm("a".to_string(), at(T0 + 10, 0));
    assert_eq!(state.confirmed_contexts.entries().len(), 2);
}

#[test]
fn a_stored_false_flag_prompts() {
    let contexts = ContextMap::from_entries(&vec![("a".to_string(), false), ("b".to_string(), true)]);
    let mut state =
        SessionState { last_confirmed_date_time: at(T0, 0), confirmed_contexts: contexts };
    assert!(should_prompt_at(&state, "a", &at(T0 + 1, 0)));
    assert!(!should_prompt_at(&state, "b", &at(T0 + 1, 0)));
    state.confirm("a".to_string(), at(T0 + 2, 0));
    assert!(!should_prompt_at(&state, "a", &at(T0 + 3, 0)));
    assert_eq!(state.confirmed_contexts.get("a"), Some(true));
}

#[test]
fn context_map_starts_empty() {
    let map = ContextMap::new();
    assert_eq!(map.get("a"), None);
    assert_eq!(map.get(""), None);
    assert!(map.entries().is_empty());
}

#[test]
fn context_map_insert_overwrites() {
    let mut map = ContextMap::new();
    map.insert("a".to_string(), false);
    map.insert("b".to_string(), true);
    assert_eq!(map.get("a"), Some(false));
    map.insert("a".to_string(), true);
    assert_eq!(map.get("a"), Some(true));
    assert_eq!(map.get("b"), Some(true));
    assert_eq!(map.get("c"), None);
    assert_eq!(map.entries(), vec![("a".to_string(), true), ("b".to_string(), true)]);
}

#[test]
fn context_map_goes_out_and_comes_back() {
    let mut map = ContextMap::new();
    map.insert("prod-a\n".to_string(), true);
    map.insert("staging".to_string(), false);
    map.insert("".to_string(), true);
    let pairs = map.entries();
    assert_eq!(pairs.len(), 3);
    let back = ContextMap::from_entries(&pairs);
    assert_eq!(back.get("prod-a\n"), Some(true));
    assert_eq!(back.get("staging"), Some(false));
    assert_eq!(back.get(""), Some(true));
    assert_eq!(back.get("prod-a"), None);
    assert_eq!(back.entries(), pairs);
}

#[test]
fn from_entries_lets_the_last_pair_of_a_name_decide() {
    let map = ContextMap::from_entries(&vec![
        ("a".to_string(), true),
        ("b".to_string(), true),
        ("a".to_string(), false),
    ]);
    assert_eq!(map.get("a"), Some(false));
    assert_eq!(map.get("b"), Some(true));
    assert_eq!(map.entries().len(), 2);
}

#[test]
fn load_keeps_a_record_that_was_found() {
    let mut record = SessionState::fresh(at(T0, 3));
    record.confirm("a".to_string(), at(T0 + 1, 4));
    let state = load_sessions_state(Some(record));
    assert_eq!(state.last_confirmed_date_time, at(T0 + 1, 4));
    assert_eq!(state.confirmed_contexts.get("a"), Some(true));
}

#[test]
fn load_without_a_record_gives_a_fresh_state() {
    let state = load_sessions_state(None);
    assert!(state.confirmed_contexts.entries().is_empty());
    assert!(state.last_confirmed_date_time.secs > 1_600_000_000);
    assert!(state.last_confirmed_date_time.nanos < 1_000_000_000);
    assert!(should_prompt(&state, "anything"));
    assert!(should_prompt_at(&state, "anything", &state.last_confirmed_date_time));
}

#[test]
fn default_state_is_fresh_and_of_the_present() {
    let state = SessionState::default();
    assert!(state.confirmed_contexts.entries().is_empty());
    assert!(state.last_confirmed_date_time.secs > 1_600_000_000);
}

#[test]
fn update_session_confirms_at_the_present_time() {
    let mut state = SessionState::fresh(at(0, 0));
    assert!(should_prompt(&state, "prod"));
    update_session(&mut state, "prod".to_string());
    assert!(state.last_confirmed_date_time.secs > 1_600_000_000);
    assert_eq!(state.confirmed_contexts.get("prod"), Some(true));
    assert!(!should_prompt(&state, "prod"));
    assert!(should_prompt(&state, "test"));
}

#[test]
fn a_stale_session_prompts_by_the_clock() {
    let mut state = SessionState::fresh(at(T0, 0));
    state.confirm("prod".to_string(), at(T0, 0));
    assert!(should_prompt(&state, "prod"));
}

#[test]
fn elapsed_time_is_exact() {
    assert_eq!(at(10, 5).nanos_since(&at(10, 5)), 0);
    assert_eq!(at(11, 0).nanos_since(&at(10, 999_999_999)), 1);
    assert_eq!(at(10, 0).nanos_since(&at(11, 0)), -1_000_000_000);
    assert_eq!(at(-1, 500).nanos_since(&at(1, 0)), -1_999_999_500);
    assert_eq!(
        at(i64::MAX, u32::MAX).nanos_since(&at(i64::MIN, 0)),
        (i64::MAX as i128 - i64::MIN as i128) * 1_000_000_000 + u32::MAX as i128
    );
    assert_eq!(
        at(i64::MIN, 0).nanos_since(&at(i64::MAX, u32::MAX)),
        (i64::MIN as i128 - i64::MAX as i128) * 1_000_000_000 - u32::MAX as i128
    );
}

#[test]
fn the_file_name_holds_the_session_id() {
    assert_eq!(session_file_name(1234), "kcwrap-1234.json");
    assert_eq!(session_file_name(0), "kcwrap-0.json");
    assert_eq!(session_file_name(u32::MAX), "kcwrap-4294967295.json");
    assert_ne!(session_file_name(12), session_file_name(21));
}

#[test]
fn decimal_numerals_have_no_leading_zeros() {
    for n in [0u32, 7, 9, 10, 11, 99, 100, 101, 1000, 65_535, 1_000_000, u32::MAX] {
        let mut out = String::from("n=");
        push_decimal(&mut out, n);
        assert_eq!(out, format!("n={n}"));
    }
}
