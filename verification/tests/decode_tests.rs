use legal_engine::decode::{DecodeState, MAX_GENERATED};
use legal_engine::engine::{special_or_default, DEFAULT_EOT_ID};
use legal_engine::flight::FlightGuard;
use legal_engine::prompt::{build_chat_prompt, default_system_prompt, resolve_system_prompt};

#[test]
fn session_halts_at_end_of_turn() {
    let eos: u32 = 42;
    let mut st = DecodeState::new_session(10, eos);
    assert!(!st.done);
    assert!(!st.push_token(1));
    st.advance();
    assert!(!st.push_token(2));
    st.advance();
    assert!(st.push_token(eos));
    assert!(st.done);
    let tokens = st.into_tokens();
    assert_eq!(tokens, vec![1, 2, eos]);
}

#[test]
fn session_halts_at_length_cap() {
    let eos: u32 = 42;
    let mut st = DecodeState::new_session(0, eos);
    let mut stops = 0;
    for i in 0..MAX_GENERATED {
        if st.push_token(7) {
            stops += 1;
            assert_eq!(i + 1, MAX_GENERATED);
        } else {
            st.advance();
        }
    }
    assert_eq!(stops, 1);
    assert!(st.done);
    let tokens = st.into_tokens();
    assert_eq!(tokens.len(), 1000);
    assert!(tokens.iter().all(|t| *t == 7));
}

#[test]
fn end_of_turn_token_stays_in_output() {
    let eos: u32 = 5;
    let mut st = DecodeState::new_session(3, eos);
    assert!(st.push_token(eos));
    let tokens = st.into_tokens();
    assert_eq!(tokens, vec![eos]);
}

#[test]
fn position_advances_by_one_per_consumed_token() {
    let mut st = DecodeState::new_session(17, 9);
    assert_eq!(st.pos, 17);
    st.push_token(1);
    st.advance();
    assert_eq!(st.pos, 18);
    st.push_token(2);
    st.advance();
    assert_eq!(st.pos, 19);
}

#[test]
fn single_flight_admits_at_most_one() {
    let mut guard = FlightGuard::new();
    assert_eq!(guard.in_flight, 0);
    assert!(guard.try_enter());
    assert_eq!(guard.in_flight, 1);
    // a second caller is held back while one session is in flight
    assert!(!guard.try_enter());
    assert!(!guard.try_enter());
    assert_eq!(guard.in_flight, 1);
    guard.exit();
    assert_eq!(guard.in_flight, 0);
    assert!(guard.try_enter());
    assert_eq!(guard.in_flight, 1);
}

#[test]
fn chat_prompt_closes_both_turns_and_opens_assistant() {
    let p = build_chat_prompt("SYS", "USER");
    assert_eq!(
        p,
        "<|im_start|>system\nSYS<|im_end|>\n<|im_start|>user\nUSER<|im_end|>\n<|im_start|>assistant\n"
    );
}

#[test]
fn system_prompt_falls_back_to_default() {
    assert_eq!(default_system_prompt(), "You are a helpful assistant.");
    assert_eq!(resolve_system_prompt(None), "You are a helpful assistant.");
    assert_eq!(resolve_system_prompt(Some("stored".to_string())), "stored");
}

#[test]
fn special_token_fallback() {
    assert_eq!(special_or_default(Some(7)), 7);
    assert_eq!(special_or_default(None), DEFAULT_EOT_ID);
    assert_eq!(DEFAULT_EOT_ID, 151645);
}
