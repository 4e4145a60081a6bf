use bingo::events::EventType;
use bingo::game::{self, GameType, RoundStep, WinSubmission};

fn claim(user_id: u32, timestamp_millis: i64, call: u8) -> WinSubmission {
    WinSubmission { user_id, timestamp_millis, call, pattern: vec![1, 2, 3, 4, 5, 6, 7, 8, 9] }
}

#[test]
fn new_game_starts_fresh() {
    let g = game::new();
    assert!(matches!(g.game_type, GameType::British));
    assert_eq!(g.current_call_index, 0);
    assert_eq!(g.current_round_index, 1);
    assert_eq!(g.numbers.len(), 90);
    assert_eq!(g.winners.len(), 3);
    assert!(g.winners.iter().all(|slot| slot.is_empty()));
    assert!(!g.has_pending_winners());
    assert_eq!(g.events.len(), 1);
    assert_eq!(g.events[0].event_type(), EventType::Intermission);
    assert_eq!(g.events[0].duration(), 10);
}

#[test]
fn number_sequence_is_a_permutation_of_the_pool() {
    let g = game::new();
    let mut sorted = g.numbers.clone();
    sorted.sort();
    let expected: Vec<u8> = (1..=90).collect();
    assert_eq!(sorted, expected);
}

#[test]
fn scenario_claim_inside_window_is_accepted() {
    let mut g = game::new();
    assert!(g.increment_call());
    assert_eq!(g.current_call_index, 1);
    let accepted = g.process_win_submission(claim(1, g.last_call_time + 3000, 1));
    assert!(accepted);
    assert!(g.has_pending_winners());
}

#[test]
fn scenario_claim_past_window_is_rejected() {
    let mut g = game::new();
    assert!(g.increment_call());
    assert!(g.process_win_submission(claim(1, g.last_call_time + 3000, 1)));
    let accepted = g.process_win_submission(claim(2, g.last_call_time + 9000, 1));
    assert!(!accepted);
}

#[test]
fn claim_exactly_at_window_close_is_rejected() {
    let mut g = game::new();
    assert!(g.increment_call());
    assert!(!g.process_win_submission(claim(1, g.last_call_time + 8000, 1)));
    assert!(g.process_win_submission(claim(1, g.last_call_time + 7999, 1)));
}

#[test]
fn claim_for_another_call_is_rejected() {
    let mut g = game::new();
    assert!(g.increment_call());
    assert!(!g.process_win_submission(claim(1, g.last_call_time + 1000, 0)));
    assert!(!g.process_win_submission(claim(1, g.last_call_time + 1000, 2)));
    assert!(!g.has_pending_winners());
}

#[test]
fn second_claim_from_same_claimant_is_rejected() {
    let mut g = game::new();
    assert!(g.increment_call());
    assert!(g.process_win_submission(claim(7, g.last_call_time + 1000, 1)));
    assert!(!g.process_win_submission(claim(7, g.last_call_time + 1500, 1)));
    g.process_winners();
    assert_eq!(g.winners[0].len(), 1);
    assert_eq!(g.winners[0][0].user_id(), 7);
}

#[test]
fn scenario_earlier_claim_gets_rank_one() {
    let mut g = game::new();
    assert!(g.increment_call());
    let t = g.last_call_time + 1000;
    assert!(g.process_win_submission(claim(10, t, 1)));
    assert!(g.process_win_submission(claim(20, t + 500, 1)));
    g.process_winners();
    assert!(!g.has_pending_winners());
    let slot = &g.winners[0];
    assert_eq!(slot.len(), 2);
    assert_eq!(slot[0].user_id(), 10);
    assert_eq!(slot[0].position(), 1);
    assert_eq!(slot[1].user_id(), 20);
    assert_eq!(slot[1].position(), 2);
}

#[test]
fn equal_timestamps_keep_arrival_order() {
    let mut g = game::new();
    assert!(g.increment_call());
    let t = g.last_call_time + 100;
    assert!(g.process_win_submission(claim(1, t + 50, 1)));
    assert!(g.process_win_submission(claim(2, t + 50, 1)));
    assert!(g.process_win_submission(claim(3, t, 1)));
    g.process_winners();
    let slot = &g.winners[0];
    assert_eq!(slot.len(), 3);
    assert_eq!(slot[0].user_id(), 3);
    assert_eq!(slot[0].position(), 1);
    assert_eq!(slot[1].user_id(), 1);
    assert_eq!(slot[1].position(), 2);
    assert_eq!(slot[2].user_id(), 2);
    assert_eq!(slot[2].position(), 3);
}

#[test]
fn winner_carries_the_claimed_pattern() {
    let mut g = game::new();
    assert!(g.increment_call());
    let mut c = claim(5, g.last_call_time + 100, 1);
    c.pattern = vec![10, 11, 12, 13, 14, 15, 16, 17, 18];
    assert!(g.process_win_submission(c));
    g.process_winners();
    assert_eq!(g.winners[0][0].winning_pattern(), &vec![10, 11, 12, 13, 14, 15, 16, 17, 18]);
}

#[test]
fn resolving_without_claims_changes_nothing() {
    let mut g = game::new();
    assert!(g.increment_call());
    g.process_winners();
    assert!(g.winners.iter().all(|slot| slot.is_empty()));
    assert!(!g.should_increment_round());
}

#[test]
fn scenario_pool_exhaustion_ends_the_match() {
    let mut g = game::new();
    assert_eq!(g.numbers.len(), 90);
    for _ in 0..90 {
        assert!(g.increment_call());
    }
    assert_eq!(g.current_call_index, 90);
    let last = g.last_call_time;
    assert!(!g.increment_call());
    assert_eq!(g.current_call_index, 90);
    assert_eq!(g.last_call_time, last);
}

#[test]
fn round_index_stops_at_the_terminal_round() {
    let mut g = game::new();
    assert!(g.increment_round());
    assert_eq!(g.current_round_index, 2);
    assert!(g.increment_round());
    assert_eq!(g.current_round_index, 3);
    assert!(!g.increment_round());
    assert_eq!(g.current_round_index, 3);
}

#[test]
fn open_call_stamps_the_window_anchor_and_logs_the_phase() {
    let mut g = game::new();
    let opened = g.open_call(1_000_000);
    assert!(opened);
    assert_eq!(g.current_call_index, 1);
    assert_eq!(g.last_call_time, 1_000_000);
    let last_event = g.events.last().unwrap();
    assert_eq!(last_event.event_type(), EventType::NewCall);
    assert_eq!(last_event.duration(), 8);
    assert_eq!(last_event.start_time(), 1_000_000);
}

#[test]
fn full_match_flow_ends_after_the_terminal_round() {
    let mut g = game::new();
    let mut now: i64 = 1_000_000;
    for round in 1..=3u8 {
        assert_eq!(g.current_round_index, round);
        assert!(g.open_call(now));
        assert!(g.process_win_submission(claim(round as u32, now + 100, g.current_call_index)));
        assert!(g.resolve_window(now + 8000));
        assert_eq!(g.events.last().unwrap().event_type(), EventType::RoundWin);
        let step = g.next_round_decision(now + 9000);
        if round < 3 {
            assert_eq!(step, RoundStep::Advanced);
            assert_eq!(g.events.last().unwrap().event_type(), EventType::NewRound);
        } else {
            assert_eq!(step, RoundStep::GameOver);
            assert_eq!(g.current_round_index, 3);
            assert_eq!(g.events.last().unwrap().event_type(), EventType::RoundWin);
        }
        now += 10_000;
    }
    assert!(g.winners.iter().all(|slot| slot.len() == 1));
}

#[test]
fn round_without_winner_stays_open() {
    let mut g = game::new();
    assert!(g.open_call(1_000_000));
    assert!(!g.resolve_window(1_008_000));
    assert_eq!(g.next_round_decision(1_009_000), RoundStep::Stay);
    assert_eq!(g.current_round_index, 1);
}
