//! End-to-end checks of the slide engines and the scoring law.

use fuiz::game::{IncomingHostMessage, IncomingMessage, IncomingPlayerMessage};
use fuiz::multiple_choice;
use fuiz::order;
use fuiz::session::Effects;
use fuiz::store::IdSet;
use fuiz::type_answer;
use fuiz::watcher::{Id, PlayerValue, Value, Watchers};

fn player(bits: u128) -> Id {
    Id::from_bits(bits)
}

fn setup_watchers(host: Id, players: &[Id]) -> (Watchers, IdSet) {
    let mut watchers = Watchers::with_host_id(host);
    let mut connected = IdSet::new();
    connected.insert(host);
    for (i, p) in players.iter().enumerate() {
        let name = format!("player-{}", i);
        watchers
            .add_watcher(*p, Value::Player(PlayerValue::Individual { name }))
            .unwrap();
        connected.insert(*p);
    }
    (watchers, connected)
}

fn mc_config(introduce: u64, limit: u64, points: u64) -> multiple_choice::SlideConfig {
    multiple_choice::SlideConfig {
        title: String::from("capital?"),
        media: None,
        introduce_question: introduce,
        time_limit: limit,
        points_awarded: points,
        answers: vec![
            multiple_choice::AnswerChoice {
                correct: true,
                content: fuiz::fuiz::TextOrMedia::Text(String::from("A")),
            },
            multiple_choice::AnswerChoice {
                correct: false,
                content: fuiz::fuiz::TextOrMedia::Text(String::from("B")),
            },
        ],
    }
}

#[test]
fn scoring_law_half_decay() {
    // Full points at the start, three quarters at half time, half at the
    // limit, nothing at twice the limit.
    assert_eq!(multiple_choice::calculate_score_for(10_000, 0, 1000), 1000);
    assert_eq!(multiple_choice::calculate_score_for(10_000, 5_000, 1000), 750);
    assert_eq!(multiple_choice::calculate_score_for(10_000, 10_000, 1000), 500);
    assert_eq!(multiple_choice::calculate_score_for(10_000, 20_000, 1000), 0);
}

#[test]
fn solo_multiple_choice_flow() {
    let host = player(1);
    let alice = player(2);
    let (watchers, connected) = setup_watchers(host, &[alice]);
    let config = mc_config(0, 10_000, 1000);
    let mut state = config.to_state();
    let mut leaderboard = fuiz::leaderboard::Leaderboard::new();
    let mut eff = Effects::new();

    // A zero introduction goes straight to the answering phase.
    state.play(None, &watchers, &connected, &mut eff, 0, 0, 1);
    assert!(matches!(state.state, multiple_choice::SlideState::Answers));

    // Alice answers correctly at half time; she is the only player, so the
    // slide reveals the results early.
    let finished = state.receive_message(
        alice,
        &IncomingMessage::Player(IncomingPlayerMessage::IndexAnswer(0)),
        &mut leaderboard,
        &watchers,
        None,
        &connected,
        &mut eff,
        5_000,
        0,
        1,
    );
    assert!(!finished);
    assert!(matches!(
        state.state,
        multiple_choice::SlideState::AnswersResults
    ));

    // The host advances once more: the slide completes and scores land.
    let finished = state.receive_message(
        host,
        &IncomingMessage::Host(IncomingHostMessage::Next),
        &mut leaderboard,
        &watchers,
        None,
        &connected,
        &mut eff,
        6_000,
        0,
        1,
    );
    assert!(finished);
    let score = leaderboard.score(alice).expect("alice has a score");
    assert_eq!(score.points, 750);
    assert_eq!(score.position, 0);
}

#[test]
fn multiple_choice_single_next_single_transition() {
    // One Next from a given phase moves forward exactly one phase while an
    // introduction is configured.
    let host = player(1);
    let alice = player(2);
    let (watchers, connected) = setup_watchers(host, &[alice]);
    let config = mc_config(3_000, 10_000, 1000);
    let mut state = config.to_state();
    let mut leaderboard = fuiz::leaderboard::Leaderboard::new();
    let mut eff = Effects::new();

    let next = IncomingMessage::Host(IncomingHostMessage::Next);
    state.receive_message(
        host, &next, &mut leaderboard, &watchers, None, &connected, &mut eff, 0, 0, 1,
    );
    assert!(matches!(state.state, multiple_choice::SlideState::Question));
    state.receive_message(
        host, &next, &mut leaderboard, &watchers, None, &connected, &mut eff, 1, 0, 1,
    );
    assert!(matches!(state.state, multiple_choice::SlideState::Answers));
    state.receive_message(
        host, &next, &mut leaderboard, &watchers, None, &connected, &mut eff, 2, 0, 1,
    );
    assert!(matches!(
        state.state,
        multiple_choice::SlideState::AnswersResults
    ));
}

#[test]
fn multiple_choice_empty_answers_all_zero() {
    let host = player(1);
    let alice = player(2);
    let (watchers, connected) = setup_watchers(host, &[alice]);
    let config = multiple_choice::SlideConfig {
        title: String::from("empty"),
        media: None,
        introduce_question: 0,
        time_limit: 10_000,
        points_awarded: 1000,
        answers: Vec::new(),
    };
    let mut state = config.to_state();
    let mut leaderboard = fuiz::leaderboard::Leaderboard::new();
    let mut eff = Effects::new();
    state.play(None, &watchers, &connected, &mut eff, 0, 0, 1);
    // An index answer can never be valid with no choices.
    state.receive_message(
        alice,
        &IncomingMessage::Player(IncomingPlayerMessage::IndexAnswer(0)),
        &mut leaderboard,
        &watchers,
        None,
        &connected,
        &mut eff,
        100,
        0,
        1,
    );
    let next = IncomingMessage::Host(IncomingHostMessage::Next);
    state.receive_message(
        host, &next, &mut leaderboard, &watchers, None, &connected, &mut eff, 200, 0, 1,
    );
    let finished = state.receive_message(
        host, &next, &mut leaderboard, &watchers, None, &connected, &mut eff, 300, 0, 1,
    );
    assert!(finished);
    let score = leaderboard.score(alice).expect("alice is listed");
    assert_eq!(score.points, 0);
}

#[test]
fn type_answer_case_insensitive_match() {
    let config = type_answer::SlideConfig {
        title: String::from("capital of France?"),
        media: None,
        introduce_question: 0,
        time_limit: 10_000,
        points_awarded: 1000,
        answers: vec![String::from("Paris")],
        case_sensitive: false,
    };
    let state = config.to_state();
    assert!(state.matches_answer("paris"));
    assert!(state.matches_answer("PARIS "));
    assert!(!state.matches_answer("London"));
}

#[test]
fn type_answer_case_sensitive_match() {
    let config = type_answer::SlideConfig {
        title: String::from("strict"),
        media: None,
        introduce_question: 0,
        time_limit: 10_000,
        points_awarded: 1000,
        answers: vec![String::from("Paris")],
        case_sensitive: true,
    };
    let state = config.to_state();
    assert!(state.matches_answer("Paris"));
    assert!(state.matches_answer(" Paris "));
    assert!(!state.matches_answer("paris"));
}

#[test]
fn clean_answer_trims_and_lowercases() {
    assert_eq!(type_answer::clean_answer("  PARIS ", false), "paris");
    assert_eq!(type_answer::clean_answer("  PARIS ", true), "PARIS");
}

#[test]
fn order_scores_exact_sequence() {
    let host = player(1);
    let alice = player(2);
    let bob = player(3);
    let (watchers, connected) = setup_watchers(host, &[alice, bob]);
    let config = order::SlideConfig {
        title: String::from("sort them"),
        media: None,
        introduce_question: 0,
        time_limit: 10_000,
        points_awarded: 1000,
        answers: vec![String::from("A"), String::from("B"), String::from("C")],
        axis_labels: order::AxisLabels { from: None, to: None },
    };
    let mut state = config.to_state();
    let mut leaderboard = fuiz::leaderboard::Leaderboard::new();
    let mut eff = Effects::new();
    state.play(&watchers, &connected, &mut eff, 0, 0, 1);
    assert!(matches!(state.state, order::SlideState::Answers));
    // The shuffled presentation still holds exactly the configured items.
    let mut shuffled = state.shuffled_answers.clone();
    shuffled.sort();
    assert_eq!(shuffled, vec!["A", "B", "C"]);

    state.receive_message(
        alice,
        &IncomingMessage::Player(IncomingPlayerMessage::StringArrayAnswer(vec![
            String::from("A"),
            String::from("B"),
            String::from("C"),
        ])),
        &mut leaderboard,
        &watchers,
        None,
        &connected,
        &mut eff,
        1_000,
        0,
        1,
    );
    state.receive_message(
        bob,
        &IncomingMessage::Player(IncomingPlayerMessage::StringArrayAnswer(vec![
            String::from("B"),
            String::from("A"),
            String::from("C"),
        ])),
        &mut leaderboard,
        &watchers,
        None,
        &connected,
        &mut eff,
        2_000,
        0,
        1,
    );
    // Everyone answered, so the results are out; the host completes.
    assert!(matches!(state.state, order::SlideState::AnswersResults));
    let finished = state.receive_message(
        host,
        &IncomingMessage::Host(IncomingHostMessage::Next),
        &mut leaderboard,
        &watchers,
        None,
        &connected,
        &mut eff,
        3_000,
        0,
        1,
    );
    assert!(finished);
    let alice_score = leaderboard.score(alice).expect("alice scored");
    let bob_score = leaderboard.score(bob).expect("bob listed");
    assert!(alice_score.points > 0);
    assert_eq!(bob_score.points, 0);
    assert_eq!(alice_score.position, 0);
    assert_eq!(bob_score.position, 1);
}

#[test]
fn type_answer_results_sorted_by_count() {
    let host = player(1);
    let alice = player(2);
    let bob = player(3);
    let carol = player(4);
    let (watchers, connected) = setup_watchers(host, &[alice, bob, carol]);
    let config = type_answer::SlideConfig {
        title: String::from("capital of France?"),
        media: None,
        introduce_question: 0,
        time_limit: 10_000,
        points_awarded: 1000,
        answers: vec![String::from("Paris")],
        case_sensitive: false,
    };
    let mut state = config.to_state();
    let mut leaderboard = fuiz::leaderboard::Leaderboard::new();
    let mut eff = Effects::new();
    state.play(&watchers, &connected, &mut eff, 0, 0, 1);
    for (who, text) in [(alice, "london"), (bob, "paris"), (carol, "London")] {
        state.receive_message(
            who,
            &IncomingMessage::Player(IncomingPlayerMessage::StringAnswer(String::from(text))),
            &mut leaderboard,
            &watchers,
            None,
            &connected,
            &mut eff,
            1_000,
            0,
            1,
        );
    }
    // Everyone answered, so the results were revealed early; the payload
    // lists each distinct cleaned submission with its count, most common
    // first.
    let mut seen = None;
    for out in &eff.outgoing {
        if let fuiz::session::Outgoing::Update { message, .. } = out {
            if let fuiz::UpdateMessage::TypeAnswer(
                type_answer::UpdateMessage::AnswersResults { results, .. },
            ) = message
            {
                seen = Some(results.clone());
            }
        }
    }
    let results = seen.expect("results were broadcast");
    assert_eq!(
        results,
        vec![(String::from("london"), 2), (String::from("paris"), 1)]
    );
}

#[test]
fn absent_teammate_drags_team_score_to_zero() {
    let host = player(1);
    let alice = player(2);
    let bob = player(3);
    let (mut watchers, connected) = setup_watchers(host, &[alice, bob]);
    let mut names = fuiz::names::Names::new();
    let mut tm = fuiz::teams::TeamManager::new(2, false);
    tm.finalize(&mut watchers, &mut names, &connected);
    let team = tm.get_team(alice).expect("alice was assigned");
    assert_eq!(tm.get_team(bob), Some(team));

    let config = mc_config(0, 10_000, 1000);
    let mut state = config.to_state();
    let mut leaderboard = fuiz::leaderboard::Leaderboard::new();
    let mut eff = Effects::new();
    state.play(Some(&tm), &watchers, &connected, &mut eff, 0, 0, 1);

    // Alice answers correctly at once; Bob stays silent for the whole slide.
    state.receive_message(
        alice,
        &IncomingMessage::Player(IncomingPlayerMessage::IndexAnswer(0)),
        &mut leaderboard,
        &watchers,
        Some(&tm),
        &connected,
        &mut eff,
        0,
        0,
        1,
    );
    let next = IncomingMessage::Host(IncomingHostMessage::Next);
    state.receive_message(
        host, &next, &mut leaderboard, &watchers, Some(&tm), &connected, &mut eff, 100, 0, 1,
    );
    let finished = state.receive_message(
        host, &next, &mut leaderboard, &watchers, Some(&tm), &connected, &mut eff, 200, 0, 1,
    );
    assert!(finished);
    // The team is credited with the minimum over its members: Bob earned
    // nothing, so the team score is zero despite Alice's correct answer.
    let score = leaderboard.score(team).expect("the team is listed");
    assert_eq!(score.points, 0);
}

#[test]
fn team_index_counts_registered_members_only() {
    let host = player(1);
    let alice = player(2);
    let bob = player(3);
    let (mut watchers, connected) = setup_watchers(host, &[alice, bob]);
    let mut names = fuiz::names::Names::new();
    let mut tm = fuiz::teams::TeamManager::new(2, false);
    tm.finalize(&mut watchers, &mut names, &connected);
    assert_eq!(tm.get_team(alice), tm.get_team(bob));

    // Against a registry that only holds Alice, Bob is filtered out
    // entirely and Alice sits at position zero of the filtered list.
    let mut partial = fuiz::watcher::Watchers::with_host_id(host);
    partial
        .add_watcher(
            alice,
            fuiz::watcher::Value::Player(fuiz::watcher::PlayerValue::Individual {
                name: String::from("alice"),
            }),
        )
        .unwrap();
    assert_eq!(tm.team_index(bob, &partial), None);
    assert_eq!(tm.team_index(alice, &partial), Some(0));
}
