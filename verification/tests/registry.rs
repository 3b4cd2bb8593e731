//! Checks of the registries, the game machine, and the manager.

use fuiz::fuiz::{Fuiz, SlideConfig};
use fuiz::game::{Game, Options, State, TeamOptions};
use fuiz::game_id::GameId;
use fuiz::game_manager::{GameManager, Statistics};
use fuiz::names::{Error as NameError, Names};
use fuiz::session::{Effects, Outgoing};
use fuiz::store::IdSet;
use fuiz::watcher::{Id, PlayerValue, Value, ValueKind, Watchers};
use fuiz::TruncatedVec;

fn id(bits: u128) -> Id {
    Id::from_bits(bits)
}

fn solo_options() -> Options {
    Options { random_names: false, show_answers: false, no_leaderboard: false, teams: None }
}

#[test]
fn game_id_octal_round_trip() {
    let g = GameId::from_value(0o12345).expect("in range");
    let text = g.to_octal_string();
    assert_eq!(text, "12345");
    let back = GameId::from_octal_str(&text).expect("parses");
    assert_eq!(back.value(), g.value());
    assert!(GameId::from_octal_str("").is_none());
    assert!(GameId::from_octal_str("9").is_none());
    assert!(GameId::from_octal_str("77777").is_some());
    assert!(GameId::from_octal_str("7777").is_none());
    assert_eq!(
        GameId::from_octal_str("010000").map(|g| g.value()),
        Some(0o10000)
    );
}

#[test]
fn names_rules_and_round_trip() {
    let mut names = Names::new();
    let alice = id(1);
    let bob = id(2);
    let long = "x".repeat(31);
    assert_eq!(names.set_name(alice, &long), Err(NameError::TooLong));
    assert_eq!(names.set_name(alice, "   "), Err(NameError::Empty));
    let got = names.set_name(alice, "  alice  ").expect("accepted");
    assert_eq!(got, "alice");
    // The name registry is a bimap: the name leads back to the watcher.
    assert_eq!(names.get_id("alice"), Some(alice));
    assert_eq!(names.get_name(alice).as_deref(), Some("alice"));
    // Uniqueness beats the already-named check.
    assert_eq!(names.set_name(bob, "alice"), Err(NameError::Used));
    // A named watcher cannot take a second name.
    assert_eq!(names.set_name(alice, "alice2"), Err(NameError::Assigned));
    // Failure left nothing behind: bob can take the fresh name.
    assert_eq!(names.set_name(bob, "alice2").as_deref(), Ok("alice2"));
}

#[test]
fn watcher_buckets_follow_roles() {
    let host = id(1);
    let p = id(2);
    let mut watchers = Watchers::with_host_id(host);
    assert_eq!(watchers.specific_count(ValueKind::Host), 1);
    watchers.add_watcher(p, Value::Unassigned).unwrap();
    assert_eq!(watchers.specific_count(ValueKind::Unassigned), 1);
    watchers.update_watcher_value(
        p,
        Value::Player(PlayerValue::Individual { name: String::from("p") }),
    );
    assert_eq!(watchers.specific_count(ValueKind::Unassigned), 0);
    assert_eq!(watchers.specific_count(ValueKind::Player), 1);
    assert!(watchers.has_watcher(p));
    assert_eq!(
        watchers.get_name(p).as_deref(),
        Some("p"),
        "player name follows the role value"
    );
}

#[test]
fn leaderboard_positions_follow_totals() {
    let mut lb = fuiz::leaderboard::Leaderboard::new();
    let a = id(1);
    let b = id(2);
    lb.add_scores(&vec![(a, 100), (b, 300)]);
    lb.add_scores(&vec![(a, 400), (b, 50)]);
    // Totals: a = 500, b = 350.
    let a_score = lb.score(a).unwrap();
    let b_score = lb.score(b).unwrap();
    assert_eq!(a_score.points, 500);
    assert_eq!(a_score.position, 0);
    assert_eq!(b_score.points, 350);
    assert_eq!(b_score.position, 1);
    let (current, prior) = lb.last_two_scores_descending();
    assert_eq!(current.exact_count(), 2);
    assert_eq!(current.items()[0], (a, 500));
    assert_eq!(current.items()[1], (b, 350));
    // The prior standings reflect the cumulative state before the latest
    // slide: a = 100, b = 300.
    assert_eq!(prior.items()[0], (b, 300));
    assert_eq!(prior.items()[1], (a, 100));
}

#[test]
fn leaderboard_summary_counts() {
    let mut lb = fuiz::leaderboard::Leaderboard::new();
    let a = id(1);
    let b = id(2);
    lb.add_scores(&vec![(a, 100), (b, 0)]);
    let (player_count, stats) = lb.host_summary(true);
    assert_eq!(player_count, 2);
    assert_eq!(stats, vec![(1, 1)]);
    assert_eq!(lb.player_summary(a, true), vec![100]);
    assert_eq!(lb.player_summary(b, true), vec![0]);
}

#[test]
fn team_size_one_gives_singleton_teams() {
    let host = id(1);
    let p1 = id(2);
    let p2 = id(3);
    let mut watchers = Watchers::with_host_id(host);
    watchers
        .add_watcher(p1, Value::Player(PlayerValue::Individual { name: String::from("a") }))
        .unwrap();
    watchers
        .add_watcher(p2, Value::Player(PlayerValue::Individual { name: String::from("b") }))
        .unwrap();
    let mut connected = IdSet::new();
    connected.insert(host);
    connected.insert(p1);
    connected.insert(p2);
    let mut names = Names::new();
    let mut tm = fuiz::teams::TeamManager::new(1, true);
    tm.finalize(&mut watchers, &mut names, &connected);
    let t1 = tm.get_team(p1).expect("assigned");
    let t2 = tm.get_team(p2).expect("assigned");
    assert_ne!(t1, t2, "with a target size of one, each player is their own team");
    assert_eq!(tm.team_members(p1).unwrap(), vec![p1]);
    assert_eq!(tm.team_members(p2).unwrap(), vec![p2]);
}

#[test]
fn zero_slides_jump_to_done_with_summary() {
    let host = id(1);
    let fuiz_config = Fuiz { title: String::from("empty"), slides: Vec::new() };
    assert!(fuiz_config.validate());
    let mut game = Game::new(fuiz_config, solo_options(), host);
    let mut connected = IdSet::new();
    connected.insert(host);
    let mut eff = Effects::new();
    game.play(&connected, &mut eff, 0);
    assert!(matches!(game.state, State::Done));
    let mut saw_summary = false;
    for out in &eff.outgoing {
        if let Outgoing::Update { to, message } = out {
            if let fuiz::UpdateMessage::Game(fuiz::game::UpdateMessage::Summary(_)) = message {
                assert_eq!(to, &vec![host]);
                saw_summary = true;
            }
        }
    }
    assert!(saw_summary, "the host receives a final summary");
}

#[test]
fn lock_holds_joiners_inert() {
    let host = id(1);
    let visitor = id(2);
    let fuiz_config = Fuiz { title: String::from("g"), slides: Vec::new() };
    let mut game = Game::new(fuiz_config, solo_options(), host);
    let mut connected = IdSet::new();
    connected.insert(host);
    connected.insert(visitor);
    let mut eff = Effects::new();
    game.receive_message(
        host,
        fuiz::game::IncomingMessage::Host(fuiz::game::IncomingHostMessage::Lock(true)),
        &connected,
        &mut eff,
        0,
    );
    assert!(game.locked);
    let before = eff.outgoing.len();
    game.add_unassigned(visitor, &connected, &mut eff, 0).unwrap();
    // The watcher is stored but receives no name prompt.
    assert!(game.watchers.has_watcher(visitor));
    assert_eq!(eff.outgoing.len(), before);
}

#[test]
fn manager_lifecycle() {
    let mut manager = GameManager::with_statistics(Statistics { game_count: 0, all_games: 0 });
    let host = id(1);
    let fuiz_config = Fuiz { title: String::from("g"), slides: Vec::new() };
    assert!(fuiz_config.validate());
    let game_id = manager
        .add_game(fuiz_config, solo_options(), host)
        .expect("an identifier is free");
    assert!(manager.game_exists(game_id).is_ok());
    assert_eq!(manager.alive_check(game_id), Ok(true));
    assert_eq!(manager.count(), (1, 1));
    assert_eq!(manager.watcher_exists(game_id, host), Ok(true));
    let mut connected = IdSet::new();
    connected.insert(host);
    let mut eff = Effects::new();
    manager.remove_game(game_id, &connected, &mut eff);
    assert!(manager.game_exists(game_id).is_err());
    assert_eq!(manager.count(), (0, 1));
}

#[test]
fn team_scoring_takes_the_minimum() {
    // Two teammates answer correctly at different speeds; the team earns
    // the slower score.
    let host = id(1);
    let p1 = id(2);
    let p2 = id(3);
    let mut watchers = Watchers::with_host_id(host);
    watchers
        .add_watcher(p1, Value::Player(PlayerValue::Individual { name: String::from("a") }))
        .unwrap();
    watchers
        .add_watcher(p2, Value::Player(PlayerValue::Individual { name: String::from("b") }))
        .unwrap();
    let mut connected = IdSet::new();
    connected.insert(host);
    connected.insert(p1);
    connected.insert(p2);
    let mut names = Names::new();
    let mut tm = fuiz::teams::TeamManager::new(2, true);
    tm.finalize(&mut watchers, &mut names, &connected);
    let team = tm.get_team(p1).unwrap();
    assert_eq!(tm.get_team(p2), Some(team), "both players share the one team");

    let config = fuiz::multiple_choice::SlideConfig {
        title: String::from("q"),
        media: None,
        introduce_question: 0,
        time_limit: 10_000,
        points_awarded: 1000,
        answers: vec![fuiz::multiple_choice::AnswerChoice {
            correct: true,
            content: fuiz::fuiz::TextOrMedia::Text(String::from("A")),
        }],
    };
    let mut state = config.to_state();
    let mut leaderboard = fuiz::leaderboard::Leaderboard::new();
    let mut eff = Effects::new();
    state.play(Some(&tm), &watchers, &connected, &mut eff, 0, 0, 1);
    let answer = fuiz::game::IncomingMessage::Player(
        fuiz::game::IncomingPlayerMessage::IndexAnswer(0),
    );
    // p1 would earn 900, p2 would earn 600; the team is credited with 600.
    state.receive_message(
        p1, &answer, &mut leaderboard, &watchers, Some(&tm), &connected, &mut eff, 2_000, 0, 1,
    );
    state.receive_message(
        p2, &answer, &mut leaderboard, &watchers, Some(&tm), &connected, &mut eff, 8_000, 0, 1,
    );
    let finished = state.receive_message(
        host,
        &fuiz::game::IncomingMessage::Host(fuiz::game::IncomingHostMessage::Next),
        &mut leaderboard,
        &watchers,
        Some(&tm),
        &connected,
        &mut eff,
        9_000,
        0,
        1,
    );
    assert!(finished);
    let score = leaderboard.score(team).expect("the team is listed");
    assert_eq!(score.points, 600);
}

#[test]
fn reconnect_replays_the_assigned_name() {
    let host = id(1);
    let bob = id(2);
    let fuiz_config = Fuiz { title: String::from("g"), slides: Vec::new() };
    let mut game = Game::new(fuiz_config, solo_options(), host);
    let mut connected = IdSet::new();
    connected.insert(host);
    connected.insert(bob);
    let mut eff = Effects::new();
    game.add_unassigned(bob, &connected, &mut eff, 0).unwrap();
    game.receive_message(
        bob,
        fuiz::game::IncomingMessage::Unassigned(
            fuiz::game::IncomingUnassignedMessage::NameRequest(String::from("bob")),
        ),
        &connected,
        &mut eff,
        1,
    );
    // A fresh tunnel claims the same identifier: the name is replayed and
    // no duplicate registration happens.
    let mut eff = Effects::new();
    game.update_session(bob, &connected, &mut eff, 2);
    let mut names_sent = 0;
    for out in &eff.outgoing {
        if let Outgoing::Update { to, message } = out {
            if let fuiz::UpdateMessage::Game(fuiz::game::UpdateMessage::NameAssign(name)) = message
            {
                assert_eq!(to, &vec![bob]);
                assert_eq!(name, "bob");
                names_sent += 1;
            }
        }
    }
    assert_eq!(names_sent, 1);
    let mut eff = Effects::new();
    let err = game.receive_message(
        bob,
        fuiz::game::IncomingMessage::Unassigned(
            fuiz::game::IncomingUnassignedMessage::NameRequest(String::from("bob2")),
        ),
        &connected,
        &mut eff,
        3,
    );
    let _ = err;
    // The registry still binds exactly the original name.
    assert_eq!(game.names.get_id("bob"), Some(bob));
    assert_eq!(game.names.get_id("bob2"), None);
}

#[test]
fn truncated_vec_keeps_exact_count() {
    let v: Vec<u64> = (0..10).collect();
    let t = TruncatedVec::new(v, 3, 10);
    assert_eq!(t.exact_count(), 10);
    assert_eq!(t.items(), &vec![0, 1, 2]);
    let mapped = t.map(|x| x + 1);
    assert_eq!(mapped.exact_count(), 10);
    assert_eq!(mapped.items(), &vec![1, 2, 3]);
}

#[test]
fn fuiz_validation_bounds() {
    let too_long_title = "x".repeat(fuiz::fuiz::MAX_TITLE_LENGTH + 1);
    let bad = Fuiz { title: too_long_title, slides: Vec::new() };
    assert!(!bad.validate());
    let slide = SlideConfig::TypeAnswer(fuiz::type_answer::SlideConfig {
        title: String::from("ok"),
        media: None,
        introduce_question: 0,
        time_limit: 10_000,
        points_awarded: 100,
        answers: vec![String::from("a")],
        case_sensitive: false,
    });
    let good = Fuiz { title: String::from("ok"), slides: vec![slide] };
    assert!(good.validate());
    let slow = SlideConfig::TypeAnswer(fuiz::type_answer::SlideConfig {
        title: String::from("ok"),
        media: None,
        introduce_question: 0,
        time_limit: fuiz::fuiz::MAX_TIME_LIMIT + 1,
        points_awarded: 100,
        answers: Vec::new(),
        case_sensitive: false,
    });
    let bad_slide = Fuiz { title: String::from("ok"), slides: vec![slow] };
    assert!(!bad_slide.validate());
    let options = Options {
        random_names: false,
        show_answers: false,
        no_leaderboard: false,
        teams: Some(TeamOptions { size: 6, assign_random: true }),
    };
    assert!(!options.validate());
}
