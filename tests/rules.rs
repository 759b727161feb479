use esgea::ledger::decimal_string;
use esgea::{Action, Event, Game, GameError, IntelKind, LocationId, Observation, Player, PlayerId};

fn queue(game: &Game, pid: PlayerId) -> Vec<Observation> {
    game.event
        .private_observations
        .get(&pid)
        .cloned()
        .unwrap_or_default()
}

fn line_of_three() -> (Game, LocationId, LocationId, LocationId) {
    let mut game = Game::new();
    let a = game.add_location("A", 2);
    let b = game.add_location("B", 1);
    let c = game.add_location("C", 4);
    game.connect_locations(a, b);
    (game, a, b, c)
}

#[test]
fn costs_are_fixed() {
    assert_eq!(IntelKind::HideSignals.cost(), 2);
    assert_eq!(IntelKind::Invisible.cost(), 2);
    assert_eq!(IntelKind::Reveal.cost(), 1);
    assert_eq!(IntelKind::Prepare.cost(), 0);
}

#[test]
fn purchase_deducts_or_leaves_balance() {
    let mut p = Player::default();
    assert!(!p.alive);
    assert_eq!(p.intel, 0);
    p.intel = 3;
    assert_eq!(p.purchase(IntelKind::HideSignals), Ok(()));
    assert_eq!(p.intel, 1);
    assert_eq!(p.purchase(IntelKind::Invisible), Err(GameError::NotEnoughIntel));
    assert_eq!(p.intel, 1);
    assert_eq!(p.purchase(IntelKind::Reveal), Ok(()));
    assert_eq!(p.intel, 0);
    assert_eq!(p.purchase(IntelKind::Prepare), Ok(()));
    assert_eq!(p.intel, 0);
}

#[test]
fn hide_signals_without_intel_changes_nothing() {
    let (mut game, a, _, _) = line_of_three();
    let p = game.spawn_player(a);
    game.players[p].intel = 1;
    assert_eq!(game.hide_signals(p), Err(GameError::NotEnoughIntel));
    assert_eq!(game.players[p].intel, 1);
    assert!(!game.players[p].hidden_signals);
    assert!(game.event.public_observations.is_empty());
}

#[test]
fn hide_signals_pays_then_would_noop() {
    let (mut game, a, _, _) = line_of_three();
    let p = game.spawn_player(a);
    game.players[p].intel = 5;
    assert_eq!(game.do_action(p, Action::HideSignals), Ok(()));
    assert_eq!(game.players[p].intel, 3);
    assert!(game.players[p].hidden_signals);
    assert_eq!(
        game.event.public_observations,
        vec![Observation::Intel { by: Some(p), kind: Some(IntelKind::HideSignals) }]
    );
    assert_eq!(game.do_action(p, Action::HideSignals), Err(GameError::WouldNoop));
    assert_eq!(game.players[p].intel, 3);
    // Later purchases no longer name their kind.
    assert_eq!(game.do_action(p, Action::Prepare), Ok(()));
    assert_eq!(
        game.event.public_observations.last(),
        Some(&Observation::Intel { by: Some(p), kind: None })
    );
}

#[test]
fn invisible_pays_and_expires_at_turn_start() {
    let (mut game, a, _, _) = line_of_three();
    let p = game.spawn_player(a);
    game.players[p].intel = 2;
    assert_eq!(game.invisible_action(p), Ok(()));
    assert!(game.players[p].invisible);
    assert_eq!(game.players[p].intel, 0);
    assert_eq!(game.invisible_action(p), Err(GameError::WouldNoop));
    game.start_turn(p);
    assert!(!game.players[p].invisible);
}

#[test]
fn invisible_without_intel_fails() {
    let (mut game, a, _, _) = line_of_three();
    let p = game.spawn_player(a);
    game.players[p].intel = 1;
    assert_eq!(game.do_action(p, Action::Invisible), Err(GameError::NotEnoughIntel));
    assert_eq!(game.players[p].intel, 1);
    assert!(!game.players[p].invisible);
}

#[test]
fn connecting_twice_keeps_one_edge() {
    let (mut game, a, b, c) = line_of_three();
    game.connect_locations(b, a);
    game.connect_locations(a, b);
    assert_eq!(game.edges_list(), vec![(a, b)]);
    assert_eq!(game.neighbors(a), vec![b]);
    assert_eq!(game.neighbors(b), vec![a]);
    assert!(game.neighbors(c).is_empty());
    game.connect_locations(c, b);
    assert_eq!(game.edges_list(), vec![(a, b), (c, b)]);
    let mut around_b = game.neighbors(b);
    around_b.sort();
    assert_eq!(around_b, vec![a, c]);
}

#[test]
fn locations_snapshot_in_handle_order() {
    let (game, a, b, c) = line_of_three();
    let locations = game.locations();
    assert_eq!(locations.len(), 3);
    assert_eq!(locations[a].name, "A");
    assert_eq!(locations[b].name, "B");
    assert_eq!(locations[c].name, "C");
    assert_eq!(locations[c].base_income, 4);
    assert_eq!(locations[c].index, c);
    assert_eq!(locations[c].control, None);
    assert_eq!(locations[c].pending_powerup, None);
    assert!(!locations[c].boost);
}

#[test]
fn move_requires_an_edge() {
    let (mut game, a, b, c) = line_of_three();
    let p = game.spawn_player(a);
    assert_eq!(game.do_action(p, Action::Move(c)), Err(GameError::WouldNoop));
    assert_eq!(game.players[p].location, a);
    assert_eq!(game.do_action(p, Action::Move(b)), Ok(()));
    assert_eq!(game.players[p].location, b);
    assert_eq!(game.do_action(p, Action::Move(c)), Err(GameError::WouldNoop));
    assert_eq!(game.players[p].location, b);
    assert_eq!(game.do_action(p, Action::Move(99)), Err(GameError::WouldNoop));
    assert_eq!(game.players[p].location, b);
}

#[test]
fn active_scan_reveals_visible_occupants() {
    let (mut game, a, b, _) = line_of_three();
    let scout = game.spawn_player(a);
    let seen = game.spawn_player(b);
    let hidden = game.spawn_player(b);
    game.players[scout].active_scan = true;
    game.players[hidden].invisible = true;
    assert!(game.try_move(scout, b));
    assert_eq!(queue(&game, scout), vec![Observation::Reveal { who: seen, at: b }]);
    assert!(queue(&game, seen).is_empty());
}

#[test]
fn move_without_scan_reveals_nothing() {
    let (mut game, a, b, _) = line_of_three();
    let walker = game.spawn_player(a);
    game.spawn_player(b);
    assert!(game.try_move(walker, b));
    assert!(queue(&game, walker).is_empty());
}

#[test]
fn turn_income_counts_controlled_locations_only() {
    let (mut game, a, b, c) = line_of_three();
    let p = game.spawn_player(b);
    let q = game.spawn_player(a);
    game.cities[petgraph::graph::NodeIndex::new(a)].control = Some(p);
    game.cities[petgraph::graph::NodeIndex::new(c)].control = Some(p);
    game.cities[petgraph::graph::NodeIndex::new(b)].control = Some(q);
    game.players[p].intel = 1;
    game.start_turn(p);
    assert_eq!(game.players[p].intel, 7);
    game.start_turn(q);
    assert_eq!(game.players[q].intel, 1);
}

#[test]
fn turn_income_saturates() {
    let (mut game, a, _, _) = line_of_three();
    let p = game.spawn_player(a);
    game.cities[petgraph::graph::NodeIndex::new(a)].control = Some(p);
    game.players[p].intel = u32::MAX - 1;
    game.start_turn(p);
    assert_eq!(game.players[p].intel, u32::MAX);
}

#[test]
fn turn_start_reveals_and_unconceals_co_located() {
    let (mut game, a, b, _) = line_of_three();
    let p = game.spawn_player(a);
    let here = game.spawn_player(a);
    let ghost = game.spawn_player(a);
    let away = game.spawn_player(b);
    game.players[here].concealed = true;
    game.players[ghost].concealed = true;
    game.players[ghost].invisible = true;
    game.players[away].concealed = true;
    game.start_turn(p);
    assert_eq!(queue(&game, p), vec![Observation::Reveal { who: here, at: a }]);
    assert!(!game.players[here].concealed);
    assert!(game.players[ghost].concealed);
    assert!(game.players[away].concealed);
}

#[test]
fn reveal_of_invisible_target_fails_without_location() {
    let (mut game, a, b, _) = line_of_three();
    let seeker = game.spawn_player(a);
    let target = game.spawn_player(b);
    game.players[seeker].intel = 1;
    game.players[target].invisible = true;
    assert_eq!(game.do_action(seeker, Action::Reveal(Some(target))), Ok(()));
    assert_eq!(queue(&game, seeker), vec![Observation::RevealFailure { who: target }]);
    assert_eq!(game.players[seeker].intel, 0);
    assert_eq!(
        game.event.public_observations,
        vec![Observation::Intel { by: Some(seeker), kind: Some(IntelKind::Reveal) }]
    );
}

#[test]
fn reveal_needs_intel_and_a_valid_target() {
    let (mut game, a, _, _) = line_of_three();
    let seeker = game.spawn_player(a);
    let other = game.spawn_player(a);
    assert_eq!(game.reveal_action(seeker, Some(other)), Err(GameError::NotEnoughIntel));
    game.players[seeker].intel = 4;
    assert_eq!(game.reveal_action(seeker, Some(7)), Err(GameError::InvalidHandle));
    assert_eq!(game.players[seeker].intel, 4);
    assert!(queue(&game, seeker).is_empty());
}

#[test]
fn reveal_without_target_sweeps_other_players() {
    let (mut game, a, b, _) = line_of_three();
    let first = game.spawn_player(a);
    let seeker = game.spawn_player(a);
    let ghost = game.spawn_player(a);
    let away = game.spawn_player(b);
    game.players[seeker].intel = 1;
    game.players[ghost].invisible = true;
    assert_eq!(game.reveal_action(seeker, None), Ok(()));
    assert_eq!(
        queue(&game, seeker),
        vec![
            Observation::Reveal { who: first, at: a },
            Observation::RevealFailure { who: ghost },
            Observation::RevealFailure { who: away },
        ]
    );
}

#[test]
fn strike_kills_co_located_and_informs_everyone() {
    let (mut game, a, b, _) = line_of_three();
    let striker = game.spawn_player(a);
    let victim = game.spawn_player(a);
    let blind = game.spawn_player(b);
    let watcher = game.spawn_player(b);
    game.players[watcher].visible_violence = true;
    assert_eq!(game.do_action(striker, Action::Strike), Ok(()));
    assert!(game.players[striker].alive);
    assert!(!game.players[victim].alive);
    assert!(game.players[blind].alive);
    assert!(game.players[watcher].alive);
    let death = Observation::Death { by: striker, of: victim };
    assert_eq!(queue(&game, striker), vec![death]);
    assert_eq!(
        queue(&game, victim),
        vec![death, Observation::Strike { by: Some(striker), at: Some(a) }]
    );
    assert_eq!(queue(&game, blind), vec![Observation::Strike { by: Some(striker), at: None }]);
    assert_eq!(
        queue(&game, watcher),
        vec![Observation::Strike { by: Some(striker), at: Some(a) }]
    );
    assert!(game.event.public_observations.is_empty());
}

#[test]
fn strike_on_earlier_dead_elsewhere_hides_location() {
    let (mut game, a, b, _) = line_of_three();
    let striker = game.spawn_player(a);
    let dead = game.spawn_player(b);
    game.players[dead].alive = false;
    game.strike(striker);
    assert_eq!(queue(&game, dead), vec![Observation::Strike { by: Some(striker), at: None }]);
}

#[test]
fn capture_and_wait_are_public() {
    let (mut game, a, _, _) = line_of_three();
    let p = game.spawn_player(a);
    assert_eq!(game.do_action(p, Action::Capture), Ok(()));
    assert_eq!(game.do_action(p, Action::Wait), Ok(()));
    assert_eq!(game.locations()[a].control, Some(p));
    assert_eq!(
        game.event.public_observations,
        vec![Observation::Capture { by: p, at: a }, Observation::WaitMove { by: Some(p) }]
    );
    game.reset_event();
    assert!(game.event.public_observations.is_empty());
    assert!(game.event.private_observations.get(&p).is_none());
}

#[test]
fn unknown_player_is_rejected() {
    let (mut game, a, _, _) = line_of_three();
    game.spawn_player(a);
    assert_eq!(game.do_action(3, Action::Strike), Err(GameError::InvalidHandle));
    assert_eq!(game.do_action(1, Action::Wait), Err(GameError::InvalidHandle));
    assert_eq!(game.hide_signals(1), Err(GameError::InvalidHandle));
    assert!(game.event.public_observations.is_empty());
}

#[test]
fn spawn_assigns_dense_ids_and_opens_queues() {
    let (mut game, a, b, _) = line_of_three();
    assert_eq!(game.spawn_player(a), 0);
    assert_eq!(game.spawn_player(b), 1);
    assert_eq!(game.players[1].id, 1);
    assert_eq!(game.players[1].location, b);
    assert!(game.players[1].alive);
    assert_eq!(game.players[1].intel, 0);
    assert_eq!(game.event.private_observations.get(&1), Some(&vec![]));
}

#[test]
fn decimal_notation() {
    assert_eq!(decimal_string(0), "0");
    assert_eq!(decimal_string(7), "7");
    assert_eq!(decimal_string(10), "10");
    assert_eq!(decimal_string(12345), "12345");
    assert_eq!(decimal_string(usize::MAX), usize::MAX.to_string());
}

#[test]
fn observations_describe_themselves() {
    assert_eq!(
        Observation::Death { by: 1, of: 2 }.describe(),
        "Player 1 eliminated player 2"
    );
    assert_eq!(
        Observation::Strike { by: Some(3), at: Some(14) }.describe(),
        "Player 3 struck location 14"
    );
    assert_eq!(
        Observation::Strike { by: Some(3), at: None }.describe(),
        "Player 3 launched a covert strike"
    );
    assert_eq!(
        Observation::Strike { by: None, at: Some(1) }.describe(),
        "A mysterious strike occurred"
    );
    assert_eq!(Observation::WaitMove { by: Some(0) }.describe(), "Player 0 waited");
    assert_eq!(Observation::WaitMove { by: None }.describe(), "An unknown player waited");
    assert_eq!(
        Observation::Capture { by: 2, at: 5 }.describe(),
        "Player 2 captured location 5"
    );
    assert_eq!(
        Observation::Intel { by: Some(4), kind: Some(IntelKind::HideSignals) }.describe(),
        "Player 4 spent intel on HideSignals"
    );
    assert_eq!(
        Observation::Intel { by: Some(4), kind: None }.describe(),
        "Player 4 spent intel"
    );
    assert_eq!(
        Observation::Intel { by: None, kind: Some(IntelKind::Reveal) }.describe(),
        "Intel activity detected"
    );
    assert_eq!(
        Observation::Reveal { who: 6, at: 20 }.describe(),
        "Player 6 was revealed at 20"
    );
    assert_eq!(
        Observation::RevealFailure { who: 9 }.describe(),
        "Attempted reveal on player 9 failed"
    );
}

#[test]
fn ledger_keeps_private_and_public_queues_apart() {
    let mut event = Event::default();
    event.note(2, Observation::RevealFailure { who: 0 });
    event.note(2, Observation::WaitMove { by: None });
    event.broadcast(Observation::WaitMove { by: Some(1) });
    event.open_queue(5);
    event.open_queue(2);
    assert_eq!(
        event.private_observations.get(&2),
        Some(&vec![Observation::RevealFailure { who: 0 }, Observation::WaitMove { by: None }])
    );
    assert_eq!(event.private_observations.get(&5), Some(&vec![]));
    assert_eq!(event.private_observations.get(&1), None);
    assert_eq!(event.public_observations, vec![Observation::WaitMove { by: Some(1) }]);
}

#[test]
fn intel_kind_names() {
    assert_eq!(IntelKind::HideSignals.name(), "HideSignals");
    assert_eq!(IntelKind::Reveal.name(), "Reveal");
    assert_eq!(IntelKind::Invisible.name(), "Invisible");
    assert_eq!(IntelKind::Prepare.name(), "Prepare");
}
