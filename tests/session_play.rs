use space_combat::dictionary::Dictionary;
use space_combat::error::GameError;
use space_combat::key::AccountKey;
use space_combat::matchmaking::MatchmakingData;
use space_combat::random::SplitMix64;
use space_combat::session::{check_address, GameSession};
use space_combat::ship::{ManeuverData, Pose};

fn key(w0: u64) -> AccountKey {
    AccountKey { w0, w1: 0, w2: 0, w3: 0 }
}

const ALICE: u64 = 0xa11ce;
const BOB: u64 = 0xb0b;

/// Alice queues first, Bob joins second: Bob is player 1, Alice player 2.
fn paired_session() -> GameSession {
    let mut mm = MatchmakingData::new();
    assert!(mm.join_queue(key(ALICE), 9).is_none());
    mm.join_queue(key(BOB), 9).unwrap()
}

fn draw_for(seed: u64, skipped: u32) -> u64 {
    let mut rng = SplitMix64::new(&key(seed));
    rng.reset();
    rng.skip(skipped);
    rng.next()
}

fn hits(draw: u64, hit_chance_thousandths: u64) -> bool {
    (draw as u128) * 1000 < (hit_chance_thousandths as u128) * (u64::MAX as u128)
}

/// A session-record key whose stream makes the shot with `skipped` discarded draws hit (or miss).
fn seed_key(skipped: u32, want_hit: bool) -> AccountKey {
    let mut seed = 1u64;
    while hits(draw_for(seed, skipped), 700) != want_hit {
        seed += 1;
    }
    key(seed)
}

#[test]
fn new_session_is_unpaired() {
    let s = GameSession::new(4);
    assert_eq!(s.game_id, 4);
    assert_eq!(s.turn, 1);
    assert_eq!(s.phase, 0);
    assert!(s.ships.is_empty());
    assert!(s.winning_player.is_none());
    assert!(s.player1.is_none());
}

#[test]
fn end_to_end_first_shot_hits() {
    let mut s = paired_session();
    assert_eq!(s.ships.len(), 6);
    assert_eq!(s.turn, 1);
    assert_eq!(s.phase, 0);
    assert_eq!(s.player1, key(BOB));
    assert_eq!(s.player2, key(ALICE));
    assert_eq!(s.active_player, s.player1);
    assert_eq!(s.ships[0].weapon_data.hit_chance, 700);
    // bring ship 3 within range, straight ahead of ship 0
    s.ships[3].y_position = 0;
    let seed = seed_key(6, true);
    let damage = s.ships[0].weapon_data.damage;
    let before = s.ships[3].health;
    assert_eq!(s.fire_weapon(key(BOB), &seed, 0, 3, 0), Ok(()));
    assert_eq!(s.ships[3].health, before - damage);
    assert_eq!(s.ships[3].health, 60_000);
    assert_eq!(s.last_action, 1);
    assert_eq!(s.last_action_data, vec![0, 3]);
    assert!(s.ships[0].activated);
    assert!(!s.ships[3].activated);
    assert_eq!(s.active_player, key(ALICE));
}

#[test]
fn shot_that_misses_leaves_health() {
    let mut s = paired_session();
    s.ships[3].y_position = 0;
    let seed = seed_key(6, false);
    assert_eq!(s.fire_weapon(key(BOB), &seed, 0, 3, 0), Ok(()));
    assert_eq!(s.ships[3].health, 100_000);
    assert!(s.ships[0].activated);
    assert_eq!(s.last_action_data, vec![0, 3]);
}

#[test]
fn shot_out_of_range_rejected() {
    let mut s = paired_session();
    let before_health = s.ships[3].health;
    assert_eq!(s.fire_weapon(key(BOB), &key(1), 0, 3, 0), Err(GameError::InvalidTarget));
    assert_eq!(s.ships[3].health, before_health);
    assert!(!s.ships[0].activated);
}

#[test]
fn shot_at_edge_of_range_accepted() {
    let mut s = paired_session();
    s.ships[3].y_position = 10_000; // exactly 30 away from y = -20
    assert_eq!(s.fire_weapon(key(BOB), &key(1), 0, 3, 0), Ok(()));
}

#[test]
fn shot_outside_arc_rejected() {
    let mut s = paired_session();
    s.ships[3].y_position = 0;
    assert_eq!(s.fire_weapon(key(BOB), &key(1), 0, 3, 45_001), Err(GameError::InvalidTarget));
    assert_eq!(s.fire_weapon(key(BOB), &key(1), 0, 3, -45_001), Err(GameError::InvalidTarget));
    assert_eq!(s.fire_weapon(key(BOB), &key(1), 0, 3, 45_000), Ok(()));
}

#[test]
fn shot_rejections_in_order() {
    let mut s = paired_session();
    s.ships[3].y_position = 0;
    assert_eq!(s.fire_weapon(key(ALICE), &key(1), 3, 0, 0), Err(GameError::InvalidShip));
    assert_eq!(s.fire_weapon(key(BOB), &key(1), 0, 6, 0), Err(GameError::InvalidTarget));
    assert_eq!(s.fire_weapon(key(BOB), &key(1), 6, 3, 0), Err(GameError::InvalidShip));
    assert_eq!(s.fire_weapon(key(BOB), &key(1), 3, 0, 0), Err(GameError::InvalidShip));
    s.ships[1].activated = true;
    assert_eq!(s.fire_weapon(key(BOB), &key(1), 1, 3, 0), Err(GameError::InvalidShip));
    s.ships[2].health = 0;
    assert_eq!(s.fire_weapon(key(BOB), &key(1), 2, 3, 0), Err(GameError::InvalidShip));
    s.winning_player = key(ALICE);
    assert_eq!(s.fire_weapon(key(BOB), &key(1), 0, 3, 0), Err(GameError::InvalidShip));
}

#[test]
fn destroyed_target_is_taken_out_of_play() {
    let mut s = paired_session();
    s.ships[3].y_position = 0;
    s.ships[3].health = 10_000;
    s.ships[3].maneuver_data = ManeuverData { angle: 5_000, speed: 12_000 };
    let seed = seed_key(6, true);
    assert_eq!(s.fire_weapon(key(BOB), &seed, 0, 3, 0), Ok(()));
    assert_eq!(s.ships[3].health, -30_000);
    assert!(s.ships[3].activated);
    assert_eq!(s.ships[3].maneuver_data, ManeuverData { angle: 0, speed: 0 });
    assert!(s.winning_player.is_none());
}

#[test]
fn target_at_exactly_zero_health_stays_in_play() {
    let mut s = paired_session();
    s.ships[3].y_position = 0;
    s.ships[3].health = 40_000;
    let seed = seed_key(6, true);
    assert_eq!(s.fire_weapon(key(BOB), &seed, 0, 3, 0), Ok(()));
    assert_eq!(s.ships[3].health, 0);
    assert!(!s.ships[3].activated);
}

#[test]
fn last_enemy_ship_destroyed_wins() {
    let mut s = paired_session();
    s.ships[3].y_position = 0;
    s.ships[3].health = 10_000;
    s.ships[4].health = 0;
    s.ships[5].health = -1;
    let seed = seed_key(6, true);
    assert_eq!(s.fire_weapon(key(BOB), &seed, 0, 3, 0), Ok(()));
    assert_eq!(s.winning_player, key(BOB));
    // the game is now locked
    assert_eq!(s.skip(key(BOB), 1), Err(GameError::InvalidShip));
    assert_eq!(s.upgrade(key(BOB), 1, 1), Err(GameError::InvalidShip));
    let intents: Dictionary<u32, ManeuverData> = Dictionary::new();
    assert_eq!(s.commit_maneuvers(key(BOB), &intents), Err(GameError::InvalidShip));
    assert_eq!(s.fire_weapon(key(BOB), &seed, 1, 3, 0), Err(GameError::InvalidShip));
}

#[test]
fn own_fleet_gone_gives_win_to_other() {
    let mut s = paired_session();
    // Bob shoots his own ship 1 (placed right ahead) while his others are gone
    s.ships[1].x_position = 0;
    s.ships[1].y_position = -10_000;
    s.ships[1].health = 10_000;
    s.ships[2].health = 0;
    let seed = seed_key(6, true);
    assert_eq!(s.fire_weapon(key(BOB), &seed, 0, 1, 0), Ok(()));
    // ship 0 still lives, so nobody has won
    assert!(s.winning_player.is_none());
}

#[test]
fn upgrades_add_their_amounts() {
    let expected: [(u32, i64); 6] = [(1, 30_000), (2, 101_250), (3, 57_500), (4, 40_000), (5, 60_000), (6, 800)];
    for (code, value) in expected.iter() {
        let mut s = paired_session();
        assert_eq!(s.upgrade(key(BOB), 0, *code), Ok(()));
        let ship = s.ships[0];
        let got = match code {
            1 => ship.max_speed,
            2 => ship.max_angle,
            3 => ship.weapon_data.arc,
            4 => ship.weapon_data.range,
            5 => ship.weapon_data.damage,
            _ => ship.weapon_data.hit_chance,
        };
        assert_eq!(got, *value);
        assert!(ship.activated);
        assert_eq!(s.last_action, 2);
        assert_eq!(s.last_action_data, vec![0, *code]);
        assert_eq!(s.active_player, key(ALICE));
    }
}

#[test]
fn unknown_upgrade_rejected_without_change() {
    let mut s = paired_session();
    assert_eq!(s.upgrade(key(BOB), 0, 7), Err(GameError::InvalidShip));
    assert_eq!(s.upgrade(key(BOB), 0, 0), Err(GameError::InvalidShip));
    assert!(!s.ships[0].activated);
    assert_eq!(s.ships[0].max_speed, 20_000);
    assert_eq!(s.active_player, key(BOB));
    assert_eq!(s.last_action, 0);
}

#[test]
fn upgrade_of_missing_ship_is_invalid_target() {
    let mut s = paired_session();
    assert_eq!(s.upgrade(key(BOB), 6, 1), Err(GameError::InvalidTarget));
    assert_eq!(s.skip(key(BOB), 9), Err(GameError::InvalidTarget));
}

#[test]
fn upgrade_by_inactive_player_rejected() {
    let mut s = paired_session();
    assert_eq!(s.upgrade(key(ALICE), 3, 1), Err(GameError::InvalidShip));
    assert_eq!(s.upgrade(key(BOB), 3, 1), Err(GameError::InvalidShip));
}

#[test]
fn turn_rolls_over_when_all_have_acted() {
    let mut s = paired_session();
    s.ships[5].health = -10; // destroyed, and already spent
    s.ships[5].activated = true;
    assert_eq!(s.skip(key(BOB), 0), Ok(()));
    assert_eq!(s.active_player, key(ALICE));
    assert_eq!(s.skip(key(ALICE), 3), Ok(()));
    assert_eq!(s.active_player, key(BOB));
    assert_eq!(s.upgrade(key(BOB), 1, 4), Ok(()));
    assert_eq!(s.skip(key(ALICE), 4), Ok(()));
    assert_eq!(s.active_player, key(BOB));
    assert_eq!(s.turn, 1);
    assert_eq!(s.skip(key(BOB), 2), Ok(()));
    assert_eq!(s.turn, 2);
    assert_eq!(s.phase, 0);
    assert_eq!(s.active_player, key(BOB));
    for i in 0..5 {
        assert!(!s.ships[i].activated);
    }
    assert!(s.ships[5].activated);
    assert_eq!(s.last_action, 3);
    assert_eq!(s.last_action_data, vec![2]);
}

#[test]
fn same_player_continues_when_other_is_spent() {
    let mut s = paired_session();
    s.ships[3].activated = true;
    s.ships[4].activated = true;
    s.ships[5].activated = true;
    assert_eq!(s.skip(key(BOB), 0), Ok(()));
    assert_eq!(s.active_player, key(BOB));
    assert_eq!(s.turn, 1);
}

#[test]
fn turn_counter_stops_at_its_largest_value() {
    let mut s = paired_session();
    s.turn = 255;
    for i in 1..6 {
        s.ships[i].activated = true;
    }
    assert_eq!(s.skip(key(BOB), 0), Ok(()));
    assert_eq!(s.turn, 255);
    assert_eq!(s.phase, 0);
}

#[test]
fn maneuvers_commit_then_resolve() {
    let mut s = paired_session();
    let mut bob_moves: Dictionary<u32, ManeuverData> = Dictionary::new();
    bob_moves.insert(0, ManeuverData { angle: 0, speed: 10_000 });
    bob_moves.insert(99, ManeuverData { angle: 0, speed: 10_000 });
    assert_eq!(s.commit_maneuvers(key(BOB), &bob_moves), Ok(false));
    assert!(s.player1_ready);
    assert_eq!(s.ships[0].maneuver_data, ManeuverData { angle: 0, speed: 10_000 });
    assert_eq!(s.commit_maneuvers(key(BOB), &bob_moves), Err(GameError::InvalidShip));
    let mut alice_moves: Dictionary<u32, ManeuverData> = Dictionary::new();
    alice_moves.insert(3, ManeuverData { angle: 22_500, speed: 15_000 });
    assert_eq!(s.commit_maneuvers(key(ALICE), &alice_moves), Ok(true));
    assert_eq!(s.ships[3].maneuver_data, ManeuverData { angle: 22_500, speed: 15_000 });
    assert_eq!(s.commit_maneuvers(key(ALICE), &alice_moves), Err(GameError::InvalidShip));

    s.ships[2].health = 0;
    let mut poses = Vec::new();
    for ship in s.ships.iter() {
        poses.push(Pose { x_position: ship.x_position, y_position: ship.y_position + 10_000, rotation: ship.rotation });
    }
    poses[1] = Pose { x_position: -42_001, y_position: 0, rotation: 0 };
    poses[4] = Pose { x_position: 0, y_position: 73_000, rotation: 5 };
    s.resolve_maneuvers(&poses);
    assert_eq!((s.ships[0].x_position, s.ships[0].y_position), (0, -10_000));
    assert_eq!(s.ships[1].health, 0);
    assert_eq!(s.ships[1].x_position, -42_001);
    assert_eq!(s.ships[2].y_position, -20_000); // destroyed ships stay put
    assert_eq!(s.ships[4].health, 100_000); // on the edge, still inside
    assert_eq!(s.ships[4].rotation, 5);
    assert!(!s.player1_ready && !s.player2_ready);
    assert_eq!(s.phase, 1);
    assert_eq!(s.last_action, 0);
}

#[test]
fn arena_death_sets_health_to_zero() {
    for (x, y) in [(42_001i64, 0i64), (-42_001, 0), (0, 73_001), (0, -73_001)] {
        let mut s = paired_session();
        s.ships[0].health = 55_500;
        s.player1_ready = true;
        s.player2_ready = true;
        let mut poses: Vec<Pose> = s.ships.iter().map(|sh| Pose { x_position: sh.x_position, y_position: sh.y_position, rotation: sh.rotation }).collect();
        poses[0] = Pose { x_position: x, y_position: y, rotation: 90_000 };
        s.resolve_maneuvers(&poses);
        assert_eq!(s.ships[0].health, 0);
        assert_eq!(s.ships[1].health, 100_000);
    }
}

#[test]
fn commit_on_decided_game_rejected() {
    let mut s = paired_session();
    s.winning_player = key(ALICE);
    let moves: Dictionary<u32, ManeuverData> = Dictionary::new();
    assert_eq!(s.commit_maneuvers(key(BOB), &moves), Err(GameError::InvalidShip));
    assert!(!s.player1_ready);
}

#[test]
fn commit_by_outsider_rejected() {
    let mut s = paired_session();
    let moves: Dictionary<u32, ManeuverData> = Dictionary::new();
    assert_eq!(s.commit_maneuvers(key(777), &moves), Err(GameError::InvalidShip));
    assert!(!s.player2_ready);
    assert!(!s.player1_ready);
}

#[test]
fn intents_for_others_ships_ignored() {
    let mut s = paired_session();
    let mut moves: Dictionary<u32, ManeuverData> = Dictionary::new();
    moves.insert(1, ManeuverData { angle: 0, speed: 12_000 });
    moves.insert(4, ManeuverData { angle: 0, speed: 15_000 });
    assert_eq!(s.commit_maneuvers(key(BOB), &moves), Ok(false));
    assert_eq!(s.ships[1].maneuver_data, ManeuverData { angle: 0, speed: 12_000 });
    assert_eq!(s.ships[4].maneuver_data, ManeuverData { angle: 0, speed: 0 });
}

#[test]
fn hit_roll_uses_turn_and_shooter_index() {
    // the shot of ship 1 in turn 2 of a six-ship game draws after 13 discarded outputs
    let mut s = paired_session();
    s.turn = 2;
    s.ships[1].x_position = 0;
    s.ships[1].y_position = -20_000;
    s.ships[0].x_position = 30_000;
    s.ships[3].y_position = 0;
    let seed = seed_key(13, true);
    assert_eq!(s.fire_weapon(key(BOB), &seed, 1, 3, 0), Ok(()));
    assert_eq!(s.ships[3].health, 60_000);
    let mut t = paired_session();
    t.turn = 2;
    t.ships[1].x_position = 0;
    t.ships[1].y_position = -20_000;
    t.ships[0].x_position = 30_000;
    t.ships[3].y_position = 0;
    let miss = seed_key(13, false);
    assert_eq!(t.fire_weapon(key(BOB), &miss, 1, 3, 0), Ok(()));
    assert_eq!(t.ships[3].health, 100_000);
}

#[test]
fn starting_fleet_layout() {
    let s = paired_session();
    let expected = [
        (0, -20_000, 90_000, BOB),
        (-20_000, -20_000, 90_000, BOB),
        (-40_000, -20_000, 90_000, BOB),
        (0, 40_000, -90_000, ALICE),
        (20_000, 40_000, -90_000, ALICE),
        (40_000, 40_000, -90_000, ALICE),
    ];
    for (i, (x, y, r, owner)) in expected.iter().enumerate() {
        let ship = s.ships[i];
        assert_eq!(ship.id, i as u32);
        assert_eq!((ship.x_position, ship.y_position, ship.rotation), (*x, *y, *r));
        assert_eq!(ship.owner, key(*owner));
        assert_eq!(ship.health, 100_000);
        assert_eq!((ship.min_speed, ship.max_speed), (10_000, 20_000));
        assert_eq!((ship.min_angle, ship.max_angle), (0, 90_000));
        assert_eq!(ship.weapon_data.arc, 45_000);
        assert_eq!(ship.weapon_data.range, 30_000);
        assert_eq!(ship.weapon_data.damage, 40_000);
        assert!(!ship.activated);
    }
}

#[test]
fn turn_stays_when_other_side_has_only_wrecks_left_to_act() {
    let mut s = paired_session();
    s.ships[3].activated = true;
    s.ships[4].activated = true;
    s.ships[5].health = 0; // left the arena: destroyed but never marked as acted
    assert_eq!(s.skip(key(BOB), 0), Ok(()));
    assert_eq!(s.active_player, key(BOB));
    assert_eq!(s.turn, 1);
}

#[test]
fn health_never_rises_over_a_series_of_shots() {
    let mut s = paired_session();
    s.ships[3].y_position = 0;
    s.ships[4].x_position = -20_000;
    s.ships[4].y_position = 0;
    let seed = key(424242);
    let mut last: Vec<i64> = s.ships.iter().map(|sh| sh.health).collect();
    let shots: [(u64, u32, u32); 6] = [(BOB, 0, 3), (ALICE, 3, 0), (BOB, 1, 4), (ALICE, 4, 1), (BOB, 2, 3), (ALICE, 5, 2)];
    for (caller, ship, target) in shots.iter() {
        let _ = s.fire_weapon(key(*caller), &seed, *ship, *target, 0);
        for (i, sh) in s.ships.iter().enumerate() {
            assert!(sh.health <= last[i]);
            last[i] = sh.health;
        }
    }
}

#[test]
fn decided_game_rejects_every_action() {
    let mut s = paired_session();
    s.ships[3].y_position = 0;
    s.winning_player = key(ALICE);
    let moves: Dictionary<u32, ManeuverData> = Dictionary::new();
    assert_eq!(s.commit_maneuvers(key(BOB), &moves), Err(GameError::InvalidShip));
    assert_eq!(s.commit_maneuvers(key(ALICE), &moves), Err(GameError::InvalidShip));
    assert_eq!(s.fire_weapon(key(BOB), &key(1), 0, 3, 0), Err(GameError::InvalidShip));
    assert_eq!(s.upgrade(key(BOB), 0, 1), Err(GameError::InvalidShip));
    assert_eq!(s.skip(key(BOB), 0), Err(GameError::InvalidShip));
    assert!(!s.ships[0].activated);
    assert_eq!(s.ships[3].health, 100_000);
}

#[test]
fn record_address_must_match() {
    assert_eq!(check_address(&key(5), &key(5)), Ok(()));
    assert_eq!(check_address(&key(5), &key(6)), Err(GameError::InvalidPDA));
}

#[test]
fn health_stops_at_lowest_value() {
    let mut s = paired_session();
    s.ships[3].y_position = 0;
    s.ships[3].health = i64::MIN + 5;
    let seed = seed_key(6, true);
    assert_eq!(s.fire_weapon(key(BOB), &seed, 0, 3, 0), Ok(()));
    assert_eq!(s.ships[3].health, i64::MIN);
}

#[test]
fn wreck_left_unactivated_does_not_hold_up_the_turn() {
    let mut s = paired_session();
    s.ships[5].health = 0; // left the arena: destroyed but never marked as acted
    s.ships[1].activated = true;
    s.ships[2].activated = true;
    s.ships[3].activated = true;
    s.ships[4].activated = true;
    assert_eq!(s.upgrade(key(BOB), 0, 1), Ok(()));
    assert_eq!(s.turn, 2);
    assert_eq!(s.phase, 0);
    assert_eq!(s.active_player, key(BOB));
    for i in 0..5 {
        assert!(!s.ships[i].activated);
    }
    assert!(!s.ships[5].activated);
}
