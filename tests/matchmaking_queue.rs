use space_combat::dictionary::Dictionary;
use space_combat::key::AccountKey;
use space_combat::matchmaking::MatchmakingData;
use space_combat::session::GameSession;

fn key(w0: u64) -> AccountKey {
    AccountKey { w0, w1: 0, w2: 0, w3: 0 }
}

#[test]
fn first_join_waits_second_join_pairs() {
    let mut mm = MatchmakingData::new();
    assert!(mm.join_queue(key(1), 50).is_none());
    assert_eq!(mm.queue, vec![key(1)]);
    assert_eq!(mm.active_games.len(), 0);
    let s = mm.join_queue(key(2), 51).unwrap();
    assert_eq!(s.player1, key(2));
    assert_eq!(s.player2, key(1));
    assert_eq!(s.active_player, key(2));
    assert_eq!(s.game_id, 51);
    assert_eq!(s.ships.len(), 6);
    assert_eq!(s.turn, 1);
    assert_eq!(s.phase, 0);
    assert!(mm.queue.is_empty());
    assert_eq!(mm.active_games.get(&key(1)), Some(51));
    assert_eq!(mm.active_games.get(&key(2)), Some(51));
}

#[test]
fn third_player_waits_again() {
    let mut mm = MatchmakingData::new();
    mm.join_queue(key(1), 1);
    mm.join_queue(key(2), 1);
    assert!(mm.join_queue(key(3), 2).is_none());
    assert_eq!(mm.queue, vec![key(3)]);
    let s = mm.join_queue(key(4), 2).unwrap();
    assert_eq!(s.player2, key(3));
    assert_eq!(mm.active_games.len(), 4);
}

#[test]
fn pairing_purges_opponent_duplicates() {
    let mut mm = MatchmakingData::new();
    mm.add_to_queue(&key(1));
    mm.add_to_queue(&key(2));
    mm.add_to_queue(&key(1));
    mm.add_to_queue(&key(3));
    let s = mm.join_queue(key(9), 7).unwrap();
    assert_eq!(s.player2, key(1));
    assert_eq!(mm.queue, vec![key(2), key(3)]);
}

#[test]
fn leave_absent_player_changes_nothing() {
    let mut mm = MatchmakingData::new();
    mm.add_to_queue(&key(1));
    mm.add_to_queue(&key(2));
    mm.leave_queue(&key(5));
    assert_eq!(mm.queue, vec![key(1), key(2)]);
    let mut empty = MatchmakingData::new();
    empty.leave_queue(&key(5));
    assert!(empty.queue.is_empty());
}

#[test]
fn leave_removes_every_occurrence() {
    let mut mm = MatchmakingData::new();
    mm.add_to_queue(&key(1));
    mm.add_to_queue(&key(2));
    mm.add_to_queue(&key(1));
    mm.leave_queue(&key(1));
    assert_eq!(mm.queue, vec![key(2)]);
}

#[test]
fn close_undecided_game_gives_win_to_other_player() {
    let mut mm = MatchmakingData::new();
    mm.join_queue(key(1), 3);
    let mut s = mm.join_queue(key(2), 3).unwrap();
    mm.active_games.insert(key(8), 4);
    mm.close_game(&mut s, key(2));
    assert_eq!(s.winning_player, key(1));
    assert!(!mm.active_games.contains_key(&key(1)));
    assert!(!mm.active_games.contains_key(&key(2)));
    assert_eq!(mm.active_games.get(&key(8)), Some(4));
}

#[test]
fn close_by_player_two_gives_win_to_player_one() {
    let mut mm = MatchmakingData::new();
    mm.join_queue(key(1), 3);
    let mut s = mm.join_queue(key(2), 3).unwrap();
    mm.close_game(&mut s, key(1));
    assert_eq!(s.winning_player, key(2));
}

#[test]
fn close_decided_game_keeps_winner() {
    let mut mm = MatchmakingData::new();
    let mut s = GameSession::new(3);
    s.player1 = key(1);
    s.player2 = key(2);
    s.winning_player = key(1);
    mm.close_game(&mut s, key(1));
    assert_eq!(s.winning_player, key(1));
}

#[test]
fn dictionary_insert_get_remove() {
    let mut d: Dictionary<u32, u64> = Dictionary::new();
    assert_eq!(d.insert(3, 30), None);
    assert_eq!(d.insert(4, 40), None);
    assert_eq!(d.insert(3, 33), Some(30));
    assert_eq!(d.len(), 2);
    assert_eq!(d.get(&3), Some(33));
    assert!(d.contains_key(&4));
    assert_eq!(d.remove(&4), Some(40));
    assert_eq!(d.remove(&4), None);
    assert_eq!(d.as_vec(), vec![(3, 33)]);
    d.clear();
    assert_eq!(d.len(), 0);
    assert_eq!(d.get(&3), None);
}

#[test]
fn dictionary_keys_and_values() {
    let mut d: Dictionary<AccountKey, u64> = Dictionary::new();
    d.insert(key(1), 10);
    d.insert(key(2), 20);
    d.insert(key(1), 11);
    let mut keys = d.keys();
    keys.sort_by_key(|k| k.w0);
    assert_eq!(keys, vec![key(1), key(2)]);
    let mut values = d.values();
    values.sort();
    assert_eq!(values, vec![11, 20]);
    let mut same: Dictionary<u32, u64> = Dictionary::new();
    same.insert(1, 7);
    same.insert(2, 7);
    same.insert(3, 9);
    let mut v = same.values();
    v.sort();
    assert_eq!(v, vec![7, 7, 9]);
    assert_eq!(same.as_vec().len(), 3);
}

#[test]
fn matched_opponent_not_left_waiting() {
    let mut mm = MatchmakingData::new();
    mm.add_to_queue(&key(1));
    mm.add_to_queue(&key(1));
    mm.add_to_queue(&key(1));
    let s = mm.join_queue(key(2), 1).unwrap();
    assert_eq!(s.player2, key(1));
    assert!(mm.queue.is_empty());
}
