use vstd::prelude::*;
use crate::key::{AccountKey, none_key};
use crate::matchmaking::{MatchmakingState, join_result, other_than, without};
use crate::random::{GAMMA, MIX1, MIX2, advance, draw_after, mix};
use crate::session::{
    SessionState, all_activated, commit_result, ids_match, resolve_result, started, fresh_session, commit_error, fire_error, fire_result, has_living, is_decided,
    shot_draw, shot_target, skip_error, skip_result, upgrade_error, upgrade_result,
};
use crate::ship::{Ship, ManeuverData, Pose};
use crate::error::GameError;

verus! {

/// Matchmaking is first come, first served: on an empty queue the first of two
/// different players waits and no game starts; the second is then paired with the
/// first, who becomes player 2 of the new session (the newcomer is player 1), the
/// queue is empty again and both players are recorded under the second game id.
pub proof fn lemma_first_two_players_meet(
    st: MatchmakingState,
    first: AccountKey,
    second: AccountKey,
    first_game: u64,
    second_game: u64,
)
    requires
        st.queue.len() == 0,
        first != second,
    ensures
        ({
            let (after_first, none) = join_result(st, first, first_game);
            let (after_second, session) = join_result(after_first, second, second_game);
            &&& none is None
            &&& after_first.queue == seq![first]
            &&& after_first.active_games == st.active_games
            &&& session is Some
            &&& session->Some_0.player1 == second
            &&& session->Some_0.player2 == first
            &&& session->Some_0.active_player == second
            &&& session->Some_0.game_id == second_game
            &&& after_second.queue.len() == 0
            &&& after_second.active_games[first] == second_game
            &&& after_second.active_games[second] == second_game
        }),
{
    let (after_first, _) = join_result(st, first, first_game);
    assert(after_first.queue =~= seq![first]);
    assert(after_first.queue.drop_first() =~= Seq::<AccountKey>::empty());
    lemma_leave_absent(Seq::<AccountKey>::empty(), first);
}

/// The turn counter never goes back: no accepted operation lowers it.
pub proof fn lemma_turn_never_decreases(
    st: SessionState,
    caller: AccountKey,
    session_key: AccountKey,
    ship_id: u32,
    target_id: u32,
    upgrade_id: u32,
    intents: Map<u32, ManeuverData>,
    poses: Seq<Pose>,
)
    ensures
        fire_result(st, session_key, ship_id, target_id).turn >= st.turn,
        upgrade_result(st, ship_id, upgrade_id).turn >= st.turn,
        skip_result(st, ship_id).turn >= st.turn,
        commit_result(st, caller, intents).turn == st.turn,
        resolve_result(st, poses).turn == st.turn,
{
}

/// A player matched by `join_queue` is no longer waiting: the opponent taken from
/// the head of the queue appears nowhere in the queue afterwards.
pub proof fn lemma_matched_opponent_leaves_queue(st: MatchmakingState, player: AccountKey, game_id: u64)
    requires
        st.queue.len() > 0,
    ensures
        !join_result(st, player, game_id).0.queue.contains(st.queue[0]),
{
    let opponent = st.queue[0];
    let rest = st.queue.drop_first();
    let left = without(rest, opponent);
    if left.contains(opponent) {
        let i = choose|i: int| 0 <= i < left.len() && left[i] == opponent;
        rest.lemma_filter_pred(other_than(opponent), i);
    }
}

/// Leaving the queue when absent from it changes nothing.
pub proof fn lemma_leave_absent(queue: Seq<AccountKey>, player: AccountKey)
    requires
        !queue.contains(player),
    ensures
        without(queue, player) == queue,
    decreases queue.len(),
{
    reveal(Seq::filter);
    if queue.len() > 0 {
        assert(!queue.drop_last().contains(player)) by {
            if queue.drop_last().contains(player) {
                let i = choose|i: int| 0 <= i < queue.drop_last().len() && queue.drop_last()[i] == player;
                assert(queue[i] == player);
            }
        }
        lemma_leave_absent(queue.drop_last(), player);
        assert(queue.last() != player) by {
            assert(queue[queue.len() - 1] == queue.last());
        }
        assert(queue.drop_last().push(queue.last()) =~= queue);
    }
}

/// Two streams with the same seed, reset and advanced by the same number of steps,
/// give the same next draw: the draw depends on the seed and the step count alone.
pub proof fn lemma_same_seed_same_draw(seed_a: u64, seed_b: u64, skipped: nat)
    requires
        seed_a == seed_b,
    ensures
        mix(advance(seed_a, skipped + 1)) == mix(advance(seed_b, skipped + 1)),
        draw_after(seed_a, skipped) == draw_after(seed_b, skipped),
{
}

/// The state after `n` steps is the seed plus `n` increments, modulo 2^64.
proof fn lemma_advance_closed_form(seed: u64, n: nat)
    ensures
        advance(seed, n) as int == (seed + n * GAMMA) % 0x1_0000_0000_0000_0000,
    decreases n,
{
    let m: int = 0x1_0000_0000_0000_0000;
    if n == 0 {
        vstd::arithmetic::div_mod::lemma_small_mod(seed as nat, m as nat);
    } else {
        lemma_advance_closed_form(seed, (n - 1) as nat);
        let a = advance(seed, (n - 1) as nat);
        let sum = a + GAMMA;
        if sum >= m {
            vstd::arithmetic::div_mod::lemma_mod_sub_multiples_vanish(sum, m);
            vstd::arithmetic::div_mod::lemma_small_mod((sum - m) as nat, m as nat);
        } else {
            vstd::arithmetic::div_mod::lemma_small_mod(sum as nat, m as nat);
        }
        assert(advance(seed, n) as int == sum % m);
        vstd::arithmetic::div_mod::lemma_small_mod(GAMMA as nat, m as nat);
        vstd::arithmetic::div_mod::lemma_add_mod_noop(seed + (n - 1) * GAMMA, GAMMA as int, m);
        assert(seed + (n - 1) * GAMMA + GAMMA == seed + n * GAMMA) by (nonlinear_arith);
    }
}

/// Streams from one seed advanced by different step counts (below 2^64) stand in
/// different states, so their next draws come from different states: the increment
/// is odd, so no smaller number of steps brings a stream back to where it was.
pub proof fn lemma_different_skips_different_states(seed: u64, m: nat, n: nat)
    requires
        m != n,
        m < 0x1_0000_0000_0000_0000,
        n < 0x1_0000_0000_0000_0000,
    ensures
        advance(seed, m) != advance(seed, n),
{
    let big: int = 0x1_0000_0000_0000_0000;
    let inverse: int = 0xf1de83e19937733d;
    let wrap: int = 0x957bbf35006ed677;
    assert(GAMMA * inverse == 1 + wrap * big);
    lemma_advance_closed_form(seed, m);
    lemma_advance_closed_form(seed, n);
    if advance(seed, m) == advance(seed, n) {
        let (lo, hi) = if m < n { (m, n) } else { (n, m) };
        let d: int = hi - lo;
        vstd::arithmetic::div_mod::lemma_sub_mod_noop(seed + hi * GAMMA, seed + lo * GAMMA, big);
        assert((seed + hi * GAMMA) - (seed + lo * GAMMA) == d * GAMMA) by (nonlinear_arith)
            requires
                d == hi - lo,
        ;
        assert((d * GAMMA) % big == 0);
        vstd::arithmetic::div_mod::lemma_fundamental_div_mod(d * GAMMA, big);
        let q = (d * GAMMA) / big;
        assert(d * GAMMA == big * q);
        let k = q * inverse - d * wrap;
        assert(d == k * big) by (nonlinear_arith)
            requires
                d * GAMMA == big * q,
                GAMMA * inverse == 1 + wrap * big,
                k == q * inverse - d * wrap,
        ;
        assert(false) by (nonlinear_arith)
            requires
                d == k * big,
                0 < d < big,
        ;
    }
}

/// Multiplying by a factor that has an inverse modulo 2^64 loses nothing.
proof fn lemma_invertible_factor_cancels(a: u64, b: u64, c: u64, inverse: int, wrap: int)
    requires
        c * inverse == 1 + wrap * 0x1_0000_0000_0000_0000,
        vstd::wrapping::u64_specs::wrapping_mul(a, c) == vstd::wrapping::u64_specs::wrapping_mul(b, c),
    ensures
        a == b,
{
    let big: int = 0x1_0000_0000_0000_0000;
    let ra = (a * c) % big;
    let rb = (b * c) % big;
    assert(0 <= ra < big && 0 <= rb < big);
    assert(ra == rb);
    if a != b {
        let (lo, hi) = if a < b { (a as int, b as int) } else { (b as int, a as int) };
        let d: int = hi - lo;
        vstd::arithmetic::div_mod::lemma_sub_mod_noop(hi * c, lo * c, big);
        assert(hi * c - lo * c == d * c) by (nonlinear_arith)
            requires
                d == hi - lo,
        ;
        assert((d * c) % big == 0);
        vstd::arithmetic::div_mod::lemma_fundamental_div_mod(d * c, big);
        let q = (d * c) / big;
        let k = q * inverse - d * wrap;
        assert(d == k * big) by (nonlinear_arith)
            requires
                d * c == big * q,
                c * inverse == 1 + wrap * big,
                k == q * inverse - d * wrap,
        ;
        assert(false) by (nonlinear_arith)
            requires
                d == k * big,
                0 < d < big,
        ;
    }
}

/// The output mix of the stream is one-to-one: different states give different draws.
pub proof fn lemma_mix_injective(a: u64, b: u64)
    requires
        mix(a) == mix(b),
    ensures
        a == b,
{
    let xa = a ^ (a >> 30u64);
    let xb = b ^ (b >> 30u64);
    let z1a = vstd::wrapping::u64_specs::wrapping_mul(xa, MIX1);
    let z1b = vstd::wrapping::u64_specs::wrapping_mul(xb, MIX1);
    let ya = z1a ^ (z1a >> 27u64);
    let yb = z1b ^ (z1b >> 27u64);
    let z2a = vstd::wrapping::u64_specs::wrapping_mul(ya, MIX2);
    let z2b = vstd::wrapping::u64_specs::wrapping_mul(yb, MIX2);
    assert(z2a == z2b) by (bit_vector)
        requires
            z2a ^ (z2a >> 31u64) == z2b ^ (z2b >> 31u64),
    ;
    assert(MIX2 * 0x319642b2d24d8ec3 == 1 + 0x1cd336eda85f1453 * 0x1_0000_0000_0000_0000);
    lemma_invertible_factor_cancels(ya, yb, MIX2, 0x319642b2d24d8ec3, 0x1cd336eda85f1453);
    assert(z1a == z1b) by (bit_vector)
        requires
            z1a ^ (z1a >> 27u64) == z1b ^ (z1b >> 27u64),
    ;
    assert(MIX1 * 0x96de1b173f119089 == 1 + 0x70c3bca78f27f46c * 0x1_0000_0000_0000_0000);
    lemma_invertible_factor_cancels(xa, xb, MIX1, 0x96de1b173f119089, 0x70c3bca78f27f46c);
    assert(a == b) by (bit_vector)
        requires
            a ^ (a >> 30u64) == b ^ (b >> 30u64),
    ;
}

/// Streams from one seed, advanced by different step counts, give different next
/// draws (for counts below 2^64 - 1, so every `u32` skip count).
pub proof fn lemma_different_skips_different_draws(seed: u64, m: nat, n: nat)
    requires
        m != n,
        m + 1 < 0x1_0000_0000_0000_0000,
        n + 1 < 0x1_0000_0000_0000_0000,
    ensures
        draw_after(seed, m) != draw_after(seed, n),
{
    lemma_different_skips_different_states(seed, m + 1, n + 1);
    if draw_after(seed, m) == draw_after(seed, n) {
        lemma_mix_injective(advance(seed, m + 1), advance(seed, n + 1));
    }
}

/// An accepted shot never raises any ship's health, as long as weapons do not deal
/// negative damage; the fleet keeps its size.
pub proof fn lemma_fire_never_heals(
    st: SessionState,
    caller: AccountKey,
    session_key: AccountKey,
    ship_id: u32,
    target_id: u32,
    bearing: i64,
)
    requires
        fire_error(st, caller, ship_id, target_id, bearing) is None,
        forall|i: int| 0 <= i < st.ships.len() ==> (#[trigger] st.ships[i]).weapon_data.damage >= 0,
    ensures
        fire_result(st, session_key, ship_id, target_id).ships.len() == st.ships.len(),
        forall|i: int|
            0 <= i < st.ships.len() ==> (#[trigger] fire_result(st, session_key, ship_id, target_id).ships[i]).health
                <= st.ships[i].health,
        forall|i: int|
            0 <= i < st.ships.len() ==> (#[trigger] fire_result(st, session_key, ship_id, target_id).ships[i]).weapon_data
                == st.ships[i].weapon_data,
{
    let r = fire_result(st, session_key, ship_id, target_id);
    assert forall|i: int| 0 <= i < st.ships.len() implies (#[trigger] r.ships[i]).health <= st.ships[i].health
        && r.ships[i].weapon_data == st.ships[i].weapon_data by {
        assert(st.ships[ship_id as int].weapon_data.damage >= 0);
    }
}

/// A shot as it is requested: caller, shooter, target and bearing.
pub struct Shot {
    pub caller: AccountKey,
    pub ship_id: u32,
    pub target_id: u32,
    pub bearing: i64,
}

/// The session after a series of shot requests, each applied when accepted and
/// ignored when rejected.
pub open spec fn after_shots(st: SessionState, session_key: AccountKey, shots: Seq<Shot>) -> SessionState
    decreases shots.len(),
{
    if shots.len() == 0 {
        st
    } else {
        let before = after_shots(st, session_key, shots.drop_last());
        let s = shots.last();
        if fire_error(before, s.caller, s.ship_id, s.target_id, s.bearing) is None {
            fire_result(before, session_key, s.ship_id, s.target_id)
        } else {
            before
        }
    }
}

/// Over any series of shots no ship's health ever rises, as long as weapons do not
/// deal negative damage.
pub proof fn lemma_shots_never_heal(st: SessionState, session_key: AccountKey, shots: Seq<Shot>)
    requires
        forall|i: int| 0 <= i < st.ships.len() ==> (#[trigger] st.ships[i]).weapon_data.damage >= 0,
    ensures
        after_shots(st, session_key, shots).ships.len() == st.ships.len(),
        forall|i: int|
            0 <= i < st.ships.len() ==> (#[trigger] after_shots(st, session_key, shots).ships[i]).health
                <= st.ships[i].health,
        forall|i: int|
            0 <= i < st.ships.len() ==> (#[trigger] after_shots(st, session_key, shots).ships[i]).weapon_data
                == st.ships[i].weapon_data,
    decreases shots.len(),
{
    if shots.len() > 0 {
        lemma_shots_never_heal(st, session_key, shots.drop_last());
        let before = after_shots(st, session_key, shots.drop_last());
        let s = shots.last();
        if fire_error(before, s.caller, s.ship_id, s.target_id, s.bearing) is None {
            assert forall|i: int| 0 <= i < before.ships.len() implies (#[trigger] before.ships[i]).weapon_data.damage
                >= 0 by {
                assert(before.ships[i].weapon_data == st.ships[i].weapon_data);
            }
            lemma_fire_never_heals(before, s.caller, session_key, s.ship_id, s.target_id, s.bearing);
        }
    }
}

/// Whether every living ship but `ship_id` has already acted.
pub open spec fn only_one_left(ships: Seq<Ship>, ship_id: u32) -> bool {
    forall|j: int| 0 <= j < ships.len() && j != ship_id && (#[trigger] ships[j]).health > 0 ==> ships[j].activated
}

/// Whether a session has rolled over into the next turn from `st`: turn one higher,
/// phase 0, player 1 to act, and every living ship ready to act again.
pub open spec fn rolled_over(st: SessionState, next: SessionState) -> bool {
    &&& next.turn == st.turn + 1
    &&& next.phase == 0
    &&& next.active_player == st.player1
    &&& next.ships.len() == st.ships.len()
    &&& forall|i: int| 0 <= i < next.ships.len() && (#[trigger] next.ships[i]).health > 0 ==> !next.ships[i].activated
}

/// Whether the ships that were already destroyed in `st` keep their activation flag in
/// `next`, except ship `except`.
pub open spec fn wrecks_keep_flags(st: SessionState, next: SessionState, except: int) -> bool {
    forall|i: int|
        0 <= i < st.ships.len() && i != except && (#[trigger] st.ships[i]).health <= 0 ==> next.ships[i].activated
            == st.ships[i].activated
}

/// When every other living ship has already acted and the last one is upgraded, the
/// next turn begins (while the turn counter is below its largest value); destroyed
/// ships keep their activation flag.
pub proof fn lemma_upgrade_rolls_over(st: SessionState, caller: AccountKey, ship_id: u32, upgrade_id: u32)
    requires
        upgrade_error(st, caller, ship_id, upgrade_id) is None,
        only_one_left(st.ships, ship_id),
        st.turn < 255,
    ensures
        rolled_over(st, upgrade_result(st, ship_id, upgrade_id)),
        wrecks_keep_flags(st, upgrade_result(st, ship_id, upgrade_id), -1),
{
}

/// When every other living ship has already acted and the last one passes, the next
/// turn begins (while the turn counter is below its largest value); destroyed ships
/// keep their activation flag.
pub proof fn lemma_skip_rolls_over(st: SessionState, caller: AccountKey, ship_id: u32)
    requires
        skip_error(st, caller, ship_id) is None,
        only_one_left(st.ships, ship_id),
        st.turn < 255,
    ensures
        rolled_over(st, skip_result(st, ship_id)),
        wrecks_keep_flags(st, skip_result(st, ship_id), -1),
{
}

/// When every other living ship has already acted and the last one fires (with a
/// weapon that deals no negative damage), in a game between two real players that
/// goes on (nobody has won), the next turn begins (while the turn counter is below
/// its largest value); ships destroyed before the shot, but for its target, keep
/// their activation flag.
pub proof fn lemma_fire_rolls_over(
    st: SessionState,
    caller: AccountKey,
    session_key: AccountKey,
    ship_id: u32,
    target_id: u32,
    bearing: i64,
)
    requires
        fire_error(st, caller, ship_id, target_id, bearing) is None,
        only_one_left(st.ships, ship_id),
        st.ships[ship_id as int].weapon_data.damage >= 0,
        st.player1 != none_key(),
        st.player2 != none_key(),
        !is_decided(fire_result(st, session_key, ship_id, target_id)),
        st.turn < 255,
    ensures
        rolled_over(st, fire_result(st, session_key, ship_id, target_id)),
        wrecks_keep_flags(st, fire_result(st, session_key, ship_id, target_id), target_id as int),
{
    let shooter = st.ships[ship_id as int];
    let target = shot_target(st.ships[target_id as int], shooter, shot_draw(st, session_key, shooter));
    let ships1 = st.ships.update(target_id as int, target);
    let ships2 = ships1.update(ship_id as int, Ship { activated: true, ..ships1[ship_id as int] });
    assert(has_living(ships2, st.player1));
    assert(has_living(ships2, st.player2));
    assert(all_activated(ships2)) by {
        assert forall|i: int| 0 <= i < ships2.len() && (#[trigger] ships2[i]).health > 0 implies ships2[i].activated by {
            if i != ship_id {
                assert(ships2[i].health <= st.ships[i].health);
            }
        }
    }
}

/// Once a game has a winner, maneuvers, shots, upgrades and passes are all rejected.
pub proof fn lemma_decided_game_is_locked(
    st: SessionState,
    caller: AccountKey,
    ship_id: u32,
    target_id: u32,
    bearing: i64,
    upgrade_id: u32,
)
    requires
        is_decided(st),
    ensures
        commit_error(st, caller) == Some(GameError::InvalidShip),
        fire_error(st, caller, ship_id, target_id, bearing) == Some(GameError::InvalidShip),
        upgrade_error(st, caller, ship_id, upgrade_id) == Some(GameError::InvalidShip),
        skip_error(st, caller, ship_id) == Some(GameError::InvalidShip),
{
}

/// Every ship's id stays equal to its index in the fleet: it holds of a newly paired
/// session and every accepted operation keeps it.
pub proof fn lemma_ids_stay_indices(
    st: SessionState,
    caller: AccountKey,
    session_key: AccountKey,
    ship_id: u32,
    target_id: u32,
    upgrade_id: u32,
    intents: Map<u32, ManeuverData>,
    poses: Seq<Pose>,
    game_id: u64,
    player1: AccountKey,
    player2: AccountKey,
)
    requires
        ids_match(st.ships),
    ensures
        ids_match(started(fresh_session(game_id), player1, player2).ships),
        ship_id < st.ships.len() && target_id < st.ships.len() ==> ids_match(
            fire_result(st, session_key, ship_id, target_id).ships,
        ),
        ship_id < st.ships.len() ==> ids_match(upgrade_result(st, ship_id, upgrade_id).ships),
        ship_id < st.ships.len() ==> ids_match(skip_result(st, ship_id).ships),
        ids_match(commit_result(st, caller, intents).ships),
        poses.len() == st.ships.len() ==> ids_match(resolve_result(st, poses).ships),
{
    let fleet = started(fresh_session(game_id), player1, player2).ships;
    assert(fleet[0].id == 0 && fleet[1].id == 1 && fleet[2].id == 2);
    assert(fleet[3].id == 3 && fleet[4].id == 4 && fleet[5].id == 5);
    if ship_id < st.ships.len() && target_id < st.ships.len() {
        let r = fire_result(st, session_key, ship_id, target_id);
        assert forall|i: int| 0 <= i < r.ships.len() implies #[trigger] r.ships[i].id == i by {
            assert(st.ships[i].id == i);
        }
    }
    if ship_id < st.ships.len() {
        let r = upgrade_result(st, ship_id, upgrade_id);
        assert forall|i: int| 0 <= i < r.ships.len() implies #[trigger] r.ships[i].id == i by {
            assert(st.ships[i].id == i);
        }
        let q = skip_result(st, ship_id);
        assert forall|i: int| 0 <= i < q.ships.len() implies #[trigger] q.ships[i].id == i by {
            assert(st.ships[i].id == i);
        }
    }
    let c = commit_result(st, caller, intents);
    assert forall|i: int| 0 <= i < c.ships.len() implies #[trigger] c.ships[i].id == i by {
        assert(st.ships[i].id == i);
    }
    if poses.len() == st.ships.len() {
        let m = resolve_result(st, poses);
        assert forall|i: int| 0 <= i < m.ships.len() implies #[trigger] m.ships[i].id == i by {
            assert(st.ships[i].id == i);
        }
    }
}

} // verus!
