use vstd::prelude::*;
use crate::dictionary::Dictionary;
use crate::error::GameError;
use crate::key::{AccountKey, none_key};
use crate::random::{SplitMix64, draw_after};
use crate::ship::{
    Ship, ManeuverData, WeaponData, Pose, SCALE, clamp_i64, bounded_add, bounded_sub, moved_ship,
    starting_ship,
};

verus! {

/// `last_action` after the maneuvers of both players were resolved.
pub const ACTION_MANEUVER: u32 = 0;
/// `last_action` after a ship fired; the data is `[ship_id, target_id]`.
pub const ACTION_FIRE: u32 = 1;
/// `last_action` after a ship was upgraded; the data is `[ship_id, upgrade_id]`.
pub const ACTION_UPGRADE: u32 = 2;
/// `last_action` after a ship passed its activation; the data is `[ship_id]`.
pub const ACTION_SKIP: u32 = 3;

/// One two-player match: its players, the turn cycle, the fleet and the last action.
pub struct GameSession {
    pub game_id: u64,
    pub player1: AccountKey,
    pub player2: AccountKey,
    pub player1_ready: bool,
    pub player2_ready: bool,
    pub active_player: AccountKey,
    pub winning_player: AccountKey,
    pub last_action: u32,
    pub last_action_data: Vec<u32>,
    pub turn: u8,
    pub phase: u8,
    pub ships: Vec<Ship>,
}

/// The value of a [`GameSession`], with its lists as sequences.
pub struct SessionState {
    pub game_id: u64,
    pub player1: AccountKey,
    pub player2: AccountKey,
    pub player1_ready: bool,
    pub player2_ready: bool,
    pub active_player: AccountKey,
    pub winning_player: AccountKey,
    pub last_action: u32,
    pub last_action_data: Seq<u32>,
    pub turn: u8,
    pub phase: u8,
    pub ships: Seq<Ship>,
}

impl View for GameSession {
    type V = SessionState;

    open spec fn view(&self) -> SessionState {
        SessionState {
            game_id: self.game_id,
            player1: self.player1,
            player2: self.player2,
            player1_ready: self.player1_ready,
            player2_ready: self.player2_ready,
            active_player: self.active_player,
            winning_player: self.winning_player,
            last_action: self.last_action,
            last_action_data: self.last_action_data@,
            turn: self.turn,
            phase: self.phase,
            ships: self.ships@,
        }
    }
}

/// The record of a session that has not been paired yet: nobody plays, turn 1, phase 0.
pub open spec fn fresh_session(game_id: u64) -> SessionState {
    SessionState {
        game_id,
        player1: none_key(),
        player2: none_key(),
        player1_ready: false,
        player2_ready: false,
        active_player: none_key(),
        winning_player: none_key(),
        last_action: 0,
        last_action_data: Seq::empty(),
        turn: 1,
        phase: 0,
        ships: Seq::empty(),
    }
}

/// The starting fleet: three ships of `player1` in a row at y = -20 heading up
/// (90 degrees), three of `player2` in a row at y = 40 heading down (-90 degrees).
pub open spec fn starting_fleet(player1: AccountKey, player2: AccountKey) -> Seq<Ship> {
    seq![
        starting_ship(0, player1, 0, -20_000i64, 90_000),
        starting_ship(1, player1, -20_000i64, -20_000i64, 90_000),
        starting_ship(2, player1, -40_000i64, -20_000i64, 90_000),
        starting_ship(3, player2, 0, 40_000, -90_000i64),
        starting_ship(4, player2, 20_000, 40_000, -90_000i64),
        starting_ship(5, player2, 40_000, 40_000, -90_000i64),
    ]
}

/// A session once `player1` and `player2` were paired in it: player 1 acts first.
pub open spec fn started(st: SessionState, player1: AccountKey, player2: AccountKey) -> SessionState {
    SessionState {
        player1,
        player2,
        active_player: player1,
        ships: starting_fleet(player1, player2),
        ..st
    }
}

/// Every ship's id is its index in the fleet.
pub open spec fn ids_match(ships: Seq<Ship>) -> bool {
    forall|i: int| 0 <= i < ships.len() ==> #[trigger] ships[i].id == i
}

/// A counter advanced by one, staying at its largest value.
pub open spec fn bump(c: u8) -> u8 {
    if c == 255 {
        255
    } else {
        (c + 1) as u8
    }
}

/// Whether a game has a winner.
pub open spec fn is_decided(st: SessionState) -> bool {
    st.winning_player != none_key()
}

/// Whether `p` owns a ship with health left.
pub open spec fn has_living(ships: Seq<Ship>, p: AccountKey) -> bool {
    exists|i: int| 0 <= i < ships.len() && (#[trigger] ships[i]).owner == p && ships[i].health > 0
}

/// Whether every living ship has acted in this action sub-phase (destroyed ships
/// never hold up the turn).
pub open spec fn all_activated(ships: Seq<Ship>) -> bool {
    forall|i: int| 0 <= i < ships.len() && (#[trigger] ships[i]).health > 0 ==> ships[i].activated
}

/// Whether a living ship that `p` does not own has yet to act.
pub open spec fn other_can_act(ships: Seq<Ship>, p: AccountKey) -> bool {
    exists|i: int|
        0 <= i < ships.len() && (#[trigger] ships[i]).owner != p && !ships[i].activated && ships[i].health > 0
}

/// The fleet at the start of a new turn: living ships may act again, destroyed ones stay spent.
pub open spec fn refreshed(ships: Seq<Ship>) -> Seq<Ship> {
    Seq::new(
        ships.len(),
        |i: int|
            if ships[i].health <= 0 {
                ships[i]
            } else {
                Ship { activated: false, ..ships[i] }
            },
    )
}

/// The player who is not `p` (player 1 for anyone but player 1).
pub open spec fn opponent_of(st: SessionState, p: AccountKey) -> AccountKey {
    if p == st.player1 {
        st.player2
    } else {
        st.player1
    }
}

/// What follows a ship's activation: a new turn once every living ship has acted; else the
/// turn passes to the other player if one of their living ships can still act.
pub open spec fn after_activation(st: SessionState) -> SessionState {
    if all_activated(st.ships) {
        SessionState {
            turn: bump(st.turn),
            active_player: st.player1,
            phase: 0,
            ships: refreshed(st.ships),
            ..st
        }
    } else if other_can_act(st.ships, st.active_player) {
        SessionState { active_player: opponent_of(st, st.active_player), ..st }
    } else {
        st
    }
}

/// Whether `caller` may not activate `s`: not its owner, already acted, or destroyed.
pub open spec fn unusable(s: Ship, caller: AccountKey) -> bool {
    s.owner != caller || s.activated || s.health <= 0
}

/// Why `caller` may not activate ship `ship_id` now, if they may not; `bad_index`
/// is reported for an index outside the fleet.
pub open spec fn activation_error(
    st: SessionState,
    caller: AccountKey,
    ship_id: u32,
    bad_index: GameError,
) -> Option<GameError> {
    if is_decided(st) {
        Some(GameError::InvalidShip)
    } else if caller != st.active_player {
        Some(GameError::InvalidShip)
    } else if ship_id >= st.ships.len() {
        Some(bad_index)
    } else if unusable(st.ships[ship_id as int], caller) {
        Some(GameError::InvalidShip)
    } else {
        None
    }
}

/// Whether the target lies outside the firing arc: the bearing (the angle between the
/// shooter's heading and the line to the target), taken in absolute value, exceeds
/// the weapon's half-angle.
pub open spec fn beyond_arc(bearing: i64, arc: i64) -> bool {
    (if bearing < 0 { -bearing } else { bearing as int }) > arc
}

/// Whether `target` lies beyond the range of `shooter`'s weapon, compared in squares.
pub open spec fn beyond_range(shooter: Ship, target: Ship) -> bool {
    let dx = target.x_position - shooter.x_position;
    let dy = target.y_position - shooter.y_position;
    dx * dx + dy * dy > shooter.weapon_data.range * shooter.weapon_data.range
}

/// Whether a raw draw hits: the draw, as a fraction of `u64::MAX`, is below the hit chance.
pub open spec fn is_hit(draw: u64, hit_chance: i64) -> bool {
    (draw as int) * (SCALE as int) < (hit_chance as int) * (u64::MAX as int)
}

/// How many outputs the session's stream discards before the draw of a shot:
/// `turn * ship_count + shooter_id`, in 32-bit wrapping arithmetic.
pub open spec fn draw_index(turn: u8, ship_count: u32, shooter_id: u32) -> u32 {
    vstd::wrapping::u32_specs::wrapping_add(
        vstd::wrapping::u32_specs::wrapping_mul(turn as u32, ship_count),
        shooter_id,
    )
}

/// Why a shot of `ship_id` at `target_id` is rejected, if it is.
pub open spec fn fire_error(
    st: SessionState,
    caller: AccountKey,
    ship_id: u32,
    target_id: u32,
    bearing: i64,
) -> Option<GameError> {
    if is_decided(st) {
        Some(GameError::InvalidShip)
    } else if caller != st.active_player {
        Some(GameError::InvalidShip)
    } else if target_id >= st.ships.len() {
        Some(GameError::InvalidTarget)
    } else if ship_id >= st.ships.len() {
        Some(GameError::InvalidShip)
    } else if unusable(st.ships[ship_id as int], caller) {
        Some(GameError::InvalidShip)
    } else if beyond_arc(bearing, st.ships[ship_id as int].weapon_data.arc) {
        Some(GameError::InvalidTarget)
    } else if beyond_range(st.ships[ship_id as int], st.ships[target_id as int]) {
        Some(GameError::InvalidTarget)
    } else {
        None
    }
}

/// The draw that decides a shot of `shooter` in the session stored at `session_key`.
pub open spec fn shot_draw(st: SessionState, session_key: AccountKey, shooter: Ship) -> u64 {
    draw_after(session_key.w0, draw_index(st.turn, st.ships.len() as u32, shooter.id) as nat)
}

/// The target after a shot: damaged on a hit; taken out of play once its health is negative.
pub open spec fn shot_target(target: Ship, shooter: Ship, draw: u64) -> Ship {
    let hit = if is_hit(draw, shooter.weapon_data.hit_chance) {
        Ship { health: clamp_i64(target.health - shooter.weapon_data.damage), ..target }
    } else {
        target
    };
    if hit.health < 0 {
        Ship { activated: true, maneuver_data: ManeuverData { angle: 0, speed: 0 }, ..hit }
    } else {
        hit
    }
}

/// The session after an accepted shot: the shot itself, then the victory check, then
/// the turn rules.
pub open spec fn fire_result(
    st: SessionState,
    session_key: AccountKey,
    ship_id: u32,
    target_id: u32,
) -> SessionState {
    let shooter = st.ships[ship_id as int];
    let target = shot_target(st.ships[target_id as int], shooter, shot_draw(st, session_key, shooter));
    let ships1 = st.ships.update(target_id as int, target);
    let ships2 = ships1.update(ship_id as int, Ship { activated: true, ..ships1[ship_id as int] });
    let acted = SessionState {
        ships: ships2,
        last_action: ACTION_FIRE,
        last_action_data: seq![ship_id, target_id],
        ..st
    };
    if !has_living(ships2, st.player1) {
        SessionState { winning_player: st.player2, ..acted }
    } else if !has_living(ships2, st.player2) {
        SessionState { winning_player: st.player1, ..acted }
    } else {
        after_activation(acted)
    }
}

/// Whether `upgrade_id` names one of the six upgrades.
pub open spec fn known_upgrade(upgrade_id: u32) -> bool {
    1 <= upgrade_id <= 6
}

/// A ship with upgrade `upgrade_id` applied: 1 speed +10, 2 turn angle +11.25,
/// 3 weapon arc +12.5, 4 weapon range +10, 5 weapon damage +20, 6 hit chance +0.1.
pub open spec fn upgraded(s: Ship, upgrade_id: u32) -> Ship {
    let w = s.weapon_data;
    if upgrade_id == 1 {
        Ship { max_speed: clamp_i64(s.max_speed + 10_000), ..s }
    } else if upgrade_id == 2 {
        Ship { max_angle: clamp_i64(s.max_angle + 11_250), ..s }
    } else if upgrade_id == 3 {
        Ship { weapon_data: WeaponData { arc: clamp_i64(w.arc + 12_500), ..w }, ..s }
    } else if upgrade_id == 4 {
        Ship { weapon_data: WeaponData { range: clamp_i64(w.range + 10_000), ..w }, ..s }
    } else if upgrade_id == 5 {
        Ship { weapon_data: WeaponData { damage: clamp_i64(w.damage + 20_000), ..w }, ..s }
    } else if upgrade_id == 6 {
        Ship { weapon_data: WeaponData { hit_chance: clamp_i64(w.hit_chance + 100), ..w }, ..s }
    } else {
        s
    }
}

/// Why upgrade `upgrade_id` of ship `ship_id` is rejected, if it is.
pub open spec fn upgrade_error(
    st: SessionState,
    caller: AccountKey,
    ship_id: u32,
    upgrade_id: u32,
) -> Option<GameError> {
    match activation_error(st, caller, ship_id, GameError::InvalidTarget) {
        Some(e) => Some(e),
        None => if known_upgrade(upgrade_id) {
            None
        } else {
            Some(GameError::InvalidShip)
        },
    }
}

/// The session after an accepted upgrade.
pub open spec fn upgrade_result(st: SessionState, ship_id: u32, upgrade_id: u32) -> SessionState {
    let s = upgraded(st.ships[ship_id as int], upgrade_id);
    after_activation(
        SessionState {
            ships: st.ships.update(ship_id as int, Ship { activated: true, ..s }),
            last_action: ACTION_UPGRADE,
            last_action_data: seq![ship_id, upgrade_id],
            ..st
        },
    )
}

/// Why passing the activation of ship `ship_id` is rejected, if it is.
pub open spec fn skip_error(st: SessionState, caller: AccountKey, ship_id: u32) -> Option<GameError> {
    activation_error(st, caller, ship_id, GameError::InvalidTarget)
}

/// The session after a ship passed its activation.
pub open spec fn skip_result(st: SessionState, ship_id: u32) -> SessionState {
    after_activation(
        SessionState {
            ships: st.ships.update(ship_id as int, Ship { activated: true, ..st.ships[ship_id as int] }),
            last_action: ACTION_SKIP,
            last_action_data: seq![ship_id],
            ..st
        },
    )
}

/// Why `caller`'s commitment of maneuvers is rejected, if it is: the game is decided,
/// the caller plays in neither seat, or the caller already committed in this
/// maneuver sub-phase.
pub open spec fn commit_error(st: SessionState, caller: AccountKey) -> Option<GameError> {
    if is_decided(st) {
        Some(GameError::InvalidShip)
    } else if caller == st.player1 {
        if st.player1_ready {
            Some(GameError::InvalidShip)
        } else {
            None
        }
    } else if caller != st.player2 {
        Some(GameError::InvalidShip)
    } else if st.player2_ready {
        Some(GameError::InvalidShip)
    } else {
        None
    }
}

/// The fleet with the intent of each ship of `owner` replaced by the one given under its
/// index, if any; intents for other ships are ignored.
pub open spec fn with_intents(ships: Seq<Ship>, owner: AccountKey, intents: Map<u32, ManeuverData>) -> Seq<Ship> {
    Seq::new(
        ships.len(),
        |i: int|
            if ships[i].owner == owner && i <= u32::MAX && intents.contains_key(i as u32) {
                Ship { maneuver_data: intents[i as u32], ..ships[i] }
            } else {
                ships[i]
            },
    )
}

/// The session after an accepted commitment: the caller is ready and the intents are stored.
pub open spec fn commit_result(
    st: SessionState,
    caller: AccountKey,
    intents: Map<u32, ManeuverData>,
) -> SessionState {
    SessionState {
        player1_ready: if caller == st.player1 { true } else { st.player1_ready },
        player2_ready: if caller == st.player1 { st.player2_ready } else { true },
        ships: with_intents(st.ships, caller, intents),
        ..st
    }
}

/// The fleet after the maneuvers: each living ship takes its new pose, and dies (health
/// exactly zero) if that pose is outside the arena; destroyed ships do not move.
pub open spec fn maneuvered(ships: Seq<Ship>, poses: Seq<Pose>) -> Seq<Ship> {
    Seq::new(
        ships.len(),
        |i: int|
            if ships[i].health <= 0 {
                ships[i]
            } else {
                moved_ship(ships[i], poses[i])
            },
    )
}

/// The session after both players' maneuvers were resolved.
pub open spec fn resolve_result(st: SessionState, poses: Seq<Pose>) -> SessionState {
    SessionState {
        ships: maneuvered(st.ships, poses),
        player1_ready: false,
        player2_ready: false,
        phase: bump(st.phase),
        last_action: ACTION_MANEUVER,
        ..st
    }
}

/// Checks that the record address provided for an operation is the one derived
/// for it; a mismatch is rejected as [`GameError::InvalidPDA`].
pub fn check_address(derived: &AccountKey, provided: &AccountKey) -> (r: Result<(), GameError>)
    ensures
        r == (if *derived == *provided { Ok::<(), GameError>(()) } else { Err(GameError::InvalidPDA) }),
{
    if *derived == *provided {
        Ok(())
    } else {
        Err(GameError::InvalidPDA)
    }
}

fn any_living(ships: &Vec<Ship>, p: AccountKey) -> (r: bool)
    ensures
        r == has_living(ships@, p),
{
    let mut i: usize = 0;
    while i < ships.len()
        invariant
            i <= ships@.len(),
            forall|j: int| 0 <= j < i ==> !((#[trigger] ships@[j]).owner == p && ships@[j].health > 0),
        decreases ships@.len() - i,
    {
        if ships[i].owner == p && ships[i].health > 0 {
            return true;
        }
        i = i + 1;
    }
    false
}

fn every_activated(ships: &Vec<Ship>) -> (r: bool)
    ensures
        r == all_activated(ships@),
{
    let mut i: usize = 0;
    while i < ships.len()
        invariant
            i <= ships@.len(),
            forall|j: int| 0 <= j < i && (#[trigger] ships@[j]).health > 0 ==> ships@[j].activated,
        decreases ships@.len() - i,
    {
        if ships[i].health > 0 && !ships[i].activated {
            return false;
        }
        i = i + 1;
    }
    true
}

fn any_other_ready(ships: &Vec<Ship>, p: AccountKey) -> (r: bool)
    ensures
        r == other_can_act(ships@, p),
{
    let mut i: usize = 0;
    while i < ships.len()
        invariant
            i <= ships@.len(),
            forall|j: int|
                0 <= j < i ==> !((#[trigger] ships@[j]).owner != p && !ships@[j].activated && ships@[j].health > 0),
        decreases ships@.len() - i,
    {
        if ships[i].owner != p && !ships[i].activated && ships[i].health > 0 {
            return true;
        }
        i = i + 1;
    }
    false
}

fn beyond_arc_of(bearing: i64, arc: i64) -> (r: bool)
    ensures
        r == beyond_arc(bearing, arc),
{
    let magnitude: i128 = if bearing < 0 {
        -(bearing as i128)
    } else {
        bearing as i128
    };
    magnitude > arc as i128
}

fn square(a: u128) -> (r: u128)
    requires
        a < 0x1_0000_0000_0000_0000,
    ensures
        r == a * a,
{
    proof {
        assert(a * a <= 0xffff_ffff_ffff_ffff * 0xffff_ffff_ffff_ffff) by (nonlinear_arith)
            requires
                a <= 0xffff_ffff_ffff_ffff,
        ;
    }
    a * a
}

fn magnitude_of(d: i128) -> (r: u128)
    requires
        -0x1_0000_0000_0000_0000 < d < 0x1_0000_0000_0000_0000,
    ensures
        r == (if d < 0 { -d } else { d as int }),
{
    if d < 0 {
        (-d) as u128
    } else {
        d as u128
    }
}

fn beyond_range_of(shooter: &Ship, target: &Ship) -> (r: bool)
    ensures
        r == beyond_range(*shooter, *target),
{
    let dx: i128 = target.x_position as i128 - shooter.x_position as i128;
    let dy: i128 = target.y_position as i128 - shooter.y_position as i128;
    let sx = square(magnitude_of(dx));
    let sy = square(magnitude_of(dy));
    let reach = square(magnitude_of(shooter.weapon_data.range as i128));
    proof {
        assert(sx == dx * dx) by (nonlinear_arith)
            requires
                sx == (if dx < 0 { -dx } else { dx as int }) * (if dx < 0 { -dx } else { dx as int }),
        ;
        assert(sy == dy * dy) by (nonlinear_arith)
            requires
                sy == (if dy < 0 { -dy } else { dy as int }) * (if dy < 0 { -dy } else { dy as int }),
        ;
        let rg = shooter.weapon_data.range as int;
        assert(reach == rg * rg) by (nonlinear_arith)
            requires
                reach == (if rg < 0 { -rg } else { rg }) * (if rg < 0 { -rg } else { rg }),
        ;
    }
    match sx.checked_add(sy) {
        Some(total) => total > reach,
        None => true,
    }
}

fn is_hit_of(draw: u64, hit_chance: i64) -> (r: bool)
    ensures
        r == is_hit(draw, hit_chance),
{
    if hit_chance <= 0 {
        proof {
            assert((draw as int) * 1000 >= 0) by (nonlinear_arith);
            assert((hit_chance as int) * (u64::MAX as int) <= 0) by (nonlinear_arith)
                requires
                    hit_chance <= 0,
            ;
        }
        false
    } else {
        proof {
            assert((draw as int) * 1000 <= 0xffff_ffff_ffff_ffff * 1000) by (nonlinear_arith);
            assert((hit_chance as int) * 0xffff_ffff_ffff_ffff <= 0x7fff_ffff_ffff_ffff * 0xffff_ffff_ffff_ffff)
                by (nonlinear_arith)
                requires
                    0 < hit_chance <= 0x7fff_ffff_ffff_ffff,
            ;
        }
        let lhs: u128 = draw as u128 * 1000;
        let rhs: u128 = hit_chance as u128 * 0xffff_ffff_ffff_ffff;
        lhs < rhs
    }
}

impl GameSession {
    /// The record of a session that has not been paired yet (see `fresh_session`).
    pub fn new(game_id: u64) -> (r: GameSession)
        ensures
            r@ == fresh_session(game_id),
    {
        GameSession {
            game_id,
            player1: AccountKey::none(),
            player2: AccountKey::none(),
            player1_ready: false,
            player2_ready: false,
            active_player: AccountKey::none(),
            winning_player: AccountKey::none(),
            last_action: 0,
            last_action_data: Vec::new(),
            turn: 1,
            phase: 0,
            ships: Vec::new(),
        }
    }

    /// Pairs `player1` and `player2` in this session with the starting fleet; player 1 acts first.
    pub fn begin_match(&mut self, player1: AccountKey, player2: AccountKey)
        ensures
            final(self)@ == started(old(self)@, player1, player2),
    {
        self.player1 = player1;
        self.player2 = player2;
        self.active_player = player1;
        self.ships = vec![
            Ship::new(0, player1, 0, -20_000, 90_000),
            Ship::new(1, player1, -20_000, -20_000, 90_000),
            Ship::new(2, player1, -40_000, -20_000, 90_000),
            Ship::new(3, player2, 0, 40_000, -90_000),
            Ship::new(4, player2, 20_000, 40_000, -90_000),
            Ship::new(5, player2, 40_000, 40_000, -90_000),
        ];
        proof {
            assert(self.ships@ =~= starting_fleet(player1, player2));
        }
    }

    /// Checks that `caller` may activate ship `ship_id` now, reporting `bad_index` for
    /// an index outside the fleet.
    fn check_activation(&self, caller: AccountKey, ship_id: u32, bad_index: GameError) -> (r: Result<(), GameError>)
        ensures
            match r {
                Ok(()) => activation_error(self@, caller, ship_id, bad_index) == None::<GameError>,
                Err(e) => activation_error(self@, caller, ship_id, bad_index) == Some(e),
            },
    {
        if !self.winning_player.is_none() {
            return Err(GameError::InvalidShip);
        }
        if caller != self.active_player {
            return Err(GameError::InvalidShip);
        }
        if ship_id as usize >= self.ships.len() {
            return Err(bad_index);
        }
        let ship = self.ships[ship_id as usize];
        if ship.owner != caller || ship.activated || ship.health <= 0 {
            return Err(GameError::InvalidShip);
        }
        Ok(())
    }

    /// Ship `ship_id` of `caller` fires at ship `target_id`.
    ///
    /// `bearing` is the angle, in thousandths of a degree, between the shooter's
    /// heading and the line from the shooter to the target; `session_key` is the
    /// address of this session's record, which seeds the stream that decides the hit.
    /// The shot is rejected, with nothing changed, exactly when `fire_error` names a
    /// reason; else the session becomes `fire_result`.
    pub fn fire_weapon(
        &mut self,
        caller: AccountKey,
        session_key: &AccountKey,
        ship_id: u32,
        target_id: u32,
        bearing: i64,
    ) -> (r: Result<(), GameError>)
        ensures
            match r {
                Ok(()) => fire_error(old(self)@, caller, ship_id, target_id, bearing) == None::<GameError>
                    && final(self)@ == fire_result(old(self)@, *session_key, ship_id, target_id),
                Err(e) => fire_error(old(self)@, caller, ship_id, target_id, bearing) == Some(e)
                    && final(self)@ == old(self)@,
            },
    {
        if !self.winning_player.is_none() {
            return Err(GameError::InvalidShip);
        }
        if caller != self.active_player {
            return Err(GameError::InvalidShip);
        }
        if target_id as usize >= self.ships.len() {
            return Err(GameError::InvalidTarget);
        }
        if ship_id as usize >= self.ships.len() {
            return Err(GameError::InvalidShip);
        }
        let ship = self.ships[ship_id as usize];
        if ship.owner != caller || ship.activated || ship.health <= 0 {
            return Err(GameError::InvalidShip);
        }
        let target = self.ships[target_id as usize];
        if beyond_arc_of(bearing, ship.weapon_data.arc) {
            return Err(GameError::InvalidTarget);
        }
        if beyond_range_of(&ship, &target) {
            return Err(GameError::InvalidTarget);
        }
        let ship_amount = self.ships.len() as u32;
        let mut random = SplitMix64::new(session_key);
        random.reset();
        random.skip((self.turn as u32).wrapping_mul(ship_amount).wrapping_add(ship.id));
        let draw = random.next();
        let ghost before = self@;
        proof {
            assert(draw == shot_draw(before, *session_key, ship));
        }
        let mut hit = target;
        if is_hit_of(draw, ship.weapon_data.hit_chance) {
            hit.health = bounded_sub(hit.health, ship.weapon_data.damage);
        }
        if hit.health < 0 {
            hit.activated = true;
            hit.maneuver_data = ManeuverData { angle: 0, speed: 0 };
        }
        self.ships.set(target_id as usize, hit);
        let mut shooter = self.ships[ship_id as usize];
        shooter.activated = true;
        self.ships.set(ship_id as usize, shooter);
        self.last_action = ACTION_FIRE;
        self.last_action_data = vec![ship_id, target_id];
        proof {
            assert(self.last_action_data@ =~= seq![ship_id, target_id]);
        }
        let player1_alive = any_living(&self.ships, self.player1);
        let player2_alive = any_living(&self.ships, self.player2);
        if !player1_alive {
            self.winning_player = self.player2;
        } else if !player2_alive {
            self.winning_player = self.player1;
        } else {
            self.finish_activation();
        }
        Ok(())
    }

    /// Ship `ship_id` of `caller` takes upgrade `upgrade_id` (see `upgraded`) as its activation.
    /// Rejected, with nothing changed, exactly when `upgrade_error` names a reason;
    /// else the session becomes `upgrade_result`.
    pub fn upgrade(&mut self, caller: AccountKey, ship_id: u32, upgrade_id: u32) -> (r: Result<(), GameError>)
        ensures
            match r {
                Ok(()) => upgrade_error(old(self)@, caller, ship_id, upgrade_id) == None::<GameError>
                    && final(self)@ == upgrade_result(old(self)@, ship_id, upgrade_id),
                Err(e) => upgrade_error(old(self)@, caller, ship_id, upgrade_id) == Some(e)
                    && final(self)@ == old(self)@,
            },
    {
        match self.check_activation(caller, ship_id, GameError::InvalidTarget) {
            Err(e) => {
                return Err(e);
            },
            Ok(()) => {},
        }
        let mut ship = self.ships[ship_id as usize];
        ship.activated = true;
        if upgrade_id == 1 {
            ship.max_speed = bounded_add(ship.max_speed, 10_000);
        } else if upgrade_id == 2 {
            ship.max_angle = bounded_add(ship.max_angle, 11_250);
        } else if upgrade_id == 3 {
            ship.weapon_data.arc = bounded_add(ship.weapon_data.arc, 12_500);
        } else if upgrade_id == 4 {
            ship.weapon_data.range = bounded_add(ship.weapon_data.range, 10_000);
        } else if upgrade_id == 5 {
            ship.weapon_data.damage = bounded_add(ship.weapon_data.damage, 20_000);
        } else if upgrade_id == 6 {
            ship.weapon_data.hit_chance = bounded_add(ship.weapon_data.hit_chance, 100);
        } else {
            return Err(GameError::InvalidShip);
        }
        self.ships.set(ship_id as usize, ship);
        self.last_action = ACTION_UPGRADE;
        self.last_action_data = vec![ship_id, upgrade_id];
        proof {
            assert(self.last_action_data@ =~= seq![ship_id, upgrade_id]);
            assert(self.ships@ =~= old(self)@.ships.update(
                ship_id as int,
                Ship { activated: true, ..upgraded(old(self)@.ships[ship_id as int], upgrade_id) },
            ));
        }
        self.finish_activation();
        Ok(())
    }

    /// Ship `ship_id` of `caller` passes its activation.
    /// Rejected, with nothing changed, exactly when `skip_error` names a reason;
    /// else the session becomes `skip_result`.
    pub fn skip(&mut self, caller: AccountKey, ship_id: u32) -> (r: Result<(), GameError>)
        ensures
            match r {
                Ok(()) => skip_error(old(self)@, caller, ship_id) == None::<GameError>
                    && final(self)@ == skip_result(old(self)@, ship_id),
                Err(e) => skip_error(old(self)@, caller, ship_id) == Some(e) && final(self)@ == old(self)@,
            },
    {
        match self.check_activation(caller, ship_id, GameError::InvalidTarget) {
            Err(e) => {
                return Err(e);
            },
            Ok(()) => {},
        }
        let mut ship = self.ships[ship_id as usize];
        ship.activated = true;
        self.ships.set(ship_id as usize, ship);
        self.last_action = ACTION_SKIP;
        self.last_action_data = vec![ship_id];
        proof {
            assert(self.last_action_data@ =~= seq![ship_id]);
        }
        self.finish_activation();
        Ok(())
    }

    /// `caller` commits the intents of their maneuver sub-phase, keyed by ship index
    /// (an index outside the fleet, or of a ship `caller` does not own, is ignored).
    /// Rejected, with nothing changed, exactly when `commit_error` names a reason;
    /// else the session becomes `commit_result`, and the result tells whether both
    /// players are now ready, so that the maneuvers are due (`resolve_maneuvers`).
    pub fn commit_maneuvers(
        &mut self,
        caller: AccountKey,
        intents: &Dictionary<u32, ManeuverData>,
    ) -> (r: Result<bool, GameError>)
        requires
            intents.wf(),
        ensures
            match r {
                Ok(due) => commit_error(old(self)@, caller) == None::<GameError>
                    && final(self)@ == commit_result(old(self)@, caller, intents@)
                    && due == (final(self).player1_ready && final(self).player2_ready),
                Err(e) => commit_error(old(self)@, caller) == Some(e) && final(self)@ == old(self)@,
            },
    {
        if !self.winning_player.is_none() {
            return Err(GameError::InvalidShip);
        }
        if self.player1 == caller {
            if self.player1_ready {
                return Err(GameError::InvalidShip);
            }
            self.player1_ready = true;
        } else if self.player2 != caller {
            return Err(GameError::InvalidShip);
        } else {
            if self.player2_ready {
                return Err(GameError::InvalidShip);
            }
            self.player2_ready = true;
        }
        let ghost ready = self@;
        let mut i: usize = 0;
        while i < self.ships.len()
            invariant
                intents.wf(),
                i <= self.ships@.len(),
                self.ships@.len() == ready.ships.len(),
                forall|j: int| 0 <= j < i ==> self.ships@[j] == with_intents(ready.ships, caller, intents@)[j],
                forall|j: int| i <= j < self.ships@.len() ==> self.ships@[j] == ready.ships[j],
                self@ == (SessionState { ships: self.ships@, ..ready }),
            decreases self.ships@.len() - i,
        {
            if self.ships[i].owner == caller && i <= u32::MAX as usize {
                match intents.get(&(i as u32)) {
                    Some(m) => {
                        let mut s = self.ships[i];
                        s.maneuver_data = m;
                        self.ships.set(i, s);
                    },
                    None => {},
                }
            }
            i = i + 1;
        }
        proof {
            assert(self.ships@ =~= with_intents(ready.ships, caller, intents@));
        }
        Ok(self.player1_ready && self.player2_ready)
    }

    /// Resolves the maneuvers once both players are ready. `poses[i]` is where ship `i`
    /// ends up after moving along its intent (worked out by the caller); living ships
    /// take their pose and die when it is outside the arena, both players become
    /// unready and the phase advances.
    pub fn resolve_maneuvers(&mut self, poses: &Vec<Pose>)
        requires
            old(self).player1_ready,
            old(self).player2_ready,
            poses@.len() == old(self).ships@.len(),
        ensures
            final(self)@ == resolve_result(old(self)@, poses@),
            forall|i: int|
                0 <= i < old(self).ships@.len() && old(self).ships@[i].health > 0 && crate::ship::out_of_arena(
                    poses@[i].x_position,
                    poses@[i].y_position,
                ) ==> (#[trigger] final(self).ships@[i]).health == 0,
    {
        let mut i: usize = 0;
        while i < self.ships.len()
            invariant
                i <= self.ships@.len(),
                poses@.len() == old(self).ships@.len(),
                self.ships@.len() == old(self).ships@.len(),
                forall|j: int| 0 <= j < i ==> self.ships@[j] == maneuvered(old(self).ships@, poses@)[j],
                forall|j: int| i <= j < self.ships@.len() ==> self.ships@[j] == old(self).ships@[j],
                self@ == (SessionState { ships: self.ships@, ..old(self)@ }),
            decreases self.ships@.len() - i,
        {
            if self.ships[i].health > 0 {
                let moved = self.ships[i].moved_to(poses[i]);
                self.ships.set(i, moved);
            }
            i = i + 1;
        }
        proof {
            assert(self.ships@ =~= maneuvered(old(self).ships@, poses@));
        }
        self.player1_ready = false;
        self.player2_ready = false;
        self.phase = if self.phase == 255 {
            255
        } else {
            self.phase + 1
        };
        self.last_action = ACTION_MANEUVER;
    }

    /// Applies the turn rules that follow a ship's activation.
    fn finish_activation(&mut self)
        ensures
            final(self)@ == after_activation(old(self)@),
    {
        if every_activated(&self.ships) {
            self.turn = if self.turn == 255 {
                255
            } else {
                self.turn + 1
            };
            self.active_player = self.player1;
            self.phase = 0;
            let mut i: usize = 0;
            while i < self.ships.len()
                invariant
                    i <= self.ships@.len(),
                    self.ships@.len() == old(self).ships@.len(),
                    forall|j: int| 0 <= j < i ==> self.ships@[j] == refreshed(old(self).ships@)[j],
                    forall|j: int| i <= j < self.ships@.len() ==> self.ships@[j] == old(self).ships@[j],
                    self.turn == bump(old(self).turn),
                    self.active_player == old(self).player1,
                    self.phase == 0,
                    self.game_id == old(self).game_id,
                    self.player1 == old(self).player1,
                    self.player2 == old(self).player2,
                    self.player1_ready == old(self).player1_ready,
                    self.player2_ready == old(self).player2_ready,
                    self.winning_player == old(self).winning_player,
                    self.last_action == old(self).last_action,
                    self.last_action_data@ == old(self).last_action_data@,
                decreases self.ships@.len() - i,
            {
                if self.ships[i].health > 0 {
                    let mut s = self.ships[i];
                    s.activated = false;
                    self.ships.set(i, s);
                }
                i = i + 1;
            }
            proof {
                assert(self.ships@ =~= refreshed(old(self).ships@));
            }
        } else if any_other_ready(&self.ships, self.active_player) {
            if self.active_player == self.player1 {
                self.active_player = self.player2;
            } else {
                self.active_player = self.player1;
            }
        }
    }
}

} // verus!
