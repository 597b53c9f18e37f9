use vstd::prelude::*;
use crate::dictionary::Dictionary;
use crate::key::AccountKey;
use crate::session::{GameSession, SessionState, fresh_session, started, is_decided};

verus! {

/// The waiting queue of players and, for each player in a game, that game's id.
pub struct MatchmakingData {
    pub queue: Vec<AccountKey>,
    pub active_games: Dictionary<AccountKey, u64>,
}

/// The value of a [`MatchmakingData`].
pub struct MatchmakingState {
    pub queue: Seq<AccountKey>,
    pub active_games: Map<AccountKey, u64>,
}

impl View for MatchmakingData {
    type V = MatchmakingState;

    open spec fn view(&self) -> MatchmakingState {
        MatchmakingState { queue: self.queue@, active_games: self.active_games@ }
    }
}

/// The queue with every occurrence of `player` taken out, the others kept in order.
pub open spec fn without(queue: Seq<AccountKey>, player: AccountKey) -> Seq<AccountKey> {
    queue.filter(other_than(player))
}

/// The test that keeps every key but `player`.
pub open spec fn other_than(player: AccountKey) -> spec_fn(AccountKey) -> bool {
    |k: AccountKey| k != player
}

fn remove_all(queue: &Vec<AccountKey>, player: AccountKey) -> (r: Vec<AccountKey>)
    ensures
        r@ == without(queue@, player),
{
    let mut kept: Vec<AccountKey> = Vec::new();
    let mut i: usize = 0;
    while i < queue.len()
        invariant
            i <= queue@.len(),
            kept@ == without(queue@.subrange(0, i as int), player),
        decreases queue@.len() - i,
    {
        proof {
            let pred = other_than(player);
            assert(queue@.subrange(0, i + 1) =~= queue@.subrange(0, i as int).push(queue@[i as int]));
            queue@.subrange(0, i as int).lemma_filter_push(queue@[i as int], pred);
        }
        if queue[i] != player {
            kept.push(queue[i]);
        }
        i = i + 1;
    }
    proof {
        assert(queue@.subrange(0, queue@.len() as int) =~= queue@);
    }
    kept
}

impl MatchmakingData {
    /// An empty queue and no active games.
    pub fn new() -> (r: MatchmakingData)
        ensures
            r.wf(),
            r@.queue == Seq::<AccountKey>::empty(),
            r@.active_games == Map::<AccountKey, u64>::empty(),
    {
        MatchmakingData { queue: Vec::new(), active_games: Dictionary::new() }
    }

    /// The record is well formed: its map of active games is.
    pub open spec fn wf(&self) -> bool {
        self.active_games.wf()
    }

    /// Appends `player` to the queue.
    pub fn add_to_queue(&mut self, player: &AccountKey)
        requires
            old(self).wf(),
        ensures
            final(self).wf(),
            final(self)@.queue == old(self)@.queue.push(*player),
            final(self)@.active_games == old(self)@.active_games,
    {
        self.queue.push(*player);
    }

    /// Takes every occurrence of `player` out of the queue; nothing else changes.
    pub fn leave_queue(&mut self, player: &AccountKey)
        requires
            old(self).wf(),
        ensures
            final(self).wf(),
            final(self)@.queue == without(old(self)@.queue, *player),
            final(self)@.active_games == old(self)@.active_games,
    {
        self.queue = remove_all(&self.queue, *player);
    }

    /// `player` asks for a game. With nobody waiting, they join the queue and no game
    /// starts. Otherwise the head of the queue is their opponent: it leaves the queue
    /// (with any other occurrence of it), both players are recorded under `game_id`,
    /// and a fresh session pairs `player` (player 1) with the opponent (player 2).
    pub fn join_queue(&mut self, player: AccountKey, game_id: u64) -> (r: Option<GameSession>)
        requires
            old(self).wf(),
        ensures
            final(self).wf(),
            match r {
                None => join_result(old(self)@, player, game_id) == (final(self)@, None::<SessionState>),
                Some(session) => join_result(old(self)@, player, game_id) == (final(self)@, Some(session@)),
            },
    {
        if self.queue.len() < 1 {
            self.add_to_queue(&player);
            return None;
        }
        let opponent = self.queue.remove(0);
        proof {
            assert(self.queue@ =~= old(self)@.queue.drop_first());
        }
        self.leave_queue(&opponent);
        self.active_games.insert(player, game_id);
        self.active_games.insert(opponent, game_id);
        let mut session = GameSession::new(game_id);
        session.begin_match(player, opponent);
        Some(session)
    }

    /// Closes `session` at the request of `caller`: both of its players leave the map of
    /// active games, and a game without a winner is won by the player other than
    /// `caller` (player 1 unless `caller` is player 1).
    pub fn close_game(&mut self, session: &mut GameSession, caller: AccountKey)
        requires
            old(self).wf(),
        ensures
            final(self).wf(),
            final(self)@.queue == old(self)@.queue,
            final(self)@.active_games == old(self)@.active_games.remove(old(session)@.player1).remove(
                old(session)@.player2,
            ),
            final(session)@ == after_close(old(session)@, caller),
    {
        self.active_games.remove(&session.player1);
        self.active_games.remove(&session.player2);
        if session.winning_player.is_none() {
            if caller == session.player1 {
                session.winning_player = session.player2;
            } else {
                session.winning_player = session.player1;
            }
        }
    }
}

/// The matchmaking record after `player` asked for a game, and the session that was
/// started, if any (see `join_queue`).
pub open spec fn join_result(st: MatchmakingState, player: AccountKey, game_id: u64) -> (
    MatchmakingState,
    Option<SessionState>,
) {
    if st.queue.len() == 0 {
        (MatchmakingState { queue: st.queue.push(player), ..st }, None)
    } else {
        let opponent = st.queue[0];
        (
            MatchmakingState {
                queue: without(st.queue.drop_first(), opponent),
                active_games: st.active_games.insert(player, game_id).insert(opponent, game_id),
            },
            Some(started(fresh_session(game_id), player, opponent)),
        )
    }
}

/// A session after `caller` closed it.
pub open spec fn after_close(st: SessionState, caller: AccountKey) -> SessionState {
    if is_decided(st) {
        st
    } else {
        SessionState { winning_player: if caller == st.player1 { st.player2 } else { st.player1 }, ..st }
    }
}

} // verus!
