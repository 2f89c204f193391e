use vstd::prelude::*;
use vstd::set_lib::{lemma_int_range, lemma_len_subset, set_int_range};

use crate::event::{extends, BoardSnapshot, Delivery, GameEvent, HexVector, PieceKind};
use crate::game::{
    fresh_game, move_step, rejoin_step, start_notices, stale_step, EngineVerdict, Game,
    GameError, IllegalMove, MoveOutcome, Player,
};
use crate::identity::MaybeUserId;

verus! {

/// A match created by invitation, waiting for someone to join it by its id.
#[derive(Debug)]
pub struct CustomGame {
    pub game_id: u128,
    pub creator: Player,
}

/// What a match id designates: a started match, by its position in the
/// registry, or the creator of an invitation, taken out of the lobby.
#[derive(Debug)]
pub enum GameState {
    Started(usize),
    Waiting(Player),
}

/// The outcome of one round of liveness probes on a match.
#[derive(Debug)]
pub struct LivenessReport {
    pub game_id: u128,
    pub white_alive: bool,
    pub black_alive: bool,
    /// The channels of the spectators that did not answer.
    pub dead_spectators: Vec<u64>,
}

/// The registry of live matches, open invitations and players waiting for a
/// random opponent.
#[derive(Debug)]
pub struct Games {
    pub games: Vec<Game>,
    pub custom_games: Vec<CustomGame>,
    pub waiting_room: Vec<Player>,
}

/// The ids in use: those of the started matches, then those of the invitations.
pub open spec fn used_ids(games: Seq<Game>, custom: Seq<CustomGame>) -> Seq<int> {
    games.map_values(|g: Game| g.game_id as int) + custom.map_values(|c: CustomGame| c.game_id as int)
}

/// A request for a random opponent by `player_id` on `channel`, where
/// `waiting_alive` says whether the stream of the entry it would pair with
/// still accepts events, and `game_id` is the id a new match would get.
///
/// The most recent waiting entry is taken. If there is none, if it is the same
/// player, or if its stream is gone, the requester waits in its place.
/// Otherwise the two are paired: the waiting player plays White, the
/// requester Black, and both are sent their `GameStart`.
pub open spec fn random_step(
    old: Games,
    player_id: String,
    channel: u64,
    waiting_alive: bool,
    game_id: u128,
    board: BoardSnapshot,
    new: Games,
    sent: Seq<Delivery>,
) -> bool {
    let w = old.waiting_room@;
    let me = Player { player_id, channel };
    &&& new.custom_games == old.custom_games
    &&& if w.len() == 0 {
        &&& new.games == old.games
        &&& new.waiting_room@ == w.push(me)
        &&& sent.len() == 0
    } else if w.last().player_id@ == player_id@ || !waiting_alive {
        &&& new.games == old.games
        &&& new.waiting_room@ == w.drop_last().push(me)
        &&& sent.len() == 0
    } else {
        &&& new.waiting_room@ == w.drop_last()
        &&& new.games@ == old.games@.push(new.games@.last())
        &&& fresh_game(new.games@.last(), w.last(), me, game_id, board)
        &&& sent == start_notices(w.last(), me, game_id)
    }
}

/// A new invitation `game_id` opened by `player_id` on `channel`: the creator
/// is told the id at once, and waits in the lobby under it.
pub open spec fn custom_step(
    old: Games,
    player_id: String,
    channel: u64,
    game_id: u128,
    new: Games,
    sent: Seq<Delivery>,
) -> bool {
    &&& new.games == old.games
    &&& new.waiting_room == old.waiting_room
    &&& new.custom_games@ == old.custom_games@.push(
        CustomGame { game_id, creator: Player { player_id, channel } },
    )
    &&& sent == seq![Delivery { channel, event: GameEvent::CustomCreated { game_id } }]
}

/// A request by `player_id` on `channel` to join `game_id`.
///
/// A started match treats it as a reconnection (see `rejoin_step`). An
/// invitation is paired the way a random request is, with its creator as the
/// waiting entry: `creator_alive` says whether the creator's stream still
/// accepts events. When the creator is the requester, or is gone, the
/// requester waits under the invitation instead. Any other id is unknown.
pub open spec fn join_step(
    old: Games,
    game_id: u128,
    player_id: String,
    channel: u64,
    creator_alive: bool,
    board: BoardSnapshot,
    new: Games,
    r: Result<(), GameError>,
    sent: Seq<Delivery>,
) -> bool {
    let me = Player { player_id, channel };
    if old.started(game_id) {
        let i = old.game_index(game_id);
        &&& new.custom_games == old.custom_games
        &&& new.waiting_room == old.waiting_room
        &&& new.games@ == old.games@.update(i, new.games@[i])
        &&& rejoin_step(old.games@[i], player_id, channel, new.games@[i], r, sent)
    } else if old.invited(game_id) {
        let j = old.invite_index(game_id);
        let creator = old.custom_games@[j].creator;
        &&& r == Ok::<(), GameError>(())
        &&& new.waiting_room == old.waiting_room
        &&& if creator.player_id@ == player_id@ || !creator_alive {
            &&& new.games == old.games
            &&& new.custom_games@ == old.custom_games@.update(j, CustomGame { game_id, creator: me })
            &&& sent.len() == 0
        } else {
            &&& new.custom_games@ == old.custom_games@.remove(j)
            &&& new.games@ == old.games@.push(new.games@.last())
            &&& fresh_game(new.games@.last(), creator, me, game_id, board)
            &&& sent == start_notices(creator, me, game_id)
        }
    } else {
        &&& r == Err::<(), GameError>(GameError::InvalidGameId(game_id))
        &&& new == old
        &&& sent.len() == 0
    }
}

/// Relies on `uuid::Uuid::new_v4`, read as an integer: a random 128-bit
/// identifier. Nothing is promised of its value.
#[verifier::external_body]
fn new_game_id() -> (r: u128) {
    uuid::Uuid::new_v4().as_u128()
}

/// One report of a sweep applied to `old`: the match it names, if still
/// there, is checked (see `stale_step`) and removed when it is stale.
pub open spec fn report_step(old: Games, report: LivenessReport, new: Games, sent: Seq<Delivery>) -> bool {
    &&& new.custom_games == old.custom_games
    &&& new.waiting_room == old.waiting_room
    &&& if old.started(report.game_id) {
        let i = old.game_index(report.game_id);
        exists|g: Game, stale: bool|
            {
                &&& stale_step(
                    old.games@[i],
                    report.white_alive,
                    report.black_alive,
                    report.dead_spectators@,
                    g,
                    stale,
                    sent,
                )
                &&& new.games@ == if stale {
                    old.games@.remove(i)
                } else {
                    old.games@.update(i, g)
                }
            }
    } else {
        &&& new.games == old.games
        &&& sent.len() == 0
    }
}

/// A sweep over `reports`, applied in order.
pub open spec fn sweep_step(
    old: Games,
    reports: Seq<LivenessReport>,
    new: Games,
    sent: Seq<Delivery>,
) -> bool
    decreases reports.len(),
{
    if reports.len() == 0 {
        new == old && sent.len() == 0
    } else {
        exists|mid: Games, before: Seq<Delivery>, last: Seq<Delivery>|
            {
                &&& sweep_step(old, reports.drop_last(), mid, before)
                &&& report_step(mid, reports.last(), new, last)
                &&& sent == before + last
            }
    }
}

/// The channels to probe for one match.
#[derive(Debug)]
pub struct ProbeTarget {
    pub game_id: u128,
    pub white: u64,
    pub black: u64,
    pub spectators: Vec<u64>,
}

/// A user id is required; its absence means the player is not logged in.
pub fn check_id(id: MaybeUserId) -> (r: Result<String, GameError>)
    ensures
        r == match id.0 {
            Some(s) => Ok::<String, GameError>(s),
            None => Err(GameError::PlayerNotLoggedIn),
        },
{
    match id.0 {
        Some(s) => Ok(s),
        None => Err(GameError::PlayerNotLoggedIn),
    }
}

impl Games {
    pub open spec fn started(&self, id: u128) -> bool {
        exists|i: int| 0 <= i < self.games@.len() && #[trigger] self.games@[i].game_id == id
    }

    pub open spec fn invited(&self, id: u128) -> bool {
        exists|j: int| 0 <= j < self.custom_games@.len() && #[trigger] self.custom_games@[j].game_id == id
    }

    pub open spec fn id_in_use(&self, id: u128) -> bool {
        self.started(id) || self.invited(id)
    }

    /// Every id names at most one match or invitation.
    pub open spec fn wf(&self) -> bool {
        &&& forall|i: int, k: int|
            0 <= i < k < self.games@.len() ==> #[trigger] self.games@[i].game_id
                != #[trigger] self.games@[k].game_id
        &&& forall|j: int, k: int|
            0 <= j < k < self.custom_games@.len() ==> #[trigger] self.custom_games@[j].game_id
                != #[trigger] self.custom_games@[k].game_id
        &&& forall|i: int, j: int|
            0 <= i < self.games@.len() && 0 <= j < self.custom_games@.len()
                ==> #[trigger] self.games@[i].game_id != #[trigger] self.custom_games@[j].game_id
    }

    /// The position of the started match `id`.
    pub open spec fn game_index(&self, id: u128) -> int {
        choose|i: int| 0 <= i < self.games@.len() && self.games@[i].game_id == id
    }

    /// The position of the invitation `id`.
    pub open spec fn invite_index(&self, id: u128) -> int {
        choose|j: int| 0 <= j < self.custom_games@.len() && self.custom_games@[j].game_id == id
    }

    proof fn lemma_game_index(&self, i: int)
        requires
            self.wf(),
            0 <= i < self.games@.len(),
        ensures
            self.started(self.games@[i].game_id),
            self.game_index(self.games@[i].game_id) == i,
    {
        let id = self.games@[i].game_id;
        assert(self.started(id));
        let c = self.game_index(id);
        assert(self.games@[c].game_id == id);
        if c < i {
            assert(self.games@[c].game_id != self.games@[i].game_id);
        } else if i < c {
            assert(self.games@[i].game_id != self.games@[c].game_id);
        }
    }

    proof fn lemma_invite_index(&self, j: int)
        requires
            self.wf(),
            0 <= j < self.custom_games@.len(),
        ensures
            self.invited(self.custom_games@[j].game_id),
            self.invite_index(self.custom_games@[j].game_id) == j,
    {
        let id = self.custom_games@[j].game_id;
        assert(self.invited(id));
        let c = self.invite_index(id);
        assert(self.custom_games@[c].game_id == id);
        if c < j {
            assert(self.custom_games@[c].game_id != self.custom_games@[j].game_id);
        } else if j < c {
            assert(self.custom_games@[j].game_id != self.custom_games@[c].game_id);
        }
    }

    /// An empty registry.
    pub fn new() -> (r: Games)
        ensures
            r.wf(),
            r.games@.len() == 0,
            r.custom_games@.len() == 0,
            r.waiting_room@.len() == 0,
    {
        Games { games: Vec::new(), custom_games: Vec::new(), waiting_room: Vec::new() }
    }

    /// The position of the started match `id`, if there is one.
    pub fn find_game(&self, id: u128) -> (r: Option<usize>)
        requires
            self.wf(),
        ensures
            match r {
                Some(i) => self.started(id) && i == self.game_index(id),
                None => !self.started(id),
            },
    {
        let mut i: usize = 0;
        while i < self.games.len()
            invariant
                self.wf(),
                i <= self.games.len(),
                forall|k: int| 0 <= k < i ==> self.games@[k].game_id != id,
            decreases self.games.len() - i,
        {
            if self.games[i].game_id == id {
                proof {
                    self.lemma_game_index(i as int);
                }
                return Some(i);
            }
            i = i + 1;
        }
        None
    }

    /// The position of the invitation `id`, if there is one.
    pub fn find_invite(&self, id: u128) -> (r: Option<usize>)
        requires
            self.wf(),
        ensures
            match r {
                Some(j) => self.invited(id) && j == self.invite_index(id),
                None => !self.invited(id),
            },
    {
        let mut j: usize = 0;
        while j < self.custom_games.len()
            invariant
                self.wf(),
                j <= self.custom_games.len(),
                forall|k: int| 0 <= k < j ==> self.custom_games@[k].game_id != id,
            decreases self.custom_games.len() - j,
        {
            if self.custom_games[j].game_id == id {
                proof {
                    self.lemma_invite_index(j as int);
                }
                return Some(j);
            }
            j = j + 1;
        }
        None
    }

    /// The position of the started match `id`, or `InvalidGameId`.
    pub fn get_game_with_id(&self, id: u128) -> (r: Result<usize, GameError>)
        requires
            self.wf(),
        ensures
            self.started(id) ==> r == Ok::<usize, GameError>(self.game_index(id) as usize),
            !self.started(id) ==> r == Err::<usize, GameError>(GameError::InvalidGameId(id)),
    {
        match self.find_game(id) {
            Some(i) => Ok(i),
            None => Err(GameError::InvalidGameId(id)),
        }
    }

    /// Whether `id` names a started match or an open invitation.
    pub fn is_id_in_use(&self, id: u128) -> (r: bool)
        requires
            self.wf(),
        ensures
            r == self.id_in_use(id),
    {
        self.find_game(id).is_some() || self.find_invite(id).is_some()
    }

    /// `candidate` when it is free; otherwise the least free id, which exists
    /// because fewer ids are in use than there are values up to their count.
    pub fn fresh_game_id(&self, candidate: u128) -> (r: u128)
        requires
            self.wf(),
        ensures
            !self.id_in_use(r),
            !self.id_in_use(candidate) ==> r == candidate,
    {
        if !self.is_id_in_use(candidate) {
            return candidate;
        }
        let n: u128 = self.games.len() as u128 + self.custom_games.len() as u128;
        let mut k: u128 = 0;
        while k <= n
            invariant
                self.wf(),
                self.id_in_use(candidate),
                n == self.games@.len() + self.custom_games@.len(),
                n < 0x1_0000_0000_0000_0000_0000,
                k <= n + 1,
                forall|m: u128| m < k ==> #[trigger] self.id_in_use(m),
            decreases n + 1 - k,
        {
            if !self.is_id_in_use(k) {
                return k;
            }
            k = k + 1;
        }
        proof {
            self.lemma_ids_exhausted(n as int);
        }
        k
    }

    /// Some id up to the number of ids in use is free.
    proof fn lemma_ids_exhausted(&self, n: int)
        requires
            n == self.games@.len() + self.custom_games@.len(),
            n <= u128::MAX,
        ensures
            exists|m: u128| m <= n && !self.id_in_use(m),
    {
        lemma_int_range(0, n + 1);
        if forall|m: u128| m <= n ==> #[trigger] self.id_in_use(m) {
            self.lemma_ids_bounded(n);
        }
    }

    proof fn lemma_ids_bounded(&self, n: int)
        requires
            n == self.games@.len() + self.custom_games@.len(),
            n <= u128::MAX,
            forall|m: u128| m <= n ==> #[trigger] self.id_in_use(m),
        ensures
            set_int_range(0, n + 1).len() <= n,
    {
        let ids = used_ids(self.games@, self.custom_games@);
        let gs = self.games@.map_values(|g: Game| g.game_id as int);
        let cs = self.custom_games@.map_values(|c: CustomGame| c.game_id as int);
        assert(ids == gs + cs);
        assert forall|m: int| set_int_range(0, n + 1).contains(m) implies ids.to_set().contains(m) by {
            let u = m as u128;
            assert(self.id_in_use(u));
            if self.started(u) {
                let i = choose|i: int| 0 <= i < self.games@.len() && #[trigger] self.games@[i].game_id == u;
                assert(gs[i] == m);
                assert(ids[i] == gs[i]);
                assert(ids.contains(m));
            } else {
                let j = choose|j: int|
                    0 <= j < self.custom_games@.len() && #[trigger] self.custom_games@[j].game_id == u;
                assert(cs[j] == m);
                assert(ids[gs.len() + j] == cs[j]);
                assert(ids.contains(m));
            }
        }
        ids.lemma_cardinality_of_set();
        lemma_len_subset(set_int_range(0, n + 1), ids.to_set());
    }

    /// Starts the match `game_id` between `player1` (White) and `player2`
    /// (Black); see `Game::new`. A started match joins the registry.
    pub fn start_new_game(
        &mut self,
        player1: Player,
        player2: Player,
        game_id: u128,
        board: BoardSnapshot,
        alive1: bool,
        alive2: bool,
        out: &mut Vec<Delivery>,
    ) -> (r: Result<(), Option<Player>>)
        requires
            old(self).wf(),
            !old(self).id_in_use(game_id),
        ensures
            final(self).wf(),
            final(self).custom_games == old(self).custom_games,
            final(self).waiting_room == old(self).waiting_room,
            alive1 && alive2 ==> {
                &&& r is Ok
                &&& final(self).games@ == old(self).games@.push(final(self).games@.last())
                &&& fresh_game(final(self).games@.last(), player1, player2, game_id, board)
                &&& final(out)@ == old(out)@ + start_notices(player1, player2, game_id)
            },
            !(alive1 && alive2) ==> {
                &&& final(self).games == old(self).games
                &&& final(out)@ == old(out)@
                &&& r == Err::<(), Option<Player>>(
                    if alive1 {
                        Some(player1)
                    } else if alive2 {
                        Some(player2)
                    } else {
                        None
                    },
                )
            },
    {
        let game = Game::new(player1, player2, game_id, board, alive1, alive2, out)?;
        self.games.push(game);
        proof {
            let n = old(self).games@.len() as int;
            assert forall|i: int, j: int|
                0 <= i < self.games@.len() && 0 <= j < self.custom_games@.len()
                implies #[trigger] self.games@[i].game_id != #[trigger] self.custom_games@[j].game_id by {
                if i == n {
                    assert(!old(self).invited(game_id));
                    assert(self.custom_games@[j] == old(self).custom_games@[j]);
                }
            }
            assert forall|i: int, k: int|
                0 <= i < k < self.games@.len()
                implies #[trigger] self.games@[i].game_id != #[trigger] self.games@[k].game_id by {
                if k == n {
                    assert(!old(self).started(game_id));
                    assert(self.games@[i] == old(self).games@[i]);
                }
            }
        }
        Ok(())
    }

    /// The channel of the waiting entry that the next random request would
    /// pair with: the transport probes it first.
    pub fn next_waiting_channel(&self) -> (r: Option<u64>)
        ensures
            self.waiting_room@.len() == 0 ==> r.is_none(),
            self.waiting_room@.len() > 0 ==> r == Some(self.waiting_room@.last().channel),
    {
        let n = self.waiting_room.len();
        if n == 0 {
            None
        } else {
            Some(self.waiting_room[n - 1].channel)
        }
    }

    /// Takes the most recent waiting entry out of the waiting room.
    pub fn find_waiting_game(&mut self) -> (r: Option<Player>)
        ensures
            final(self).games == old(self).games,
            final(self).custom_games == old(self).custom_games,
            old(self).waiting_room@.len() == 0 ==> r.is_none() && final(self).waiting_room@ == old(
                self,
            ).waiting_room@,
            old(self).waiting_room@.len() > 0 ==> r == Some(old(self).waiting_room@.last())
                && final(self).waiting_room@ == old(self).waiting_room@.drop_last(),
    {
        self.waiting_room.pop()
    }

    /// A random-opponent request whose new match, if any, gets the free id
    /// `game_id`; see `random_step`.
    pub fn pair_random(
        &mut self,
        player_id: String,
        channel: u64,
        waiting_alive: bool,
        game_id: u128,
        board: BoardSnapshot,
        out: &mut Vec<Delivery>,
    )
        requires
            old(self).wf(),
            !old(self).id_in_use(game_id),
        ensures
            final(self).wf(),
            random_step(
                *old(self),
                player_id,
                channel,
                waiting_alive,
                game_id,
                board,
                *final(self),
                final(out)@.skip(old(out)@.len() as int),
            ),
            extends(old(out)@, final(out)@),
    {
        let me = Player::new(channel, player_id);
        match self.find_waiting_game() {
            None => {
                self.waiting_room.push(me);
            },
            Some(other) => {
                if other.player_id == me.player_id {
                    self.waiting_room.push(me);
                } else {
                    match self.start_new_game(other, me, game_id, board, waiting_alive, true, out) {
                        Ok(()) => {},
                        Err(Some(p)) => self.waiting_room.push(p),
                        Err(None) => {},
                    }
                }
            },
        }
        proof {
            if out@.len() == old(out)@.len() {
                assert(out@.skip(old(out)@.len() as int) =~= Seq::<Delivery>::empty());
            } else {
                assert(out@.skip(old(out)@.len() as int) =~= start_notices(
                    old(self).waiting_room@.last(),
                    Player { player_id, channel },
                    game_id,
                ));
            }
        }
    }

    /// A random-opponent request; a new match gets a fresh random id.
    pub fn start_new_random_game(
        &mut self,
        player_id: String,
        channel: u64,
        waiting_alive: bool,
        board: BoardSnapshot,
        out: &mut Vec<Delivery>,
    )
        requires
            old(self).wf(),
        ensures
            final(self).wf(),
            exists|game_id: u128|
                !old(self).id_in_use(game_id) && random_step(
                    *old(self),
                    player_id,
                    channel,
                    waiting_alive,
                    game_id,
                    board,
                    *final(self),
                    final(out)@.skip(old(out)@.len() as int),
                ),
            extends(old(out)@, final(out)@),
    {
        let game_id = self.fresh_game_id(new_game_id());
        self.pair_random(player_id, channel, waiting_alive, game_id, board, out);
    }

    /// Opens the invitation `game_id`, which must be free; see `custom_step`.
    pub fn open_custom_game(&mut self, player_id: String, channel: u64, game_id: u128, out: &mut Vec<Delivery>)
        requires
            old(self).wf(),
            !old(self).id_in_use(game_id),
        ensures
            final(self).wf(),
            custom_step(
                *old(self),
                player_id,
                channel,
                game_id,
                *final(self),
                final(out)@.skip(old(out)@.len() as int),
            ),
            extends(old(out)@, final(out)@),
    {
        let player = Player::new(channel, player_id);
        out.push(player.send(GameEvent::CustomCreated { game_id }));
        self.custom_games.push(CustomGame { game_id, creator: player });
        proof {
            let n = old(self).custom_games@.len() as int;
            assert forall|i: int, j: int|
                0 <= i < self.games@.len() && 0 <= j < self.custom_games@.len()
                implies #[trigger] self.games@[i].game_id != #[trigger] self.custom_games@[j].game_id by {
                if j == n {
                    assert(!old(self).started(game_id));
                }
            }
            assert forall|j: int, k: int|
                0 <= j < k < self.custom_games@.len()
                implies #[trigger] self.custom_games@[j].game_id != #[trigger] self.custom_games@[k].game_id by {
                if k == n {
                    assert(!old(self).invited(game_id));
                    assert(self.custom_games@[j] == old(self).custom_games@[j]);
                }
            }
            assert(out@.skip(old(out)@.len() as int) =~= seq![
                Delivery { channel, event: GameEvent::CustomCreated { game_id } },
            ]);
        }
    }

    /// Opens an invitation under a fresh random id, which is returned.
    pub fn create_custom_game(&mut self, player_id: String, channel: u64, out: &mut Vec<Delivery>) -> (r: u128)
        requires
            old(self).wf(),
        ensures
            final(self).wf(),
            !old(self).id_in_use(r),
            custom_step(
                *old(self),
                player_id,
                channel,
                r,
                *final(self),
                final(out)@.skip(old(out)@.len() as int),
            ),
            extends(old(out)@, final(out)@),
    {
        let game_id = self.fresh_game_id(new_game_id());
        self.open_custom_game(player_id, channel, game_id, out);
        game_id
    }

    /// What `id` designates. An invitation is taken out of the lobby.
    pub fn get_all_game_with_id(&mut self, id: u128) -> (r: Result<GameState, GameError>)
        requires
            old(self).wf(),
        ensures
            final(self).wf(),
            final(self).games == old(self).games,
            final(self).waiting_room == old(self).waiting_room,
            old(self).started(id) ==> r == Ok::<GameState, GameError>(
                GameState::Started(old(self).game_index(id) as usize),
            ) && final(self).custom_games == old(self).custom_games,
            !old(self).started(id) && old(self).invited(id) ==> {
                let j = old(self).invite_index(id);
                &&& r == Ok::<GameState, GameError>(GameState::Waiting(old(self).custom_games@[j].creator))
                &&& final(self).custom_games@ == old(self).custom_games@.remove(j)
            },
            !old(self).id_in_use(id) ==> r == Err::<GameState, GameError>(GameError::InvalidGameId(id))
                && final(self).custom_games == old(self).custom_games,
    {
        if let Some(i) = self.find_game(id) {
            return Ok(GameState::Started(i));
        }
        match self.find_invite(id) {
            Some(j) => {
                let entry = self.custom_games.remove(j);
                proof {
                    self.lemma_remove_invite(*old(self), j as int);
                }
                Ok(GameState::Waiting(entry.creator))
            },
            None => Err(GameError::InvalidGameId(id)),
        }
    }

    proof fn lemma_remove_invite(&self, old: Games, j: int)
        requires
            old.wf(),
            0 <= j < old.custom_games@.len(),
            self.games == old.games,
            self.custom_games@ == old.custom_games@.remove(j),
        ensures
            self.wf(),
            !self.id_in_use(old.custom_games@[j].game_id),
    {
        let id = old.custom_games@[j].game_id;
        assert forall|a: int, b: int|
            0 <= a < b < self.custom_games@.len()
            implies #[trigger] self.custom_games@[a].game_id != #[trigger] self.custom_games@[b].game_id by {
            let oa = if a < j { a } else { a + 1 };
            let ob = if b < j { b } else { b + 1 };
            assert(self.custom_games@[a] == old.custom_games@[oa]);
            assert(self.custom_games@[b] == old.custom_games@[ob]);
        }
        assert forall|i: int, a: int|
            0 <= i < self.games@.len() && 0 <= a < self.custom_games@.len()
            implies #[trigger] self.games@[i].game_id != #[trigger] self.custom_games@[a].game_id by {
            let oa = if a < j { a } else { a + 1 };
            assert(self.custom_games@[a] == old.custom_games@[oa]);
        }
        if self.invited(id) {
            let a = choose|a: int| 0 <= a < self.custom_games@.len() && #[trigger] self.custom_games@[a].game_id == id;
            let oa = if a < j { a } else { a + 1 };
            assert(self.custom_games@[a] == old.custom_games@[oa]);
            assert(old.custom_games@[oa].game_id != old.custom_games@[j].game_id);
        }
        if self.started(id) {
            let i = choose|i: int| 0 <= i < self.games@.len() && #[trigger] self.games@[i].game_id == id;
            assert(old.games@[i].game_id != old.custom_games@[j].game_id);
        }
    }

    /// A request to join `game_id`; see `join_step`.
    pub fn join_game(
        &mut self,
        game_id: u128,
        player_id: String,
        channel: u64,
        creator_alive: bool,
        board: BoardSnapshot,
        out: &mut Vec<Delivery>,
    ) -> (r: Result<(), GameError>)
        requires
            old(self).wf(),
        ensures
            final(self).wf(),
            join_step(
                *old(self),
                game_id,
                player_id,
                channel,
                creator_alive,
                board,
                *final(self),
                r,
                final(out)@.skip(old(out)@.len() as int),
            ),
            extends(old(out)@, final(out)@),
    {
        if let Some(i) = self.find_game(game_id) {
            let r = self.games[i].join(player_id, channel, out);
            proof {
                self.lemma_same_ids(*old(self));
            }
            return r;
        }
        let j = match self.find_invite(game_id) {
            Some(j) => j,
            None => {
                proof {
                    assert(out@.skip(old(out)@.len() as int) =~= Seq::<Delivery>::empty());
                }
                return Err(GameError::InvalidGameId(game_id));
            },
        };
        let me = Player::new(channel, player_id);
        if !creator_alive || self.custom_games[j].creator.player_id == me.player_id {
            self.custom_games.set(j, CustomGame { game_id, creator: me });
            proof {
                assert forall|a: int, b: int|
                    0 <= a < b < self.custom_games@.len()
                    implies #[trigger] self.custom_games@[a].game_id != #[trigger] self.custom_games@[b].game_id by {
                    assert(old(self).custom_games@[a].game_id != old(self).custom_games@[b].game_id);
                }
                assert forall|i: int, a: int|
                    0 <= i < self.games@.len() && 0 <= a < self.custom_games@.len()
                    implies #[trigger] self.games@[i].game_id != #[trigger] self.custom_games@[a].game_id by {
                    assert(old(self).games@[i].game_id != old(self).custom_games@[a].game_id);
                }
                assert(out@.skip(old(out)@.len() as int) =~= Seq::<Delivery>::empty());
            }
            return Ok(());
        }
        let entry = self.custom_games.remove(j);
        proof {
            self.lemma_remove_invite(*old(self), j as int);
        }
        let _ = self.start_new_game(entry.creator, me, game_id, board, true, true, out);
        proof {
            assert(out@.skip(old(out)@.len() as int) =~= start_notices(
                old(self).custom_games@[j as int].creator,
                Player { player_id, channel },
                game_id,
            ));
        }
        Ok(())
    }

    /// After a change to one match that keeps its id, every id is still used once.
    proof fn lemma_same_ids(&self, old: Games)
        requires
            old.wf(),
            self.custom_games == old.custom_games,
            self.games@.len() == old.games@.len(),
            forall|i: int| 0 <= i < self.games@.len() ==> #[trigger] self.games@[i].game_id == old.games@[i].game_id,
        ensures
            self.wf(),
    {
        assert forall|i: int, k: int|
            0 <= i < k < self.games@.len()
            implies #[trigger] self.games@[i].game_id != #[trigger] self.games@[k].game_id by {
            assert(old.games@[i].game_id != old.games@[k].game_id);
        }
        assert forall|i: int, a: int|
            0 <= i < self.games@.len() && 0 <= a < self.custom_games@.len()
            implies #[trigger] self.games@[i].game_id != #[trigger] self.custom_games@[a].game_id by {
            assert(old.games@[i].game_id != old.custom_games@[a].game_id);
        }
    }

    /// A move in match `game_id`; see `move_step`.
    pub fn play_move(
        &mut self,
        game_id: u128,
        player_id: &String,
        from: HexVector,
        to: HexVector,
        promote_to: Option<PieceKind>,
        verdict: EngineVerdict,
        out: &mut Vec<Delivery>,
    ) -> (r: Result<Result<MoveOutcome, IllegalMove>, GameError>)
        requires
            old(self).wf(),
        ensures
            final(self).wf(),
            final(self).custom_games == old(self).custom_games,
            final(self).waiting_room == old(self).waiting_room,
            extends(old(out)@, final(out)@),
            old(self).started(game_id) ==> {
                let i = old(self).game_index(game_id);
                &&& final(self).games@ == old(self).games@.update(i, final(self).games@[i])
                &&& move_step(
                    old(self).games@[i],
                    player_id@,
                    from,
                    to,
                    promote_to,
                    verdict,
                    final(self).games@[i],
                    r,
                    final(out)@.skip(old(out)@.len() as int),
                )
            },
            !old(self).started(game_id) ==> {
                &&& r == Err::<Result<MoveOutcome, IllegalMove>, GameError>(GameError::InvalidGameId(game_id))
                &&& final(self).games == old(self).games
                &&& final(out)@ == old(out)@
            },
    {
        match self.find_game(game_id) {
            Some(i) => {
                let r = self.games[i].play_move(player_id, from, to, promote_to, verdict, out);
                proof {
                    self.lemma_same_ids(*old(self));
                }
                r
            },
            None => Err(GameError::InvalidGameId(game_id)),
        }
    }

    /// Applies the reports of one round of liveness probes, in order, and
    /// removes every match found stale; see `sweep_step`. A report for a
    /// match that is gone is ignored.
    pub fn remove_stale_games(&mut self, reports: &Vec<LivenessReport>, out: &mut Vec<Delivery>)
        requires
            old(self).wf(),
        ensures
            final(self).wf(),
            sweep_step(*old(self), reports@, *final(self), final(out)@.skip(old(out)@.len() as int)),
            extends(old(out)@, final(out)@),
    {
        let mut k: usize = 0;
        proof {
            assert(reports@.take(0) =~= Seq::<LivenessReport>::empty());
            assert(out@.skip(old(out)@.len() as int) =~= Seq::<Delivery>::empty());
        }
        while k < reports.len()
            invariant
                k <= reports.len(),
                self.wf(),
                sweep_step(*old(self), reports@.take(k as int), *self, out@.skip(old(out)@.len() as int)),
                extends(old(out)@, out@),
            decreases reports.len() - k,
        {
            let ghost mid = *self;
            let ghost before = out@.skip(old(out)@.len() as int);
            let ghost mid_out = out@;
            let report = &reports[k];
            match self.find_game(report.game_id) {
                Some(i) => {
                    let stale = self.games[i].is_stale(
                        report.white_alive,
                        report.black_alive,
                        &report.dead_spectators,
                        out,
                    );
                    let ghost checked = self.games@[i as int];
                    proof {
                        self.lemma_same_ids(mid);
                    }
                    if stale {
                        self.games.remove(i);
                        proof {
                            assert(self.games@ =~= mid.games@.remove(i as int));
                            self.lemma_remove_game(mid, i as int);
                        }
                    } else {
                        proof {
                            assert(self.games@ =~= mid.games@.update(i as int, checked));
                        }
                    }
                    proof {
                        let sent = out@.skip(mid_out.len() as int);
                        assert(stale_step(
                            mid.games@[i as int],
                            report.white_alive,
                            report.black_alive,
                            report.dead_spectators@,
                            checked,
                            stale,
                            sent,
                        ));
                        assert(report_step(mid, reports@[k as int], *self, sent));
                    }
                },
                None => {
                    proof {
                        assert(out@.skip(mid_out.len() as int) =~= Seq::<Delivery>::empty());
                    }
                },
            }
            proof {
                let last = out@.skip(mid_out.len() as int);
                assert(reports@.take(k + 1).drop_last() =~= reports@.take(k as int));
                assert(out@.skip(old(out)@.len() as int) =~= before + last);
                let prefix = reports@.take(k + 1);
                assert(sweep_step(*old(self), prefix.drop_last(), mid, before));
                assert(report_step(mid, prefix.last(), *self, last));
                assert(sweep_step(*old(self), prefix, *self, before + last));
            }
            k = k + 1;
        }
        proof {
            assert(reports@.take(k as int) =~= reports@);
        }
    }

    proof fn lemma_remove_game(&self, old: Games, i: int)
        requires
            old.wf(),
            0 <= i < old.games@.len(),
            self.custom_games == old.custom_games,
            self.games@ == old.games@.remove(i),
        ensures
            self.wf(),
    {
        assert forall|a: int, b: int|
            0 <= a < b < self.games@.len()
            implies #[trigger] self.games@[a].game_id != #[trigger] self.games@[b].game_id by {
            let oa = if a < i { a } else { a + 1 };
            let ob = if b < i { b } else { b + 1 };
            assert(old.games@[oa].game_id != old.games@[ob].game_id);
        }
        assert forall|a: int, c: int|
            0 <= a < self.games@.len() && 0 <= c < self.custom_games@.len()
            implies #[trigger] self.games@[a].game_id != #[trigger] self.custom_games@[c].game_id by {
            let oa = if a < i { a } else { a + 1 };
            assert(old.games@[oa].game_id != old.custom_games@[c].game_id);
        }
    }

    /// What to probe in the next sweep: for each match, in order, the
    /// channels of its two players and of its spectators.
    pub fn probe_targets(&self) -> (r: Vec<ProbeTarget>)
        ensures
            r@.len() == self.games@.len(),
            forall|i: int|
                0 <= i < r@.len() ==> {
                    let g = #[trigger] self.games@[i];
                    &&& r@[i].game_id == g.game_id
                    &&& r@[i].white == g.white_player.channel
                    &&& r@[i].black == g.black_player.channel
                    &&& r@[i].spectators@ == g.spectators@.map_values(|p: Player| p.channel)
                },
    {
        let mut r: Vec<ProbeTarget> = Vec::new();
        let mut i: usize = 0;
        while i < self.games.len()
            invariant
                i <= self.games.len(),
                r@.len() == i,
                forall|k: int|
                    0 <= k < i ==> {
                        let g = #[trigger] self.games@[k];
                        &&& r@[k].game_id == g.game_id
                        &&& r@[k].white == g.white_player.channel
                        &&& r@[k].black == g.black_player.channel
                        &&& r@[k].spectators@ == g.spectators@.map_values(|p: Player| p.channel)
                    },
            decreases self.games.len() - i,
        {
            let g = &self.games[i];
            r.push(
                ProbeTarget {
                    game_id: g.game_id,
                    white: g.white_player.channel,
                    black: g.black_player.channel,
                    spectators: g.spectator_channels(),
                },
            );
            i = i + 1;
        }
        r
    }
}

} // verus!
