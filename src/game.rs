use vstd::prelude::*;
use vstd::string::StringExecFns;

use crate::event::{extends, BoardSnapshot, Color, Delivery, GameEvent, HexVector, PieceKind};

verus! {

/// One participant's outbound stream, bound to the player's identity.
///
/// `channel` is the handle by which the transport knows the stream. When a
/// player reconnects, the slot receives a new `Player`; the old one is dropped.
#[derive(Debug, PartialEq, Eq)]
pub struct Player {
    pub player_id: String,
    pub channel: u64,
}

impl Player {
    pub fn new(channel: u64, player_id: String) -> (r: Player)
        ensures
            r == (Player { player_id, channel }),
    {
        Player { player_id, channel }
    }

    pub fn has_id(&self, id: &String) -> (r: bool)
        ensures
            r == (self.player_id@ == id@),
    {
        self.player_id == *id
    }

    /// An identical copy.
    pub fn duplicate(&self) -> (r: Player)
        ensures
            r == *self,
    {
        Player { player_id: self.player_id.clone(), channel: self.channel }
    }

    /// The delivery of `event` on this player's stream.
    pub fn send(&self, event: GameEvent) -> (r: Delivery)
        ensures
            r == (Delivery { channel: self.channel, event }),
    {
        Delivery { channel: self.channel, event }
    }
}

/// Why a request about a match is refused.
#[derive(Debug, Clone, Copy, PartialEq, Eq, Structural)]
pub enum GameError {
    InvalidGameId(u128),
    InvalidPlayerId { game_id: u128 },
    PlayerNotLoggedIn,
    AllPlayerDisconnected,
}

/// The lowercase hexadecimal digits.
pub open spec fn hex_digits() -> Seq<char> {
    "0123456789abcdef"@
}

/// The `n`-th of the 32 hexadecimal digits of `id`, most significant first.
pub open spec fn nibble(id: u128, n: int) -> int {
    (id as int / vstd::arithmetic::power::pow(16, (31 - n) as nat)) % 16
}

/// How many hyphens stand before position `k` of the hyphenated form.
pub open spec fn hyphens_before(k: int) -> int {
    if k < 8 { 0 } else if k < 13 { 1 } else if k < 18 { 2 } else if k < 23 { 3 } else { 4 }
}

/// The hyphenated lowercase form of a 128-bit id: 32 hexadecimal digits in
/// groups of 8, 4, 4, 4 and 12, joined by hyphens.
pub open spec fn id_text(id: u128) -> Seq<char> {
    Seq::new(
        36,
        |k: int|
            if k == 8 || k == 13 || k == 18 || k == 23 {
                '-'
            } else {
                hex_digits()[nibble(id, k - hyphens_before(k))]
            },
    )
}

/// Relies on the `Display` of `uuid::Uuid`, which writes the hyphenated
/// lowercase form of the id's 16 bytes, most significant first.
#[verifier::external_body]
fn game_id_text(id: u128) -> (r: String)
    ensures
        r@ == id_text(id),
{
    uuid::Uuid::from_u128(id).to_string()
}

impl GameError {
    /// The message shown to the player.
    pub open spec fn message_text(self) -> Seq<char> {
        match self {
            GameError::InvalidGameId(id) => "game with id "@ + id_text(id) + " don't exist."@,
            GameError::InvalidPlayerId { game_id } => "you are not a player of game "@ + id_text(game_id),
            GameError::PlayerNotLoggedIn => "player must be logged in."@,
            GameError::AllPlayerDisconnected => "All player disconnected."@,
        }
    }

    pub fn message(&self) -> (r: String)
        ensures
            r@ == self.message_text(),
    {
        match self {
            GameError::InvalidGameId(id) => {
                let s = String::from_str("game with id ").concat(game_id_text(*id).as_str());
                s.concat(" don't exist.")
            },
            GameError::InvalidPlayerId { game_id } => {
                String::from_str("you are not a player of game ").concat(game_id_text(*game_id).as_str())
            },
            GameError::PlayerNotLoggedIn => String::from_str("player must be logged in."),
            GameError::AllPlayerDisconnected => String::from_str("All player disconnected."),
        }
    }
}

/// Why a move by a participant is refused.
#[derive(Debug, PartialEq, Eq)]
pub enum IllegalMove {
    /// The mover's color is not the color to move.
    NotYourTurn,
    /// The board engine refused the move, for the reason it gives.
    Rejected(String),
}

/// What became of a move that the board engine accepted.
#[derive(Debug, Clone, Copy, PartialEq, Eq, Structural)]
pub enum MoveOutcome {
    /// The move was played; the opponent and the spectators are told.
    Committed,
    /// The move reaches the last rank and needs a promotion choice; nothing was played.
    PendingPromotion,
}

/// The board engine's answer to a move played on the match's current board.
#[derive(Debug)]
pub enum EngineVerdict {
    Illegal(String),
    PendingPromotion,
    /// The move was applied; the board that results.
    Committed(BoardSnapshot),
}

/// A live match: its two colored slots, its spectators and its board.
#[derive(Debug)]
pub struct Game {
    pub white_player: Player,
    pub black_player: Player,
    pub game_id: u128,
    pub board: BoardSnapshot,
    pub spectators: Vec<Player>,
}

/// The `GameStart` event for `color` in match `game_id`.
pub open spec fn start_event(game_id: u128, color: Color) -> GameEvent {
    GameEvent::GameStart { game_id, player_color: color }
}

/// The two `GameStart` deliveries of a new match, White's first.
pub open spec fn start_notices(white: Player, black: Player, game_id: u128) -> Seq<Delivery> {
    seq![
        Delivery { channel: white.channel, event: start_event(game_id, Color::White) },
        Delivery { channel: black.channel, event: start_event(game_id, Color::Black) },
    ]
}

/// `g` is a match just started between `white` and `black` on `board`.
pub open spec fn fresh_game(
    g: Game,
    white: Player,
    black: Player,
    game_id: u128,
    board: BoardSnapshot,
) -> bool {
    &&& g.white_player == white
    &&& g.black_player == black
    &&& g.game_id == game_id
    &&& g.board == board
    &&& g.spectators@.len() == 0
}

/// The event that tells the others of a committed move.
pub open spec fn move_event(
    from: HexVector,
    to: HexVector,
    promote_to: Option<PieceKind>,
) -> GameEvent {
    GameEvent::OpponentPlayedMove { from, to, promote_to }
}

/// The delivery of `e` to each of `ps`, in order.
pub open spec fn notify_all(ps: Seq<Player>, e: GameEvent) -> Seq<Delivery> {
    ps.map_values(|p: Player| Delivery { channel: p.channel, event: e })
}

/// `spectators` without those whose channel failed its liveness probe.
pub open spec fn live_spectators(spectators: Seq<Player>, dead: Seq<u64>) -> Seq<Player> {
    spectators.filter(|p: Player| !dead.contains(p.channel))
}

/// A match is stale when its game has ended or both players are unreachable.
pub open spec fn stale_verdict(board: BoardSnapshot, white_alive: bool, black_alive: bool) -> bool {
    board.finished || (!white_alive && !black_alive)
}

/// The notice that a staleness check sends: when the game goes on and exactly
/// one player is unreachable, the other is told once.
pub open spec fn disconnect_notices(g: Game, white_alive: bool, black_alive: bool) -> Seq<Delivery> {
    if g.board.finished || white_alive == black_alive {
        Seq::empty()
    } else if white_alive {
        seq![Delivery { channel: g.white_player.channel, event: GameEvent::OpponentDisconnected }]
    } else {
        seq![Delivery { channel: g.black_player.channel, event: GameEvent::OpponentDisconnected }]
    }
}

/// One staleness check of `old`, given the probes' verdicts: it yields `new`,
/// the verdict `stale`, and the deliveries `sent`.
pub open spec fn stale_step(
    old: Game,
    white_alive: bool,
    black_alive: bool,
    dead_spectators: Seq<u64>,
    new: Game,
    stale: bool,
    sent: Seq<Delivery>,
) -> bool {
    &&& new.white_player == old.white_player
    &&& new.black_player == old.black_player
    &&& new.game_id == old.game_id
    &&& new.board == old.board
    &&& new.spectators@ == live_spectators(old.spectators@, dead_spectators)
    &&& stale == stale_verdict(old.board, white_alive, black_alive)
    &&& sent == disconnect_notices(old, white_alive, black_alive)
}

/// A move request on `old` by the player with id `player_id`, answered by the
/// board engine with `verdict`: it yields `new`, the answer `r` and the
/// deliveries `sent`. Only a committed move by the player whose turn it is
/// changes anything.
pub open spec fn move_step(
    old: Game,
    player_id: Seq<char>,
    from: HexVector,
    to: HexVector,
    promote_to: Option<PieceKind>,
    verdict: EngineVerdict,
    new: Game,
    r: Result<Result<MoveOutcome, IllegalMove>, GameError>,
    sent: Seq<Delivery>,
) -> bool {
    match old.color_of(player_id) {
        None => {
            &&& r == Err::<Result<MoveOutcome, IllegalMove>, GameError>(
                GameError::InvalidPlayerId { game_id: old.game_id },
            )
            &&& new == old
            &&& sent.len() == 0
        },
        Some(c) => if c != old.board.turn {
            &&& r == Ok::<Result<MoveOutcome, IllegalMove>, GameError>(Err(IllegalMove::NotYourTurn))
            &&& new == old
            &&& sent.len() == 0
        } else {
            match verdict {
                EngineVerdict::Illegal(reason) => {
                    &&& r == Ok::<Result<MoveOutcome, IllegalMove>, GameError>(
                        Err(IllegalMove::Rejected(reason)),
                    )
                    &&& new == old
                    &&& sent.len() == 0
                },
                EngineVerdict::PendingPromotion => {
                    &&& r == Ok::<Result<MoveOutcome, IllegalMove>, GameError>(
                        Ok(MoveOutcome::PendingPromotion),
                    )
                    &&& new == old
                    &&& sent.len() == 0
                },
                EngineVerdict::Committed(board) => {
                    &&& r == Ok::<Result<MoveOutcome, IllegalMove>, GameError>(Ok(MoveOutcome::Committed))
                    &&& new.white_player == old.white_player
                    &&& new.black_player == old.black_player
                    &&& new.game_id == old.game_id
                    &&& new.spectators == old.spectators
                    &&& new.board == board
                    &&& sent == seq![
                        Delivery {
                            channel: old.slot(c.other()).channel,
                            event: move_event(from, to, promote_to),
                        },
                    ] + notify_all(old.spectators@, move_event(from, to, promote_to))
                },
            }
        },
    }
}

/// A reconnection of `player_id` on `channel` to `old`: it yields `new`, the
/// answer `r` and the deliveries `sent`.
pub open spec fn rejoin_step(
    old: Game,
    player_id: String,
    channel: u64,
    new: Game,
    r: Result<(), GameError>,
    sent: Seq<Delivery>,
) -> bool {
    match old.color_of(player_id@) {
        None => {
            &&& r == Err::<(), GameError>(GameError::InvalidPlayerId { game_id: old.game_id })
            &&& new == old
            &&& sent.len() == 0
        },
        Some(c) => {
            &&& r is Ok
            &&& new.slot(c) == (Player { player_id, channel })
            &&& new.slot(c.other()) == old.slot(c.other())
            &&& new.game_id == old.game_id
            &&& new.board == old.board
            &&& new.spectators == old.spectators
            &&& sent == seq![
                Delivery {
                    channel,
                    event: GameEvent::RejoinedGame {
                        game_id: old.game_id,
                        player_color: c,
                        board: old.board,
                    },
                },
            ]
        },
    }
}

fn contains_channel(channels: &Vec<u64>, c: u64) -> (r: bool)
    ensures
        r == channels@.contains(c),
{
    let mut i: usize = 0;
    while i < channels.len()
        invariant
            i <= channels.len(),
            forall|j: int| 0 <= j < i ==> channels@[j] != c,
        decreases channels.len() - i,
    {
        if channels[i] == c {
            return true;
        }
        i = i + 1;
    }
    false
}

impl Game {
    /// The color that `id` plays in this match, if any; White is looked at first.
    pub open spec fn color_of(&self, id: Seq<char>) -> Option<Color> {
        if self.white_player.player_id@ == id {
            Some(Color::White)
        } else if self.black_player.player_id@ == id {
            Some(Color::Black)
        } else {
            None
        }
    }

    /// The slot of color `c`.
    pub open spec fn slot(&self, c: Color) -> Player {
        match c {
            Color::White => self.white_player,
            Color::Black => self.black_player,
        }
    }

    pub fn get_player_color(&self, player_id: &String) -> (r: Result<Color, GameError>)
        ensures
            r == match self.color_of(player_id@) {
                Some(c) => Ok::<Color, GameError>(c),
                None => Err(GameError::InvalidPlayerId { game_id: self.game_id }),
            },
    {
        if self.white_player.has_id(player_id) {
            Ok(Color::White)
        } else if self.black_player.has_id(player_id) {
            Ok(Color::Black)
        } else {
            Err(GameError::InvalidPlayerId { game_id: self.game_id })
        }
    }

    /// Starts a match: `player1` plays White and `player2` Black, in arrival
    /// order. `alive1` and `alive2` say whether each stream still accepts
    /// events. When both do, each is sent its `GameStart`; otherwise nothing is
    /// sent and the reachable player, if any, is handed back for re-queueing.
    pub fn new(
        player1: Player,
        player2: Player,
        game_id: u128,
        board: BoardSnapshot,
        alive1: bool,
        alive2: bool,
        out: &mut Vec<Delivery>,
    ) -> (r: Result<Game, Option<Player>>)
        ensures
            alive1 && alive2 ==> match r {
                Ok(g) => fresh_game(g, player1, player2, game_id, board),
                Err(_) => false,
            },
            alive1 && alive2 ==> final(out)@ == old(out)@ + start_notices(player1, player2, game_id),
            alive1 && !alive2 ==> r == Err::<Game, Option<Player>>(Some(player1)),
            !alive1 && alive2 ==> r == Err::<Game, Option<Player>>(Some(player2)),
            !alive1 && !alive2 ==> r == Err::<Game, Option<Player>>(None),
            !(alive1 && alive2) ==> final(out)@ == old(out)@,
    {
        if !alive2 {
            return Err(if alive1 { Some(player1) } else { None });
        }
        if !alive1 {
            return Err(Some(player2));
        }
        out.push(player1.send(GameEvent::start(game_id, Color::White)));
        out.push(player2.send(GameEvent::start(game_id, Color::Black)));
        proof {
            assert(final(out)@ =~= old(out)@ + start_notices(player1, player2, game_id));
        }
        Ok(Game {
            white_player: player1,
            black_player: player2,
            game_id,
            board,
            spectators: Vec::new(),
        })
    }

    /// Adds a spectator, who is told of every committed move.
    pub fn add_spectator(&mut self, spectator: Player)
        ensures
            final(self).white_player == old(self).white_player,
            final(self).black_player == old(self).black_player,
            final(self).game_id == old(self).game_id,
            final(self).board == old(self).board,
            final(self).spectators@ == old(self).spectators@.push(spectator),
    {
        self.spectators.push(spectator);
    }

    /// Whether `player_id` may move now: the color they play, or why not.
    pub fn check_move(&self, player_id: &String) -> (r: Result<Result<Color, IllegalMove>, GameError>)
        ensures
            match self.color_of(player_id@) {
                None => r == Err::<Result<Color, IllegalMove>, GameError>(
                    GameError::InvalidPlayerId { game_id: self.game_id },
                ),
                Some(c) => if c == self.board.turn {
                    r == Ok::<Result<Color, IllegalMove>, GameError>(Ok(c))
                } else {
                    r == Ok::<Result<Color, IllegalMove>, GameError>(Err(IllegalMove::NotYourTurn))
                },
            },
    {
        let color = self.get_player_color(player_id)?;
        if color != self.board.turn {
            return Ok(Err(IllegalMove::NotYourTurn));
        }
        Ok(Ok(color))
    }

    /// Plays a move for `player_id`. `verdict` is the board engine's answer to
    /// the move on the current board; it is only consulted when the player is
    /// a participant whose turn it is. A committed move replaces the board and
    /// is told to the opponent, then to every spectator; the mover is not told.
    /// On every other path the match is left as it was and nothing is sent.
    pub fn play_move(
        &mut self,
        player_id: &String,
        from: HexVector,
        to: HexVector,
        promote_to: Option<PieceKind>,
        verdict: EngineVerdict,
        out: &mut Vec<Delivery>,
    ) -> (r: Result<Result<MoveOutcome, IllegalMove>, GameError>)
        ensures
            move_step(
                *old(self),
                player_id@,
                from,
                to,
                promote_to,
                verdict,
                *final(self),
                r,
                final(out)@.skip(old(out)@.len() as int),
            ),
            extends(old(out)@, final(out)@),
    {
        let color = match self.check_move(player_id) {
            Err(e) => return Err(e),
            Ok(Err(e)) => return Ok(Err(e)),
            Ok(Ok(c)) => c,
        };
        let board = match verdict {
            EngineVerdict::Illegal(reason) => return Ok(Err(IllegalMove::Rejected(reason))),
            EngineVerdict::PendingPromotion => return Ok(Ok(MoveOutcome::PendingPromotion)),
            EngineVerdict::Committed(board) => board,
        };
        self.board = board;
        let opponent = match color {
            Color::White => self.black_player.channel,
            Color::Black => self.white_player.channel,
        };
        out.push(Delivery { channel: opponent, event: GameEvent::OpponentPlayedMove { from, to, promote_to } });
        let ghost start = out@;
        let mut i: usize = 0;
        while i < self.spectators.len()
            invariant
                i <= self.spectators.len(),
                self.spectators == old(self).spectators,
                out@ == start + notify_all(self.spectators@.take(i as int), move_event(from, to, promote_to)),
            decreases self.spectators.len() - i,
        {
            let ch = self.spectators[i].channel;
            out.push(Delivery { channel: ch, event: GameEvent::OpponentPlayedMove { from, to, promote_to } });
            proof {
                assert(self.spectators@.take(i + 1) =~= self.spectators@.take(i as int).push(self.spectators@[i as int]));
                assert(notify_all(self.spectators@.take(i + 1), move_event(from, to, promote_to)) =~=
                    notify_all(self.spectators@.take(i as int), move_event(from, to, promote_to)).push(
                        Delivery { channel: ch, event: move_event(from, to, promote_to) }));
            }
            i = i + 1;
        }
        proof {
            assert(self.spectators@.take(i as int) =~= self.spectators@);
            assert(out@.skip(old(out)@.len() as int) =~= seq![
                Delivery { channel: opponent, event: move_event(from, to, promote_to) },
            ] + notify_all(old(self).spectators@, move_event(from, to, promote_to)));
        }
        Ok(Ok(MoveOutcome::Committed))
    }

    /// Reconnects `player_id` on the stream `channel`. A participant gets a
    /// fresh connection in the slot of their color, replacing the old one, and
    /// is sent a `RejoinedGame` carrying the current board on it.
    pub fn join(&mut self, player_id: String, channel: u64, out: &mut Vec<Delivery>) -> (r: Result<(), GameError>)
        ensures
            rejoin_step(
                *old(self),
                player_id,
                channel,
                *final(self),
                r,
                final(out)@.skip(old(out)@.len() as int),
            ),
            extends(old(out)@, final(out)@),
    {
        let color = self.get_player_color(&player_id)?;
        let player = Player::new(channel, player_id);
        out.push(
            player.send(
                GameEvent::RejoinedGame {
                    game_id: self.game_id,
                    player_color: color,
                    board: self.board.duplicate(),
                },
            ),
        );
        match color {
            Color::White => self.white_player = player,
            Color::Black => self.black_player = player,
        }
        proof {
            assert(out@.skip(old(out)@.len() as int) =~= seq![
                Delivery {
                    channel,
                    event: GameEvent::RejoinedGame {
                        game_id: old(self).game_id,
                        player_color: color,
                        board: old(self).board,
                    },
                },
            ]);
        }
        Ok(())
    }

    /// Decides whether the match is stale, given the verdicts of this round of
    /// liveness probes. Spectators whose channel is in `dead_spectators` are
    /// dropped first. The match is stale when its game has ended or when both
    /// players are unreachable; when exactly one of them is, the other is told
    /// and the match stays open for the missing player to rejoin.
    pub fn is_stale(
        &mut self,
        white_alive: bool,
        black_alive: bool,
        dead_spectators: &Vec<u64>,
        out: &mut Vec<Delivery>,
    ) -> (r: bool)
        ensures
            stale_step(
                *old(self),
                white_alive,
                black_alive,
                dead_spectators@,
                *final(self),
                r,
                final(out)@.skip(old(out)@.len() as int),
            ),
            extends(old(out)@, final(out)@),
    {
        self.remove_stale_specs(dead_spectators);
        let ghost start = out@;
        if !self.board.finished {
            if white_alive && !black_alive {
                out.push(self.white_player.send(GameEvent::OpponentDisconnected));
            } else if !white_alive && black_alive {
                out.push(self.black_player.send(GameEvent::OpponentDisconnected));
            }
        }
        proof {
            assert(out@.skip(start.len() as int) =~= disconnect_notices(*old(self), white_alive, black_alive));
        }
        self.board.finished || (!white_alive && !black_alive)
    }

    fn remove_stale_specs(&mut self, dead_spectators: &Vec<u64>)
        ensures
            final(self).white_player == old(self).white_player,
            final(self).black_player == old(self).black_player,
            final(self).game_id == old(self).game_id,
            final(self).board == old(self).board,
            final(self).spectators@ == live_spectators(old(self).spectators@, dead_spectators@),
    {
        let mut all: Vec<Player> = Vec::new();
        std::mem::swap(&mut all, &mut self.spectators);
        let ghost pred = |p: Player| !dead_spectators@.contains(p.channel);
        let mut i: usize = 0;
        while i < all.len()
            invariant
                i <= all.len(),
                all@ == old(self).spectators@,
                pred == (|p: Player| !dead_spectators@.contains(p.channel)),
                self.white_player == old(self).white_player,
                self.black_player == old(self).black_player,
                self.game_id == old(self).game_id,
                self.board == old(self).board,
                self.spectators@ == all@.take(i as int).filter(pred),
            decreases all.len() - i,
        {
            proof {
                assert(all@.take(i + 1) =~= all@.take(i as int).push(all@[i as int]));
                all@.take(i as int).lemma_filter_push(all@[i as int], pred);
            }
            let keep = !contains_channel(dead_spectators, all[i].channel);
            if keep {
                self.spectators.push(all[i].duplicate());
            }
            i = i + 1;
        }
        proof {
            assert(all@.take(i as int) =~= all@);
        }
    }

    /// The channels of the spectators, in order.
    pub fn spectator_channels(&self) -> (r: Vec<u64>)
        ensures
            r@ == self.spectators@.map_values(|p: Player| p.channel),
    {
        let mut r: Vec<u64> = Vec::new();
        let mut i: usize = 0;
        while i < self.spectators.len()
            invariant
                i <= self.spectators.len(),
                r@ == self.spectators@.take(i as int).map_values(|p: Player| p.channel),
            decreases self.spectators.len() - i,
        {
            r.push(self.spectators[i].channel);
            proof {
                assert(self.spectators@.take(i + 1) =~= self.spectators@.take(i as int).push(self.spectators@[i as int]));
            }
            i = i + 1;
        }
        proof {
            assert(self.spectators@.take(i as int) =~= self.spectators@);
        }
        r
    }
}

} // verus!
