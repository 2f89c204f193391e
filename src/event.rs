use vstd::prelude::*;

verus! {

/// The two sides of a match.
#[derive(Clone, Copy, Debug, PartialEq, Eq, Structural)]
pub enum Color {
    White,
    Black,
}

impl Color {
    pub open spec fn other(self) -> Color {
        match self {
            Color::White => Color::Black,
            Color::Black => Color::White,
        }
    }

    /// The opposing side.
    pub fn opponent(self) -> (r: Color)
        ensures
            r == self.other(),
    {
        match self {
            Color::White => Color::Black,
            Color::Black => Color::White,
        }
    }
}

/// The kinds of pieces; a pawn that has not moved yet is an `OriginalPawn`.
#[derive(Clone, Copy, Debug, PartialEq, Eq, Structural)]
pub enum PieceKind {
    OriginalPawn,
    Pawn,
    Knight,
    Bishop,
    Rook,
    Queen,
    King,
}

/// A cell of the hexagonal board in axial coordinates.
#[derive(Clone, Copy, Debug, PartialEq, Eq, Structural)]
pub struct HexVector {
    pub q: i64,
    pub r: i64,
}

/// What the broker keeps of the board engine's state: the position as the
/// engine encodes it, whose turn it is, and whether the game has ended.
#[derive(Debug, PartialEq, Eq)]
pub struct BoardSnapshot {
    pub encoded: String,
    pub turn: Color,
    pub finished: bool,
}

impl BoardSnapshot {
    /// An identical copy.
    pub fn duplicate(&self) -> (r: BoardSnapshot)
        ensures
            r == *self,
    {
        BoardSnapshot { encoded: self.encoded.clone(), turn: self.turn, finished: self.finished }
    }
}

/// The events pushed to a participant's stream.
#[derive(Debug, PartialEq, Eq)]
pub enum GameEvent {
    CustomCreated { game_id: u128 },
    GameStart { game_id: u128, player_color: Color },
    OpponentPlayedMove { from: HexVector, to: HexVector, promote_to: Option<PieceKind> },
    RejoinedGame { game_id: u128, player_color: Color, board: BoardSnapshot },
    OpponentDisconnected,
}

impl GameEvent {
    /// The event that tells a player the match has begun and which side they play.
    pub fn start(game_id: u128, player_color: Color) -> (r: GameEvent)
        ensures
            r == (GameEvent::GameStart { game_id, player_color }),
    {
        GameEvent::GameStart { game_id, player_color }
    }
}

/// One event to push on the stream with the given channel handle.
#[derive(Debug, PartialEq, Eq)]
pub struct Delivery {
    pub channel: u64,
    pub event: GameEvent,
}

/// `after` is `before` with more deliveries added at its end.
pub open spec fn extends(before: Seq<Delivery>, after: Seq<Delivery>) -> bool {
    &&& before.len() <= after.len()
    &&& forall|i: int| 0 <= i < before.len() ==> #[trigger] after[i] == before[i]
}

} // verus!
