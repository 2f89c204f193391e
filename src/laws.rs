use vstd::prelude::*;

use crate::event::{BoardSnapshot, Delivery};
use crate::game::{fresh_game, stale_step, start_notices, Game, Player};
use crate::registry::{random_step, Games};

verus! {

/// Two players with different ids who ask for a random opponent one after the
/// other, while nobody else is waiting and the first is still reachable, end
/// up in exactly one new match: the first plays White, the second Black, and
/// each is sent exactly one `GameStart`, both with the id of that match.
pub proof fn lemma_random_pairing(
    g0: Games,
    first: String,
    first_channel: u64,
    first_waiting_alive: bool,
    first_id: u128,
    first_board: BoardSnapshot,
    g1: Games,
    sent1: Seq<Delivery>,
    second: String,
    second_channel: u64,
    second_id: u128,
    second_board: BoardSnapshot,
    g2: Games,
    sent2: Seq<Delivery>,
)
    requires
        g0.waiting_room@.len() == 0,
        first@ != second@,
        random_step(g0, first, first_channel, first_waiting_alive, first_id, first_board, g1, sent1),
        random_step(g1, second, second_channel, true, second_id, second_board, g2, sent2),
    ensures
        sent1.len() == 0,
        g2.games@.len() == g0.games@.len() + 1,
        g2.games@.drop_last() == g0.games@,
        fresh_game(
            g2.games@.last(),
            Player { player_id: first, channel: first_channel },
            Player { player_id: second, channel: second_channel },
            second_id,
            second_board,
        ),
        sent1 + sent2 == start_notices(
            Player { player_id: first, channel: first_channel },
            Player { player_id: second, channel: second_channel },
            second_id,
        ),
        g2.waiting_room@.len() == 0,
        g2.custom_games == g0.custom_games,
{
    assert(g1.waiting_room@ =~= seq![Player { player_id: first, channel: first_channel }]);
    assert(g2.waiting_room@ =~= Seq::<Player>::empty());
    assert(g2.games@.drop_last() =~= g0.games@);
    assert(sent1 + sent2 =~= sent2);
}

/// Checking a match for staleness twice in a row, with the same liveness
/// verdicts for both players, gives the same verdict and sends the same
/// notices both times.
pub proof fn lemma_staleness_idempotent(
    g0: Game,
    white_alive: bool,
    black_alive: bool,
    dead1: Seq<u64>,
    g1: Game,
    stale1: bool,
    sent1: Seq<Delivery>,
    dead2: Seq<u64>,
    g2: Game,
    stale2: bool,
    sent2: Seq<Delivery>,
)
    requires
        stale_step(g0, white_alive, black_alive, dead1, g1, stale1, sent1),
        stale_step(g1, white_alive, black_alive, dead2, g2, stale2, sent2),
    ensures
        stale1 == stale2,
        sent1 == sent2,
        g2.board == g0.board,
{
}

} // verus!
