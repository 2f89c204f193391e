use hex_chess_app::event::{BoardSnapshot, Color, Delivery, GameEvent, HexVector, PieceKind};
use hex_chess_app::game::{EngineVerdict, Game, GameError, IllegalMove, MoveOutcome, Player};
use hex_chess_app::registry::{Games, LivenessReport};

fn board(encoded: &str, turn: Color) -> BoardSnapshot {
    BoardSnapshot { encoded: encoded.to_string(), turn, finished: false }
}

fn start_board() -> BoardSnapshot {
    board("start", Color::White)
}

fn v(q: i64, r: i64) -> HexVector {
    HexVector { q, r }
}

fn report(game_id: u128, white_alive: bool, black_alive: bool) -> LivenessReport {
    LivenessReport { game_id, white_alive, black_alive, dead_spectators: vec![] }
}

/// A registry with one match between "p1" (White, channel 1) and "p2" (Black, channel 2).
fn started() -> (Games, u128) {
    let mut games = Games::new();
    let mut out = Vec::new();
    games.start_new_random_game("p1".to_string(), 1, true, start_board(), &mut out);
    games.start_new_random_game("p2".to_string(), 2, true, start_board(), &mut out);
    let id = games.games[0].game_id;
    (games, id)
}

#[test]
fn random_match_first_player_waits() {
    let mut games = Games::new();
    let mut out = Vec::new();
    games.start_new_random_game("p1".to_string(), 1, true, start_board(), &mut out);
    assert!(out.is_empty());
    assert!(games.games.is_empty());
    assert_eq!(games.waiting_room, vec![Player::new(1, "p1".to_string())]);
}

#[test]
fn random_match_pairs_first_as_white() {
    let mut games = Games::new();
    let mut out = Vec::new();
    games.start_new_random_game("p1".to_string(), 1, true, start_board(), &mut out);
    assert_eq!(games.next_waiting_channel(), Some(1));
    games.start_new_random_game("p2".to_string(), 2, true, start_board(), &mut out);
    assert_eq!(games.games.len(), 1);
    assert!(games.waiting_room.is_empty());
    let g = &games.games[0];
    assert_eq!(g.white_player, Player::new(1, "p1".to_string()));
    assert_eq!(g.black_player, Player::new(2, "p2".to_string()));
    assert_eq!(g.board, start_board());
    let id = g.game_id;
    assert_eq!(
        out,
        vec![
            Delivery { channel: 1, event: GameEvent::GameStart { game_id: id, player_color: Color::White } },
            Delivery { channel: 2, event: GameEvent::GameStart { game_id: id, player_color: Color::Black } },
        ]
    );
}

#[test]
fn random_match_never_pairs_a_player_with_itself() {
    let mut games = Games::new();
    let mut out = Vec::new();
    games.start_new_random_game("p1".to_string(), 1, true, start_board(), &mut out);
    games.start_new_random_game("p1".to_string(), 5, true, start_board(), &mut out);
    assert!(games.games.is_empty());
    assert!(out.is_empty());
    assert_eq!(games.waiting_room, vec![Player::new(5, "p1".to_string())]);
}

#[test]
fn random_match_drops_unreachable_waiting_player() {
    let mut games = Games::new();
    let mut out = Vec::new();
    games.start_new_random_game("p1".to_string(), 1, true, start_board(), &mut out);
    games.start_new_random_game("p2".to_string(), 2, false, start_board(), &mut out);
    assert!(games.games.is_empty());
    assert!(out.is_empty());
    assert_eq!(games.waiting_room, vec![Player::new(2, "p2".to_string())]);
}

#[test]
fn pair_random_uses_given_free_id() {
    let mut games = Games::new();
    let mut out = Vec::new();
    games.pair_random("a".to_string(), 1, true, 7, start_board(), &mut out);
    games.pair_random("b".to_string(), 2, true, 7, start_board(), &mut out);
    assert_eq!(games.games[0].game_id, 7);
    assert_eq!(games.get_game_with_id(7), Ok(0));
    assert_eq!(games.get_game_with_id(8), Err(GameError::InvalidGameId(8)));
}

#[test]
fn fresh_id_avoids_ids_in_use() {
    let mut games = Games::new();
    let mut out = Vec::new();
    games.open_custom_game("a".to_string(), 1, 0, &mut out);
    games.open_custom_game("b".to_string(), 2, 1, &mut out);
    assert_eq!(games.fresh_game_id(9), 9);
    assert_eq!(games.fresh_game_id(1), 2);
    assert!(games.is_id_in_use(0));
    assert!(!games.is_id_in_use(2));
}

#[test]
fn custom_games_get_distinct_random_ids() {
    let mut games = Games::new();
    let mut out = Vec::new();
    let a = games.create_custom_game("a".to_string(), 1, &mut out);
    let b = games.create_custom_game("b".to_string(), 2, &mut out);
    assert_ne!(a, b);
    assert_eq!(
        out,
        vec![
            Delivery { channel: 1, event: GameEvent::CustomCreated { game_id: a } },
            Delivery { channel: 2, event: GameEvent::CustomCreated { game_id: b } },
        ]
    );
}

#[test]
fn custom_game_join_starts_match() {
    let mut games = Games::new();
    let mut out = Vec::new();
    let s = games.create_custom_game("p1".to_string(), 1, &mut out);
    assert_eq!(out, vec![Delivery { channel: 1, event: GameEvent::CustomCreated { game_id: s } }]);
    out.clear();
    assert_eq!(games.join_game(s, "p2".to_string(), 2, true, start_board(), &mut out), Ok(()));
    assert!(games.custom_games.is_empty());
    assert_eq!(games.games.len(), 1);
    assert_eq!(games.games[0].game_id, s);
    assert_eq!(games.games[0].white_player, Player::new(1, "p1".to_string()));
    assert_eq!(games.games[0].black_player, Player::new(2, "p2".to_string()));
    assert_eq!(
        out,
        vec![
            Delivery { channel: 1, event: GameEvent::GameStart { game_id: s, player_color: Color::White } },
            Delivery { channel: 2, event: GameEvent::GameStart { game_id: s, player_color: Color::Black } },
        ]
    );
}

#[test]
fn custom_game_creator_rejoining_keeps_waiting() {
    let mut games = Games::new();
    let mut out = Vec::new();
    let s = games.create_custom_game("p1".to_string(), 1, &mut out);
    out.clear();
    assert_eq!(games.join_game(s, "p1".to_string(), 4, true, start_board(), &mut out), Ok(()));
    assert!(games.games.is_empty());
    assert!(out.is_empty());
    assert_eq!(games.custom_games.len(), 1);
    assert_eq!(games.custom_games[0].creator, Player::new(4, "p1".to_string()));
}

#[test]
fn custom_game_with_gone_creator_lets_joiner_wait() {
    let mut games = Games::new();
    let mut out = Vec::new();
    let s = games.create_custom_game("p1".to_string(), 1, &mut out);
    out.clear();
    assert_eq!(games.join_game(s, "p2".to_string(), 2, false, start_board(), &mut out), Ok(()));
    assert!(games.games.is_empty());
    assert!(out.is_empty());
    assert_eq!(games.custom_games[0].game_id, s);
    assert_eq!(games.custom_games[0].creator, Player::new(2, "p2".to_string()));
}

#[test]
fn join_unknown_id_is_refused() {
    let (mut games, id) = started();
    let mut out = Vec::new();
    let unknown = id.wrapping_add(1);
    assert_eq!(
        games.join_game(unknown, "p1".to_string(), 3, true, start_board(), &mut out),
        Err(GameError::InvalidGameId(unknown))
    );
    assert!(out.is_empty());
}

#[test]
fn get_all_game_with_id_takes_invitation_out() {
    let mut games = Games::new();
    let mut out = Vec::new();
    let s = games.create_custom_game("p1".to_string(), 1, &mut out);
    match games.get_all_game_with_id(s) {
        Ok(hex_chess_app::registry::GameState::Waiting(p)) => {
            assert_eq!(p, Player::new(1, "p1".to_string()))
        }
        _ => panic!("expected the waiting creator"),
    }
    assert!(games.custom_games.is_empty());
    assert!(matches!(games.get_all_game_with_id(s), Err(GameError::InvalidGameId(x)) if x == s));
}

#[test]
fn one_sided_disconnect_keeps_match_and_warns_survivor() {
    let (mut games, id) = started();
    let mut out = Vec::new();
    games.remove_stale_games(&vec![report(id, false, true)], &mut out);
    assert_eq!(games.games.len(), 1);
    assert_eq!(out, vec![Delivery { channel: 2, event: GameEvent::OpponentDisconnected }]);
}

#[test]
fn rejoin_after_disconnect_resumes_play() {
    let (mut games, id) = started();
    let mut out = Vec::new();
    games.remove_stale_games(&vec![report(id, false, true)], &mut out);
    out.clear();
    assert_eq!(games.join_game(id, "p1".to_string(), 3, true, start_board(), &mut out), Ok(()));
    assert_eq!(
        out,
        vec![Delivery {
            channel: 3,
            event: GameEvent::RejoinedGame { game_id: id, player_color: Color::White, board: start_board() },
        }]
    );
    assert_eq!(games.games[0].white_player.channel, 3);
    out.clear();
    let after_white = board("w1", Color::Black);
    let r = games.play_move(
        id,
        &"p1".to_string(),
        v(0, 1),
        v(0, 2),
        None,
        EngineVerdict::Committed(after_white),
        &mut out,
    );
    assert_eq!(r, Ok(Ok(MoveOutcome::Committed)));
    assert_eq!(
        out,
        vec![Delivery {
            channel: 2,
            event: GameEvent::OpponentPlayedMove { from: v(0, 1), to: v(0, 2), promote_to: None },
        }]
    );
    out.clear();
    let r = games.play_move(
        id,
        &"p2".to_string(),
        v(0, -1),
        v(0, -2),
        None,
        EngineVerdict::Committed(board("b1", Color::White)),
        &mut out,
    );
    assert_eq!(r, Ok(Ok(MoveOutcome::Committed)));
    assert_eq!(out[0].channel, 3);
    assert_eq!(games.games[0].board, board("b1", Color::White));
}

#[test]
fn both_players_gone_evicts_match() {
    let (mut games, id) = started();
    let mut out = Vec::new();
    games.remove_stale_games(&vec![report(id, false, false)], &mut out);
    assert!(games.games.is_empty());
    assert!(out.is_empty());
}

#[test]
fn finished_game_is_evicted() {
    let (mut games, id) = started();
    let mut out = Vec::new();
    let end = BoardSnapshot { encoded: "mate".to_string(), turn: Color::Black, finished: true };
    let _ = games.play_move(id, &"p1".to_string(), v(1, 1), v(2, 2), None, EngineVerdict::Committed(end), &mut out);
    out.clear();
    games.remove_stale_games(&vec![report(id, true, false)], &mut out);
    assert!(games.games.is_empty());
    assert!(out.is_empty());
}

#[test]
fn sweep_ignores_reports_for_gone_matches() {
    let (mut games, id) = started();
    let mut out = Vec::new();
    games.remove_stale_games(&vec![report(id, false, false), report(id, true, true)], &mut out);
    assert!(games.games.is_empty());
    assert!(out.is_empty());
}

#[test]
fn staleness_check_twice_gives_same_verdict() {
    let (mut games, _) = started();
    let g = &mut games.games[0];
    let mut out = Vec::new();
    let first = g.is_stale(true, false, &vec![], &mut out);
    let second = g.is_stale(true, false, &vec![], &mut out);
    assert!(!first);
    assert_eq!(first, second);
    assert_eq!(
        out,
        vec![
            Delivery { channel: 1, event: GameEvent::OpponentDisconnected },
            Delivery { channel: 1, event: GameEvent::OpponentDisconnected },
        ]
    );
    let mut out = Vec::new();
    assert!(g.is_stale(false, false, &vec![], &mut out));
    assert!(g.is_stale(false, false, &vec![], &mut out));
    assert!(out.is_empty());
}

#[test]
fn non_participant_move_is_refused_without_change() {
    let (mut games, id) = started();
    let mut out = Vec::new();
    let r = games.play_move(
        id,
        &"p3".to_string(),
        v(0, 1),
        v(0, 2),
        None,
        EngineVerdict::Committed(board("x", Color::Black)),
        &mut out,
    );
    assert_eq!(r, Err(GameError::InvalidPlayerId { game_id: id }));
    assert_eq!(games.games[0].board, start_board());
    assert!(out.is_empty());
}

#[test]
fn move_out_of_turn_is_refused() {
    let (mut games, id) = started();
    let mut out = Vec::new();
    let r = games.play_move(
        id,
        &"p2".to_string(),
        v(0, -1),
        v(0, -2),
        None,
        EngineVerdict::Committed(board("x", Color::White)),
        &mut out,
    );
    assert_eq!(r, Ok(Err(IllegalMove::NotYourTurn)));
    assert_eq!(games.games[0].board, start_board());
    assert!(out.is_empty());
}

#[test]
fn engine_refusal_and_promotion_change_nothing() {
    let (mut games, id) = started();
    let mut out = Vec::new();
    let r = games.play_move(
        id,
        &"p1".to_string(),
        v(0, 1),
        v(3, 3),
        None,
        EngineVerdict::Illegal("blocked".to_string()),
        &mut out,
    );
    assert_eq!(r, Ok(Err(IllegalMove::Rejected("blocked".to_string()))));
    let r = games.play_move(
        id,
        &"p1".to_string(),
        v(0, 4),
        v(0, 5),
        None,
        EngineVerdict::PendingPromotion,
        &mut out,
    );
    assert_eq!(r, Ok(Ok(MoveOutcome::PendingPromotion)));
    assert_eq!(games.games[0].board, start_board());
    assert!(out.is_empty());
}

#[test]
fn move_in_unknown_match_is_refused() {
    let (mut games, id) = started();
    let mut out = Vec::new();
    let other = id ^ 1;
    let r = games.play_move(other, &"p1".to_string(), v(0, 1), v(0, 2), None, EngineVerdict::PendingPromotion, &mut out);
    assert_eq!(r, Err(GameError::InvalidGameId(other)));
}

#[test]
fn committed_move_reaches_opponent_then_spectators() {
    let mut out = Vec::new();
    let mut g = match Game::new(
        Player::new(1, "w".to_string()),
        Player::new(2, "b".to_string()),
        42,
        start_board(),
        true,
        true,
        &mut out,
    ) {
        Ok(g) => g,
        Err(_) => panic!("both players are reachable"),
    };
    g.add_spectator(Player::new(10, "s1".to_string()));
    g.add_spectator(Player::new(11, "s2".to_string()));
    assert_eq!(g.spectator_channels(), vec![10, 11]);
    out.clear();
    let promo = Some(PieceKind::Queen);
    let r = g.play_move(&"w".to_string(), v(1, 0), v(1, -1), promo, EngineVerdict::Committed(board("q", Color::Black)), &mut out);
    assert_eq!(r, Ok(Ok(MoveOutcome::Committed)));
    let ev = || GameEvent::OpponentPlayedMove { from: v(1, 0), to: v(1, -1), promote_to: promo };
    assert_eq!(
        out,
        vec![
            Delivery { channel: 2, event: ev() },
            Delivery { channel: 10, event: ev() },
            Delivery { channel: 11, event: ev() },
        ]
    );
}

#[test]
fn unreachable_spectators_are_pruned_and_never_evict() {
    let mut out = Vec::new();
    let mut g = match Game::new(
        Player::new(1, "w".to_string()),
        Player::new(2, "b".to_string()),
        42,
        start_board(),
        true,
        true,
        &mut out,
    ) {
        Ok(g) => g,
        Err(_) => panic!("both players are reachable"),
    };
    g.add_spectator(Player::new(10, "s1".to_string()));
    g.add_spectator(Player::new(11, "s2".to_string()));
    out.clear();
    assert!(!g.is_stale(true, true, &vec![10], &mut out));
    assert!(out.is_empty());
    assert_eq!(g.spectator_channels(), vec![11]);
}

#[test]
fn game_creation_hands_back_reachable_player() {
    let mut out = Vec::new();
    let r = Game::new(Player::new(1, "w".to_string()), Player::new(2, "b".to_string()), 1, start_board(), true, false, &mut out);
    assert!(matches!(r, Err(Some(p)) if p == Player::new(1, "w".to_string())));
    let r = Game::new(Player::new(1, "w".to_string()), Player::new(2, "b".to_string()), 1, start_board(), false, true, &mut out);
    assert!(matches!(r, Err(Some(p)) if p == Player::new(2, "b".to_string())));
    let r = Game::new(Player::new(1, "w".to_string()), Player::new(2, "b".to_string()), 1, start_board(), false, false, &mut out);
    assert!(matches!(r, Err(None)));
    assert!(out.is_empty());
}

#[test]
fn rejoin_by_stranger_is_refused() {
    let (mut games, id) = started();
    let mut out = Vec::new();
    assert_eq!(
        games.join_game(id, "p9".to_string(), 3, true, start_board(), &mut out),
        Err(GameError::InvalidPlayerId { game_id: id })
    );
    assert!(out.is_empty());
    assert_eq!(games.games[0].white_player.channel, 1);
}

#[test]
fn rejoin_carries_current_board() {
    let (mut games, id) = started();
    let mut out = Vec::new();
    let _ = games.play_move(id, &"p1".to_string(), v(0, 1), v(0, 2), None, EngineVerdict::Committed(board("w1", Color::Black)), &mut out);
    out.clear();
    assert_eq!(games.join_game(id, "p2".to_string(), 7, true, start_board(), &mut out), Ok(()));
    assert_eq!(
        out,
        vec![Delivery {
            channel: 7,
            event: GameEvent::RejoinedGame { game_id: id, player_color: Color::Black, board: board("w1", Color::Black) },
        }]
    );
    assert_eq!(games.games[0].black_player.channel, 7);
    assert_eq!(games.games[0].white_player.channel, 1);
}

#[test]
fn player_colors_and_turns() {
    let (games, id) = started();
    let g = &games.games[0];
    assert_eq!(g.get_player_color(&"p1".to_string()), Ok(Color::White));
    assert_eq!(g.get_player_color(&"p2".to_string()), Ok(Color::Black));
    assert_eq!(g.get_player_color(&"x".to_string()), Err(GameError::InvalidPlayerId { game_id: id }));
    assert_eq!(g.check_move(&"p1".to_string()), Ok(Ok(Color::White)));
    assert_eq!(g.check_move(&"p2".to_string()), Ok(Err(IllegalMove::NotYourTurn)));
    assert_eq!(Color::White.opponent(), Color::Black);
    assert!(g.white_player.has_id(&"p1".to_string()));
    assert!(!g.white_player.has_id(&"p2".to_string()));
}

#[test]
fn probe_targets_list_every_match() {
    let (games, id) = started();
    let t = games.probe_targets();
    assert_eq!(t.len(), 1);
    assert_eq!(t[0].game_id, id);
    assert_eq!((t[0].white, t[0].black), (1, 2));
    assert!(t[0].spectators.is_empty());
}
