use std::collections::VecDeque;

use mino_core::common::{
    Cell, FallingPiece, GameConfig, GameData, GameLogic, GameParams, GameStateId, GameEvent,
    HARD_DROP, HOLD, MOVE_LEFT, MOVE_RIGHT, Playfield, ROTATE_CCW, ROTATE_CW, Rotation, TSpin,
    create_input_manager_for_automation,
};
use mino_core::game::Game;
use mino_core::grid::Grid;
use mino_core::tetro::{Piece, WorldRuleLogic};

fn empty_playfield() -> Playfield {
    Playfield { visible_rows: 20, grid: Grid::new(10, 40, vec![]) }
}

fn automation_params() -> GameParams {
    GameParams {
        gravity: 0,
        are: 0,
        line_clear_delay: 0,
        lock_delay: 1_000_000,
        ..GameParams::default()
    }
}

fn new_game(
    playfield: Playfield,
    falling_piece: Option<FallingPiece>,
    queue: Vec<Piece>,
    params: GameParams,
) -> Game<WorldRuleLogic> {
    let mut data = GameData::new(
        playfield,
        falling_piece,
        None,
        VecDeque::from(queue),
        &params,
    );
    data.input_manager = create_input_manager_for_automation();
    Game::new(GameConfig { logic: WorldRuleLogic {}, params }, data)
}

#[test]
fn hard_drop_lands_and_respawns() {
    // an empty default field with a single T: wait out the entry delay,
    // hard drop, and the T rests centered on the floor with no line
    // cleared
    let params = GameParams::default();
    let data = GameData::new(empty_playfield(), None, None, VecDeque::from(vec![Piece::T]), &params);
    let mut game = Game::new(GameConfig { logic: WorldRuleLogic {}, params }, data);
    game.update(0); // Init -> SpawnPiece
    assert_eq!(game.state_id(), GameStateId::SpawnPiece);
    for _ in 0..41 {
        game.update(0); // spawn frame plus the 40 ARE frames
    }
    assert_eq!(game.state_id(), GameStateId::Play);
    let fp = game.data().falling_piece.unwrap();
    assert_eq!((fp.piece, fp.x, fp.y, fp.rotation), (Piece::T, 3, 18, Rotation::Cw0));
    game.update(HARD_DROP);
    assert_eq!(game.state_id(), GameStateId::Lock);
    game.update(0);
    assert_eq!(game.state_id(), GameStateId::SpawnPiece);
    // the T fused at the bottom, centered
    let g = &game.data().playfield.grid;
    assert_eq!(g.cell(3, 0), Cell::Block(Piece::T));
    assert_eq!(g.cell(4, 0), Cell::Block(Piece::T));
    assert_eq!(g.cell(5, 0), Cell::Block(Piece::T));
    assert_eq!(g.cell(4, 1), Cell::Block(Piece::T));
    // no line was cleared, so no LineCleared event was emitted
    for e in game.data().events.iter() {
        assert!(!matches!(e, GameEvent::LineCleared(..)));
    }
}

#[test]
fn vertical_i_clears_one_line() {
    // row 0 filled except one hole; a counter-clockwise I dropped into the
    // hole clears exactly that row
    let mut pf = empty_playfield();
    for x in 0..10 {
        if x != 4 {
            pf.grid.set_cell(x, 0, Cell::Garbage);
        }
    }
    let mut game = new_game(pf, None, vec![Piece::I], automation_params());
    game.update(0); // Init -> SpawnPiece
    game.update(0); // spawn I, ARE of zero hands straight to Play
    assert_eq!(game.state_id(), GameStateId::Play);
    game.update(ROTATE_CCW); // vertical bar over column 4
    let fp = game.data().falling_piece.unwrap();
    assert_eq!(fp.rotation, Rotation::Cw270);
    assert_eq!(fp.x + 2, 4);
    game.update(HARD_DROP);
    assert_eq!(game.state_id(), GameStateId::Lock);
    game.update(0); // lock -> line clear
    assert_eq!(game.state_id(), GameStateId::LineClear);
    game.update(0); // pluck and announce
    assert!(game
        .data()
        .events
        .contains(&GameEvent::LineCleared(1, TSpin::NoSpin)));
    // row 0 holds what row 1 held: the rest of the bar
    assert_eq!(game.data().playfield.grid.cell(0, 0), Cell::Empty);
    assert_eq!(game.data().playfield.grid.cell(4, 0), Cell::Block(Piece::I));
}

#[test]
fn tspin_double_recognized() {
    // a T slotted by a clockwise rotation into a matching notch: the tag
    // reads Normal, and the following drop clears two lines as a T-Spin
    let mut pf = empty_playfield();
    for x in 0..10 {
        if x != 3 {
            pf.grid.set_cell(x, 0, Cell::Garbage);
        }
        if x != 2 && x != 3 && x != 4 {
            pf.grid.set_cell(x, 1, Cell::Garbage);
        }
    }
    pf.grid.set_cell(2, 2, Cell::Garbage);
    let start = FallingPiece { piece: Piece::T, x: 2, y: 0, rotation: Rotation::Cw90 };
    let mut game = new_game(pf, Some(start), vec![Piece::O], automation_params());
    game.update(0); // Init -> Play (a piece is already falling)
    assert_eq!(game.state_id(), GameStateId::Play);
    game.update(ROTATE_CW);
    let fp = game.data().falling_piece.unwrap();
    assert_eq!((fp.x, fp.y, fp.rotation), (2, 0, Rotation::Cw180));
    assert_eq!(game.data().tspin, TSpin::Normal);
    game.update(HARD_DROP); // already grounded; keeps the tag
    assert_eq!(game.state_id(), GameStateId::Lock);
    game.update(0); // lock -> line clear
    game.update(0); // pluck and announce
    assert!(game
        .data()
        .events
        .contains(&GameEvent::LineCleared(2, TSpin::Normal)));
}

#[test]
fn lock_delay_times_out() {
    // a grounded piece under zero gravity stays mobile for lock_delay
    // frames and locks on the frame after
    let params = GameParams { gravity: 0, ..GameParams::default() };
    let start = FallingPiece { piece: Piece::T, x: 3, y: -1, rotation: Rotation::Cw0 };
    let data = GameData::new(empty_playfield(), Some(start), None, VecDeque::new(), &params);
    let mut game = Game::new(GameConfig { logic: WorldRuleLogic {}, params }, data);
    game.update(0); // Init -> Play
    assert_eq!(game.state_id(), GameStateId::Play);
    for _ in 0..60 {
        game.update(0);
    }
    assert_eq!(game.state_id(), GameStateId::Play);
    game.update(0); // the 61st grounded frame exceeds the delay
    assert_eq!(game.state_id(), GameStateId::Lock);
}

#[test]
fn hold_swaps_once_per_piece() {
    // holding swaps the falling piece into the empty hold slot and spawns
    // the next; a second hold in the same piece's lifetime is ignored
    let mut game = new_game(empty_playfield(), None, vec![Piece::I, Piece::O], automation_params());
    game.update(0); // Init -> SpawnPiece
    game.update(0); // spawn I -> Play
    assert_eq!(game.data().falling_piece.unwrap().piece, Piece::I);
    game.update(HOLD);
    assert_eq!(game.data().hold_piece, Some(Piece::I));
    assert_eq!(game.data().falling_piece.unwrap().piece, Piece::O);
    let before = game.data().falling_piece.unwrap();
    game.update(HOLD); // ignored: already held in this lifetime
    assert_eq!(game.data().hold_piece, Some(Piece::I));
    assert_eq!(game.data().falling_piece.unwrap().piece, Piece::O);
    assert_eq!(game.data().falling_piece.unwrap(), before);
}

#[test]
fn determinism_identical_runs() {
    // two runs from the same initial state fed the same inputs stay
    // identical, data and event streams alike
    let inputs = [0, 0, ROTATE_CW, MOVE_LEFT, 0, HARD_DROP, 0, 0, HOLD, 0, MOVE_LEFT, 0];
    let mut g1 = new_game(empty_playfield(), None, vec![Piece::T, Piece::L, Piece::S], automation_params());
    let mut g2 = new_game(empty_playfield(), None, vec![Piece::T, Piece::L, Piece::S], automation_params());
    for i in inputs.iter() {
        g1.update(*i);
        g2.update(*i);
        assert_eq!(g1, g2);
        assert_eq!(g1.data().events, g2.data().events);
    }
}

#[test]
fn play_piece_never_overlaps() {
    // at every frame boundary of Play the falling piece fits the field
    let inputs = [
        0, 0, MOVE_LEFT, MOVE_LEFT, ROTATE_CW, 0, ROTATE_CCW, HARD_DROP, 0, 0, 0, MOVE_LEFT, 0,
        ROTATE_CW, HARD_DROP, 0, 0,
    ];
    let mut game = new_game(
        empty_playfield(),
        None,
        vec![Piece::S, Piece::Z, Piece::J, Piece::L],
        automation_params(),
    );
    for i in inputs.iter() {
        game.update(*i);
        if game.state_id() == GameStateId::Play {
            let fp = game.data().falling_piece.unwrap();
            assert!(fp.can_put_onto(&game.data().playfield));
        }
    }
}

#[test]
fn rotation_reverses_in_open_space() {
    // in open field, a clockwise quarter turn followed by a
    // counter-clockwise one restores position and rotation state
    let logic = WorldRuleLogic {};
    let pf = empty_playfield();
    for piece in Piece::slice() {
        let fp = FallingPiece { piece, x: 3, y: 10, rotation: Rotation::Cw0 };
        let (r1, _) = logic.rotate(true, &fp, &pf).unwrap();
        let (r2, _) = logic.rotate(false, &r1, &pf).unwrap();
        assert_eq!(r2, fp);
    }
}

#[test]
fn tspin_tag_cleared_by_moves() {
    // a successful rotation sets the tag; a later successful move clears
    // it again before anything locks
    let mut pf = empty_playfield();
    pf.grid.set_cell(3, 0, Cell::Garbage);
    pf.grid.set_cell(3, 2, Cell::Garbage);
    pf.grid.set_cell(5, 2, Cell::Garbage);
    let start = FallingPiece { piece: Piece::T, x: 3, y: 0, rotation: Rotation::Cw90 };
    let mut game = new_game(pf, Some(start), vec![Piece::O], automation_params());
    game.update(0); // Init -> Play
    game.update(ROTATE_CW);
    let fp = game.data().falling_piece.unwrap();
    assert_eq!((fp.x, fp.y, fp.rotation), (3, 0, Rotation::Cw180));
    assert_eq!(game.data().tspin, TSpin::Normal);
    game.update(MOVE_RIGHT);
    let fp = game.data().falling_piece.unwrap();
    assert_eq!((fp.x, fp.y), (4, 0));
    assert_eq!(game.data().tspin, TSpin::NoSpin);
}

#[test]
fn empty_queue_faults() {
    // spawning with nothing queued is an engine fault: the game goes inert
    // in the Error state
    let mut game = new_game(empty_playfield(), None, vec![], automation_params());
    game.update(0); // Init -> SpawnPiece
    game.update(0); // no next piece: fault
    assert_eq!(game.state_id(), GameStateId::Error);
    let snapshot = game.data().clone();
    game.update(HARD_DROP);
    assert_eq!(game.state_id(), GameStateId::Error);
    assert_eq!(game.data().playfield, snapshot.playfield);
}

#[test]
fn blocked_spawn_tops_out() {
    // a spawn that cannot be placed ends the game
    let mut pf = empty_playfield();
    for x in 0..10 {
        for y in 17..22 {
            pf.grid.set_cell(x, y, Cell::Garbage);
        }
    }
    let mut game = new_game(pf, None, vec![Piece::T], automation_params());
    game.update(0); // Init -> SpawnPiece
    game.update(0); // the spawned piece overlaps the stack
    assert_eq!(game.state_id(), GameStateId::GameOver);
}

#[test]
fn lock_out_above_visible_rows() {
    // a piece that locks entirely above the visible region tops the game
    // out with the default condition
    let mut pf = empty_playfield();
    for x in 0..10 {
        for y in 0..20 {
            if x != 0 {
                pf.grid.set_cell(x, y, Cell::Garbage);
            }
        }
    }
    let start = FallingPiece { piece: Piece::O, x: 3, y: 19, rotation: Rotation::Cw0 };
    let mut game = new_game(pf, Some(start), vec![Piece::T], automation_params());
    game.update(0); // Init -> Play
    game.update(HARD_DROP); // cannot descend: locks at rows 20 and 21
    assert_eq!(game.state_id(), GameStateId::Lock);
    game.update(0);
    assert_eq!(game.state_id(), GameStateId::GameOver);
}

#[test]
fn mini_zero_announced_from_lock() {
    // a pending T-Spin Mini that clears nothing is still announced as
    // LineCleared(0, Mini) on the way from Lock to the next spawn
    let mut pf = empty_playfield();
    // the kicked T ends on the floor: two of its box corners and the cell
    // behind its point lie below the grid, one corner holds garbage
    pf.grid.set_cell(3, 1, Cell::Garbage);
    pf.grid.set_cell(6, 1, Cell::Garbage);
    let start = FallingPiece { piece: Piece::T, x: 4, y: 0, rotation: Rotation::Cw270 };
    let mut game = new_game(pf, Some(start), vec![Piece::O], automation_params());
    game.update(0); // Init -> Play
    game.update(ROTATE_CW);
    let fp = game.data().falling_piece.unwrap();
    assert_eq!((fp.x, fp.y, fp.rotation), (3, -1, Rotation::Cw0));
    assert_eq!(game.data().tspin, TSpin::Mini);
    game.update(HARD_DROP);
    game.update(0); // lock: no filled row, Mini pending
    assert!(game
        .data()
        .events
        .contains(&GameEvent::LineCleared(0, TSpin::Mini)));
    assert_eq!(game.state_id(), GameStateId::SpawnPiece);
}

#[test]
fn gravity_accumulates() {
    // half a cell per frame of gravity drops the piece one row on every
    // second frame
    let params = GameParams { gravity: 30, are: 0, line_clear_delay: 0, ..GameParams::default() };
    let start = FallingPiece { piece: Piece::T, x: 3, y: 10, rotation: Rotation::Cw0 };
    let data = GameData::new(empty_playfield(), Some(start), None, VecDeque::new(), &params);
    let mut game = Game::new(GameConfig { logic: WorldRuleLogic {}, params }, data);
    game.update(0); // Init -> Play
    game.update(0); // 30 sixtieths accumulated: no drop yet
    assert_eq!(game.data().falling_piece.unwrap().y, 10);
    game.update(0); // 60 sixtieths: one full cell
    assert_eq!(game.data().falling_piece.unwrap().y, 9);
    game.update(0);
    assert_eq!(game.data().falling_piece.unwrap().y, 9);
    game.update(0);
    assert_eq!(game.data().falling_piece.unwrap().y, 8);
}

#[test]
fn soft_drop_adds_gravity() {
    // with soft-drop gravity of one cell per frame, a held soft drop sinks
    // the piece one row per frame even without base gravity
    let mut game = new_game(
        empty_playfield(),
        Some(FallingPiece { piece: Piece::T, x: 3, y: 10, rotation: Rotation::Cw0 }),
        vec![],
        automation_params(),
    );
    game.update(0); // Init -> Play
    game.update(mino_core::common::SOFT_DROP);
    assert_eq!(game.data().falling_piece.unwrap().y, 9);
}

#[test]
fn queue_mutators() {
    // append adds to the back of the queue, set replaces it
    let mut game = new_game(empty_playfield(), None, vec![Piece::I], automation_params());
    let mut more = VecDeque::from(vec![Piece::J, Piece::L]);
    game.append_next_pieces(&mut more);
    assert!(more.is_empty());
    assert_eq!(
        game.data().next_pieces,
        VecDeque::from(vec![Piece::I, Piece::J, Piece::L])
    );
    game.set_next_pieces(VecDeque::from(vec![Piece::S]));
    assert_eq!(game.data().next_pieces, VecDeque::from(vec![Piece::S]));
}
