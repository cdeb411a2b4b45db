//! The play-phase state machine and the game facade.
//!
//! The engine is a pure state transition function: `update` advances one
//! frame, and its contract states the exact successor of every state, so
//! identical inputs from an identical initial state provably yield
//! identical runs.

use vstd::prelude::*;
use std::collections::VecDeque;
use crate::common::{FIRM_DROP, FallingPiece, Frames, GRAVITY_UNIT, GameConfig, GameData,
    GameDataModel, GameEvent, GameLogic, GameOverReason, GameStateId, Gravity, HARD_DROP, HOLD,
    Input, MOVE_LEFT, MOVE_RIGHT, PlayfieldModel, ROTATE_CCW, ROTATE_CW, SOFT_DROP, TSpin,
    lemma_can_put_coords};
use crate::grid::{GridModel, spec_num_filled, spec_overlaid_grid, spec_plucked_grid,
    spec_row_filled};
use crate::input_counter::InputManager;
use crate::tetro::Piece;

verus! {

/// Transient counters of the Play state: accumulated gravity, frames spent
/// grounded, and whether hold was already used for this piece.
#[derive(Debug, Copy, Clone, PartialEq, Eq, Structural)]
pub struct PlayState {
    pub gravity_counter: Gravity,
    pub lock_delay_counter: Frames,
    pub is_piece_held: bool,
}

impl PlayState {
    /// Fresh counters on entering Play.
    pub open spec fn spec_init() -> PlayState {
        PlayState { gravity_counter: 0, lock_delay_counter: 0, is_piece_held: false }
    }
}

impl Default for PlayState {
    /// Fresh counters on entering Play.
    fn default() -> (r: PlayState)
        ensures
            r == PlayState::spec_init(),
    {
        PlayState { gravity_counter: 0, lock_delay_counter: 0, is_piece_held: false }
    }
}

/// Current state of the engine, with its per-state counters.
#[derive(Debug, Clone, PartialEq)]
pub enum GameState {
    /// Dispatches to Play or SpawnPiece on the first frame.
    Init,
    /// Waiting out the entry delay, spawning on its first frame.
    SpawnPiece { frame_count: Frames },
    /// A piece is falling under player control.
    Play(PlayState),
    /// The piece is about to fuse into the stack.
    Lock,
    /// Waiting out the line-clear intermission.
    LineClear { frame_count: Frames },
    /// Terminal: the game was lost.
    GameOver { reason: GameOverReason },
    /// Terminal: an engine invariant was broken, with the reason.
    Error { reason: String },
}

/// Abstract value of a [`GameState`].
#[verifier::ext_equal]
pub ghost enum GameStateModel {
    Init,
    SpawnPiece { frame_count: Frames },
    Play(PlayState),
    Lock,
    LineClear { frame_count: Frames },
    GameOver { reason: GameOverReason },
    Error { reason: Seq<char> },
}

impl View for GameState {
    type V = GameStateModel;

    open spec fn view(&self) -> GameStateModel {
        match self {
            GameState::Init => GameStateModel::Init,
            GameState::SpawnPiece { frame_count } => GameStateModel::SpawnPiece {
                frame_count: *frame_count,
            },
            GameState::Play(ps) => GameStateModel::Play(*ps),
            GameState::Lock => GameStateModel::Lock,
            GameState::LineClear { frame_count } => GameStateModel::LineClear {
                frame_count: *frame_count,
            },
            GameState::GameOver { reason } => GameStateModel::GameOver { reason: *reason },
            GameState::Error { reason } => GameStateModel::Error { reason: reason@ },
        }
    }
}

/// The identity of a state.
pub open spec fn spec_state_id(s: GameStateModel) -> GameStateId {
    match s {
        GameStateModel::Init => GameStateId::Init,
        GameStateModel::SpawnPiece { .. } => GameStateId::SpawnPiece,
        GameStateModel::Play(..) => GameStateId::Play,
        GameStateModel::Lock => GameStateId::Lock,
        GameStateModel::LineClear { .. } => GameStateId::LineClear,
        GameStateModel::GameOver { .. } => GameStateId::GameOver,
        GameStateModel::Error { .. } => GameStateId::Error,
    }
}

/// Whether the state pumps the debouncer: only Play and SpawnPiece do, so
/// held keys neither decay nor repeat across intermissions.
pub open spec fn spec_pumps_input(s: GameStateModel) -> bool {
    s is Play || s is SpawnPiece
}

/// What one state's update returns: stay, hand over to a successor, or
/// fault with a reason.
pub type StepResult = Result<Option<GameStateModel>, Seq<char>>;

/// `d` with one more event.
pub open spec fn spec_push_event(d: GameDataModel, e: GameEvent) -> GameDataModel {
    GameDataModel { events: d.events.push(e), ..d }
}

/// One frame of the Init state: hand over to Play when a piece is already
/// falling, else to SpawnPiece.
pub open spec fn spec_init_update(d: GameDataModel) -> (GameDataModel, StepResult) {
    if d.falling_piece is Some {
        (d, Ok(Some(GameStateModel::Play(PlayState::spec_init()))))
    } else {
        (d, Ok(Some(GameStateModel::SpawnPiece { frame_count: 0 })))
    }
}

/// One frame of the Play state; `d`'s debouncer has already been pumped.
/// The order of duties is: hard drop, hold, ground handling or firm drop
/// or gravity accumulation, horizontal movement, rotation, gravity drop.
pub open spec fn spec_play_update<L: GameLogic>(
    logic: L,
    params: crate::common::GameParams,
    d: GameDataModel,
    ps: PlayState,
) -> (GameDataModel, PlayState, StepResult) {
    let fp = d.falling_piece->Some_0;
    let nd = fp.spec_droppable_rows(d.playfield);
    let (hard, m1) = InputManager::spec_handle(d.input_manager, HARD_DROP);
    if hard {
        let fp1 = FallingPiece { y: (fp.y - nd) as i32, ..fp };
        let d1 = GameDataModel { falling_piece: Some(fp1), input_manager: m1, ..d };
        (d1, ps, Ok(Some(GameStateModel::Lock)))
    } else {
        let (hold, m2) = if !ps.is_piece_held {
            InputManager::spec_handle(m1, HOLD)
        } else {
            (false, m1)
        };
        if hold {
            let ps1 = PlayState { is_piece_held: true, ..ps };
            if d.hold_piece is Some {
                let np = d.hold_piece->Some_0;
                let sfp = logic.spec_spawn_piece(np, d.playfield);
                let d1 = GameDataModel { input_manager: m2, ..d };
                if !sfp.spec_can_put(d.playfield) {
                    (d1, ps1, Ok(Some(GameStateModel::GameOver {
                        reason: GameOverReason::BlockOut,
                    })))
                } else {
                    let d2 = GameDataModel {
                        hold_piece: Some(fp.piece),
                        falling_piece: Some(sfp),
                        tspin: TSpin::NoSpin,
                        ..d1
                    };
                    (d2, PlayState { gravity_counter: 0, lock_delay_counter: 0, ..ps1 }, Ok(None))
                }
            } else if d.next_pieces.len() == 0 {
                let d1 = GameDataModel { input_manager: m2, ..d };
                (d1, ps1, Err("no next pieces"@))
            } else {
                let np = d.next_pieces[0];
                let sfp = logic.spec_spawn_piece(np, d.playfield);
                let d1 = GameDataModel {
                    input_manager: m2,
                    next_pieces: d.next_pieces.drop_first(),
                    ..d
                };
                if !sfp.spec_can_put(d.playfield) {
                    (d1, ps1, Ok(Some(GameStateModel::GameOver {
                        reason: GameOverReason::BlockOut,
                    })))
                } else {
                    let d2 = GameDataModel {
                        hold_piece: Some(fp.piece),
                        falling_piece: Some(sfp),
                        tspin: TSpin::NoSpin,
                        ..d1
                    };
                    (d2, PlayState { gravity_counter: 0, lock_delay_counter: 0, ..ps1 }, Ok(None))
                }
            }
        } else {
            spec_play_grounded(logic, params, d, ps, m2, fp, nd)
        }
    }
}

/// Ground handling, firm drop or gravity accumulation of a Play frame,
/// followed by movement, rotation and the gravity drop.
pub open spec fn spec_play_grounded<L: GameLogic>(
    logic: L,
    params: crate::common::GameParams,
    d: GameDataModel,
    ps: PlayState,
    m: InputManager,
    fp: FallingPiece,
    nd: int,
) -> (GameDataModel, PlayState, StepResult) {
    if nd == 0 {
        let ps1 = PlayState {
            gravity_counter: 0,
            lock_delay_counter: (ps.lock_delay_counter + 1) as u64,
            ..ps
        };
        let over = ps1.lock_delay_counter > params.lock_delay;
        let try_cancel = !over && params.lock_delay_cancel && !(m.spec_slot(SOFT_DROP)
            matches Some(c) && c.spec_is_repeating());
        let (soft, m1) = if try_cancel {
            InputManager::spec_handle(m, SOFT_DROP)
        } else {
            (false, m)
        };
        if over || soft {
            let d1 = GameDataModel { input_manager: m1, ..d };
            (d1, ps1, Ok(Some(GameStateModel::Lock)))
        } else {
            spec_play_move(logic, params, GameDataModel { input_manager: m1, ..d }, ps1, fp)
        }
    } else {
        let (firm, m1) = InputManager::spec_handle(m, FIRM_DROP);
        if firm {
            let fp1 = FallingPiece { y: (fp.y - nd) as i32, ..fp };
            let d1 = GameDataModel {
                falling_piece: Some(fp1),
                input_manager: m1,
                tspin: TSpin::NoSpin,
                ..d
            };
            (d1, PlayState { gravity_counter: 0, lock_delay_counter: 0, ..ps }, Ok(None))
        } else {
            let g1 = (ps.gravity_counter + params.gravity) as u64;
            let (soft, m2) = InputManager::spec_handle(m1, SOFT_DROP);
            let g2 = if soft {
                (g1 + params.soft_drop_gravity) as u64
            } else {
                g1
            };
            let ps1 = PlayState { gravity_counter: g2, ..ps };
            spec_play_move(logic, params, GameDataModel { input_manager: m2, ..d }, ps1, fp)
        }
    }
}

/// Horizontal movement, rotation and the gravity drop of a Play frame.
pub open spec fn spec_play_move<L: GameLogic>(
    logic: L,
    params: crate::common::GameParams,
    d: GameDataModel,
    ps: PlayState,
    fp: FallingPiece,
) -> (GameDataModel, PlayState, StepResult) {
    let (left, ma) = InputManager::spec_handle(d.input_manager, MOVE_LEFT);
    let (right, mb) = if left {
        (false, ma)
    } else {
        InputManager::spec_handle(ma, MOVE_RIGHT)
    };
    let dx: int = if left {
        -1
    } else if right {
        1
    } else {
        0
    };
    let tried = FallingPiece { x: (fp.x + dx) as i32, ..fp };
    let (moved0, ts0) = if dx != 0 && tried.spec_can_put(d.playfield) {
        (tried, TSpin::NoSpin)
    } else {
        (fp, d.tspin)
    };
    let (cw, mc) = InputManager::spec_handle(mb, ROTATE_CW);
    let (ccw, md) = if cw {
        (false, mc)
    } else {
        InputManager::spec_handle(mc, ROTATE_CCW)
    };
    let (moved1, ts1) = if cw || ccw {
        match logic.spec_rotate(cw, moved0, d.playfield) {
            Some(r) => (r.0, r.1),
            None => (moved0, ts0),
        }
    } else {
        (moved0, ts0)
    };
    let nd2 = moved1.spec_droppable_rows(d.playfield);
    let (moved2, ts2, ps1) = if nd2 == 0 {
        (moved1, ts1, PlayState { gravity_counter: 0, ..ps })
    } else if ps.gravity_counter >= GRAVITY_UNIT {
        let quota = ps.gravity_counter / GRAVITY_UNIT;
        let fall = if nd2 < quota {
            nd2
        } else {
            quota as int
        };
        (
            FallingPiece { y: (moved1.y - fall) as i32, ..moved1 },
            TSpin::NoSpin,
            PlayState { gravity_counter: 0, lock_delay_counter: 0, ..ps },
        )
    } else {
        (moved1, ts1, ps)
    };
    let d1 = GameDataModel { falling_piece: Some(moved2), input_manager: md, tspin: ts2, ..d };
    (d1, ps1, Ok(None))
}

/// One frame of the Lock state: a firing top-out predicate ends the game;
/// otherwise the piece fuses into the playfield, a filled visible row
/// starts the line-clear intermission, and a pending T-Spin Mini without
/// lines is announced as `LineCleared(0, Mini)` on the way to the next
/// spawn.
pub open spec fn spec_lock_update(
    params: crate::common::GameParams,
    d: GameDataModel,
) -> (GameDataModel, StepResult) {
    let fp = d.falling_piece->Some_0;
    let cond = params.top_out_condition.spec_check(fp, d.playfield);
    if !cond.spec_is_empty() {
        (d, Ok(Some(GameStateModel::GameOver {
            reason: cond.spec_game_over_reason()->Some_0,
        })))
    } else {
        let g2 = spec_overlaid_grid(d.playfield.grid, fp.x as int, fp.y as int, fp.spec_mask());
        let d1 = GameDataModel {
            playfield: PlayfieldModel { grid: g2, ..d.playfield },
            ..d
        };
        if exists|y: int| 0 <= y < d.playfield.visible_rows && spec_row_filled(g2, y) {
            (d1, Ok(Some(GameStateModel::LineClear { frame_count: 0 })))
        } else if d.tspin == TSpin::Mini {
            (
                spec_push_event(d1, GameEvent::LineCleared(0, TSpin::Mini)),
                Ok(Some(GameStateModel::SpawnPiece { frame_count: 0 })),
            )
        } else {
            (d1, Ok(Some(GameStateModel::SpawnPiece { frame_count: 0 })))
        }
    }
}

/// One frame of the LineClear state: the first frame plucks the filled
/// rows and announces the count with the pending T-Spin tag (faulting if
/// nothing was cleared); the state then holds for the configured delay
/// before the next spawn.
pub open spec fn spec_line_clear_update(
    params: crate::common::GameParams,
    d: GameDataModel,
    fc: Frames,
) -> (GameDataModel, Frames, StepResult) {
    let (d1, fault) = if fc == 0 {
        let n = spec_num_filled(d.playfield.grid);
        let g2 = spec_plucked_grid(d.playfield.grid, crate::common::Cell::Empty);
        let da = GameDataModel {
            playfield: PlayfieldModel { grid: g2, ..d.playfield },
            ..d
        };
        let db = spec_push_event(da, GameEvent::LineCleared(n as usize, d.tspin));
        if n == 0 {
            (db, true)
        } else {
            (db, false)
        }
    } else {
        (d, false)
    };
    if fault {
        (d1, fc, Err("FATAL: no lines cleared"@))
    } else {
        let fc1 = (fc + 1) as u64;
        if fc1 <= params.line_clear_delay {
            (d1, fc1, Ok(None))
        } else {
            (d1, fc1, Ok(Some(GameStateModel::SpawnPiece { frame_count: 0 })))
        }
    }
}

/// One frame of the SpawnPiece state: the first frame pops the queue
/// (faulting when it is empty) and places the new piece, ending the game
/// when it does not fit; the state then holds for the entry delay before
/// play resumes.
pub open spec fn spec_spawn_update<L: GameLogic>(
    logic: L,
    params: crate::common::GameParams,
    d: GameDataModel,
    fc: Frames,
) -> (GameDataModel, Frames, StepResult) {
    if fc == 0 && d.next_pieces.len() == 0 {
        (d, fc, Err("no next piece found"@))
    } else {
        let d1 = if fc == 0 {
            GameDataModel {
                falling_piece: Some(logic.spec_spawn_piece(d.next_pieces[0], d.playfield)),
                next_pieces: d.next_pieces.drop_first(),
                ..d
            }
        } else {
            d
        };
        if fc == 0 && !(d1.falling_piece->Some_0).spec_can_put(d.playfield) {
            (d1, fc, Ok(Some(GameStateModel::GameOver { reason: GameOverReason::LockOut })))
        } else {
            let fc1 = (fc + 1) as u64;
            if fc1 <= params.are {
                (d1, fc1, Ok(None))
            } else {
                (d1, fc1, Ok(Some(GameStateModel::Play(PlayState::spec_init()))))
            }
        }
    }
}

/// One frame of whichever state is current.
pub open spec fn spec_state_update<L: GameLogic>(
    logic: L,
    params: crate::common::GameParams,
    d: GameDataModel,
    s: GameStateModel,
) -> (GameDataModel, GameStateModel, StepResult) {
    match s {
        GameStateModel::Init => {
            let (d1, r) = spec_init_update(d);
            (d1, s, r)
        },
        GameStateModel::Play(ps) => {
            let (d1, ps1, r) = spec_play_update(logic, params, d, ps);
            (d1, GameStateModel::Play(ps1), r)
        },
        GameStateModel::Lock => {
            let (d1, r) = spec_lock_update(params, d);
            (d1, s, r)
        },
        GameStateModel::LineClear { frame_count } => {
            let (d1, fc1, r) = spec_line_clear_update(params, d, frame_count);
            (d1, GameStateModel::LineClear { frame_count: fc1 }, r)
        },
        GameStateModel::SpawnPiece { frame_count } => {
            let (d1, fc1, r) = spec_spawn_update(logic, params, d, frame_count);
            (d1, GameStateModel::SpawnPiece { frame_count: fc1 }, r)
        },
        GameStateModel::GameOver { .. } => (d, s, Ok(None)),
        GameStateModel::Error { .. } => (d, s, Ok(None)),
    }
}

/// Entering Play or Lock demands a falling piece.
pub open spec fn spec_enter_fault(d: GameDataModel, next: GameStateModel) -> bool {
    (next is Play || next is Lock) && d.falling_piece is None
}

/// Apply a state update's result: stay, or transition (announcing the new
/// state and running its entry check), or fault into the Error state.
pub open spec fn spec_apply_result(
    d: GameDataModel,
    cur: GameStateModel,
    r: StepResult,
) -> (GameDataModel, GameStateModel) {
    match r {
        Ok(opt) => {
            if opt is Some {
                let next = opt->0;
                let d1 = spec_push_event(d, GameEvent::EnterState(spec_state_id(next)));
                if spec_enter_fault(d1, next) {
                    (
                        spec_push_event(d1, GameEvent::EnterState(GameStateId::Error)),
                        GameStateModel::Error { reason: "falling_piece should not be none"@ },
                    )
                } else {
                    (d1, next)
                }
            } else {
                (d, cur)
            }
        },
        Err(reason) => {
            (
                spec_push_event(d, GameEvent::EnterState(GameStateId::Error)),
                GameStateModel::Error { reason },
            )
        },
    }
}

/// Abstract value of a [`Game`]: its configuration, runtime data, frame
/// counter and current state.
#[verifier::ext_equal]
pub ghost struct GameModel<L> {
    pub logic: L,
    pub params: crate::common::GameParams,
    pub data: GameDataModel,
    pub frame_num: Frames,
    pub state: GameStateModel,
}

impl<L: GameLogic> GameModel<L> {
    /// The engine's invariant: parameters and data are well-formed, the
    /// playfield is wide enough to spawn any piece, per-state counters
    /// stay below their limits, and in Play and Lock the falling piece is
    /// present and fits the playfield without overlap.
    pub open spec fn wf(self) -> bool {
        &&& self.params.wf()
        &&& self.data.wf()
        &&& self.data.playfield.grid.cols >= 5
        &&& (self.state is Init ==> (self.data.falling_piece matches Some(fp)
            ==> fp.spec_can_put(self.data.playfield)))
        &&& (self.state matches GameStateModel::Play(ps) ==> {
            &&& self.data.falling_piece is Some
            &&& (self.data.falling_piece->Some_0).spec_can_put(self.data.playfield)
            &&& ps.lock_delay_counter <= self.params.lock_delay
            &&& ps.gravity_counter < GRAVITY_UNIT
        })
        &&& (self.state is Lock ==> self.data.falling_piece is Some && (
        self.data.falling_piece->Some_0).spec_can_put(self.data.playfield))
        &&& (self.state matches GameStateModel::SpawnPiece { frame_count } ==> {
            &&& frame_count <= self.params.are
            &&& (frame_count >= 1 ==> self.data.falling_piece is Some && (
            self.data.falling_piece->Some_0).spec_can_put(self.data.playfield))
        })
        &&& (self.state matches GameStateModel::LineClear { frame_count } ==> frame_count
            <= self.params.line_clear_delay)
    }
}

/// One full frame of the engine: flush the event buffer, count the frame,
/// pump the debouncer in the states that take input, run the current
/// state, and apply the resulting transition.
pub open spec fn spec_game_update<L: GameLogic>(g: GameModel<L>, input: Input) -> GameModel<L> {
    let d0 = GameDataModel { events: seq![GameEvent::Update(input)], ..g.data };
    let d1 = if spec_pumps_input(g.state) {
        GameDataModel { input_manager: InputManager::spec_update(d0.input_manager, input), ..d0 }
    } else {
        d0
    };
    let (d2, s2, r) = spec_state_update(g.logic, g.params, d1, g.state);
    let (d3, s3) = spec_apply_result(d2, s2, r);
    GameModel { data: d3, frame_num: (g.frame_num + 1) as u64, state: s3, ..g }
}

/// Law: determinism.  One frame is a function of the previous state and
/// the input alone, so two runs fed identical inputs from identical
/// initial states stay identical, state and event stream alike.
pub proof fn lemma_update_deterministic<L: GameLogic>(
    g1: GameModel<L>,
    g2: GameModel<L>,
    input: Input,
)
    requires
        g1 == g2,
    ensures
        spec_game_update(g1, input) == spec_game_update(g2, input),
{
}

/// Law: T-Spin monotonicity.  Within one Play frame that stays in Play:
/// if the piece ends displaced but in its original rotation state — a
/// successful horizontal move, firm drop or gravity descent, with no
/// effective rotation — the T-Spin tag is cleared; and a cleared tag stays
/// cleared until a rotation takes effect (which always changes the
/// rotation state).
#[verifier::rlimit(100)]
pub proof fn lemma_tspin_monotonic(
    logic: crate::tetro::WorldRuleLogic,
    params: crate::common::GameParams,
    d: GameDataModel,
    ps: PlayState,
)
    requires
        d.falling_piece is Some,
    ensures
        ({
            let (d2, ps2, r2) = spec_play_update(logic, params, d, ps);
            let fp0 = d.falling_piece->Some_0;
            &&& (r2 == Ok::<Option<GameStateModel>, Seq<char>>(None) && d2.falling_piece is Some
                && (d2.falling_piece->Some_0).rotation == fp0.rotation && ((
            d2.falling_piece->Some_0).x != fp0.x || (d2.falling_piece->Some_0).y != fp0.y)
                ==> d2.tspin == TSpin::NoSpin)
            &&& (r2 == Ok::<Option<GameStateModel>, Seq<char>>(None) && d.tspin == TSpin::NoSpin
                && d2.falling_piece is Some && (d2.falling_piece->Some_0).rotation == fp0.rotation
                ==> d2.tspin == TSpin::NoSpin)
        }),
{
    let fp0 = d.falling_piece->Some_0;
    crate::common::lemma_rotation_quarter_turns(fp0.rotation);
}

/// Law: piece non-overlap.  At every frame boundary of Play (and of Lock,
/// where the piece is about to fuse), the falling piece is present and
/// fits the playfield: no block outside the grid, none on a non-empty
/// cell.
pub proof fn lemma_play_non_overlap<L: GameLogic>(g: GameModel<L>)
    requires
        g.wf(),
        g.state is Play || g.state is Lock,
    ensures
        g.data.falling_piece is Some,
        (g.data.falling_piece->Some_0).spec_can_put(g.data.playfield),
{
}

/// Wraps a game's state, configuration and frame counter, and advances
/// the simulation one frame per `update` call.
#[derive(Debug, Clone, PartialEq)]
pub struct Game<L> {
    config: GameConfig<L>,
    data: GameData,
    frame_num: Frames,
    state: GameState,
}

impl<L: GameLogic> View for Game<L> {
    type V = GameModel<L>;

    closed spec fn view(&self) -> GameModel<L> {
        GameModel {
            logic: self.config.logic,
            params: self.config.params,
            data: self.data@,
            frame_num: self.frame_num,
            state: self.state@,
        }
    }
}

impl<L: GameLogic> Game<L> {
    /// Start a game in the Init state at frame zero.
    pub fn new(config: GameConfig<L>, data: GameData) -> (g: Game<L>)
        requires
            config.params.wf(),
            data@.wf(),
            data@.playfield.grid.cols >= 5,
            data@.falling_piece matches Some(fp) ==> fp.spec_can_put(data@.playfield),
        ensures
            g@ == (GameModel {
                logic: config.logic,
                params: config.params,
                data: data@,
                frame_num: 0,
                state: GameStateModel::Init,
            }),
            g@.wf(),
    {
        Game { config, data, frame_num: 0, state: GameState::Init }
    }

    /// The game's configuration.
    pub fn config(&self) -> (r: &GameConfig<L>)
        ensures
            r.logic == self@.logic,
            r.params == self@.params,
    {
        &self.config
    }

    /// The game's runtime data.
    pub fn data(&self) -> (r: &GameData)
        ensures
            r@ == self@.data,
    {
        &self.data
    }

    /// How many frames have been processed.
    pub fn frame_num(&self) -> (r: Frames)
        ensures
            r == self@.frame_num,
    {
        self.frame_num
    }

    /// The identity of the current state.
    pub fn state_id(&self) -> (r: GameStateId)
        ensures
            r == spec_state_id(self@.state),
    {
        match &self.state {
            GameState::Init => GameStateId::Init,
            GameState::SpawnPiece { .. } => GameStateId::SpawnPiece,
            GameState::Play(..) => GameStateId::Play,
            GameState::Lock => GameStateId::Lock,
            GameState::LineClear { .. } => GameStateId::LineClear,
            GameState::GameOver { .. } => GameStateId::GameOver,
            GameState::Error { .. } => GameStateId::Error,
        }
    }

    /// Move `pieces` to the end of the upcoming-piece queue.
    pub fn append_next_pieces(&mut self, pieces: &mut VecDeque<Piece>)
        ensures
            final(self)@ == (GameModel {
                data: GameDataModel {
                    next_pieces: old(self)@.data.next_pieces + old(pieces)@,
                    ..old(self)@.data
                },
                ..old(self)@
            }),
            final(pieces)@ == Seq::<Piece>::empty(),
    {
        self.data.next_pieces.append(pieces);
        proof {
            assert(self@ =~= GameModel {
                data: GameDataModel {
                    next_pieces: old(self)@.data.next_pieces + old(pieces)@,
                    ..old(self)@.data
                },
                ..old(self)@
            });
        }
    }

    /// Replace the upcoming-piece queue.
    pub fn set_next_pieces(&mut self, pieces: VecDeque<Piece>)
        ensures
            final(self)@ == (GameModel {
                data: GameDataModel { next_pieces: pieces@, ..old(self)@.data },
                ..old(self)@
            }),
    {
        self.data.next_pieces = pieces;
        proof {
            assert(self@ =~= GameModel {
                data: GameDataModel { next_pieces: pieces@, ..old(self)@.data },
                ..old(self)@
            });
        }
    }
}

/// The model of an exec state-update result.
pub open spec fn spec_result_model(r: Result<Option<GameState>, String>) -> StepResult {
    match r {
        Ok(o) => {
            if o is Some {
                Ok(Some(o->0@))
            } else {
                Ok(None)
            }
        },
        Err(e) => Err(e@),
    }
}

impl<L: GameLogic> Game<L> {
    /// One frame of the Play state, on the game's data and the state's
    /// counters.
    #[verifier::rlimit(100)]
    fn update_play(data: &mut GameData, config: &GameConfig<L>, ps: &mut PlayState) -> (r: Result<
        Option<GameState>,
        String,
    >)
        requires
            old(data)@.wf(),
            config.params.wf(),
            old(data)@.playfield.grid.cols >= 5,
            old(data)@.falling_piece is Some,
            (old(data)@.falling_piece->Some_0).spec_can_put(old(data)@.playfield),
            old(ps).lock_delay_counter <= config.params.lock_delay,
            old(ps).gravity_counter < GRAVITY_UNIT,
        ensures
            ({
                let (d2, ps2, r2) = spec_play_update(
                    config.logic,
                    config.params,
                    old(data)@,
                    *old(ps),
                );
                &&& final(data)@ == d2
                &&& *final(ps) == ps2
                &&& spec_result_model(r) == r2
            }),
            final(data)@.wf(),
            final(data)@.playfield == old(data)@.playfield,
            spec_result_model(r) matches Ok(Some(s)) ==> s is Lock || s is GameOver,
            spec_result_model(r) == Ok::<Option<GameStateModel>, Seq<char>>(None) ==> {
                &&& final(data)@.falling_piece is Some
                &&& (final(data)@.falling_piece->Some_0).spec_can_put(final(data)@.playfield)
                &&& final(ps).lock_delay_counter <= config.params.lock_delay
                &&& final(ps).gravity_counter < GRAVITY_UNIT
            },
            spec_result_model(r) matches Ok(Some(s)) ==> (s is Lock ==> {
                &&& final(data)@.falling_piece is Some
                &&& (final(data)@.falling_piece->Some_0).spec_can_put(final(data)@.playfield)
            }),
    {
        let ghost d0 = old(data)@;
        let ghost ps0 = *old(ps);
        let fp = data.falling_piece.unwrap();
        proof {
            lemma_can_put_coords(fp, data@.playfield);
        }
        let nd = fp.droppable_rows(&data.playfield);
        proof {
            assert((nd as int) * 0 == 0 && (nd as int) * (-1) == -(nd as int))
                by (nonlinear_arith);
        }
        if data.input_manager.handle(HARD_DROP) {
            let fp1 = FallingPiece { y: fp.y - nd as i32, ..fp };
            data.falling_piece = Some(fp1);
            proof {
                assert(crate::grid::spec_can_overlay_at_step(
                    d0.playfield.grid,
                    fp.x as int,
                    fp.y as int,
                    fp.spec_mask(),
                    0,
                    -1,
                    nd as int,
                ));
                assert(fp1.spec_can_put(d0.playfield));
                lemma_can_put_coords(fp1, d0.playfield);
                let (d2, ps2, r2) = spec_play_update(config.logic, config.params, d0, ps0);
                assert(data@ =~= d2);
            }
            return Ok(Some(GameState::Lock));
        }
        let hold = if !ps.is_piece_held {
            data.input_manager.handle(HOLD)
        } else {
            false
        };
        if hold {
            ps.is_piece_held = true;
            let np: Piece = match data.hold_piece {
                Some(p) => p,
                None => {
                    if data.next_pieces.len() == 0 {
                        proof {
                            let (d2, ps2, r2) = spec_play_update(
                                config.logic,
                                config.params,
                                d0,
                                ps0,
                            );
                            assert(data@ =~= d2);
                        }
                        return Err("no next pieces".to_owned());
                    }
                    data.next_pieces.pop_front().unwrap()
                },
            };
            let sfp = config.logic.spawn_piece(np, &data.playfield);
            if !sfp.can_put_onto(&data.playfield) {
                proof {
                    let (d2, ps2, r2) = spec_play_update(config.logic, config.params, d0, ps0);
                    assert(data@ =~= d2);
                }
                return Ok(Some(GameState::GameOver { reason: GameOverReason::BlockOut }));
            }
            data.hold_piece = Some(fp.piece);
            data.falling_piece = Some(sfp);
            data.tspin = TSpin::NoSpin;
            ps.gravity_counter = 0;
            ps.lock_delay_counter = 0;
            proof {
                lemma_can_put_coords(sfp, d0.playfield);
                let (d2, ps2, r2) = spec_play_update(config.logic, config.params, d0, ps0);
                assert(data@ =~= d2);
            }
            return Ok(None);
        }
        if nd == 0 {
            ps.gravity_counter = 0;
            ps.lock_delay_counter = ps.lock_delay_counter + 1;
            let over = ps.lock_delay_counter > config.params.lock_delay;
            let mut should_lock = over;
            if !over && config.params.lock_delay_cancel && !data.input_manager.is_repeating(
                SOFT_DROP,
            ) {
                if data.input_manager.handle(SOFT_DROP) {
                    should_lock = true;
                }
            }
            if should_lock {
                proof {
                    let (d2, ps2, r2) = spec_play_update(config.logic, config.params, d0, ps0);
                    assert(data@ =~= d2);
                }
                return Ok(Some(GameState::Lock));
            }
        } else if data.input_manager.handle(FIRM_DROP) {
            let fp1 = FallingPiece { y: fp.y - nd as i32, ..fp };
            data.falling_piece = Some(fp1);
            data.tspin = TSpin::NoSpin;
            ps.gravity_counter = 0;
            ps.lock_delay_counter = 0;
            proof {
                assert(crate::grid::spec_can_overlay_at_step(
                    d0.playfield.grid,
                    fp.x as int,
                    fp.y as int,
                    fp.spec_mask(),
                    0,
                    -1,
                    nd as int,
                ));
                assert(fp1.spec_can_put(d0.playfield));
                lemma_can_put_coords(fp1, d0.playfield);
                let (d2, ps2, r2) = spec_play_update(config.logic, config.params, d0, ps0);
                assert(data@ =~= d2);
            }
            return Ok(None);
        } else {
            ps.gravity_counter = ps.gravity_counter + config.params.gravity;
            if data.input_manager.handle(SOFT_DROP) {
                ps.gravity_counter = ps.gravity_counter + config.params.soft_drop_gravity;
            }
        }
        let ghost dcall = data@;
        let ghost pscall = *ps;
        let r = Self::update_play_move(data, config, ps, fp);
        proof {
            assert(dcall =~= (GameDataModel { input_manager: dcall.input_manager, ..d0 }));
            let (d2, ps2, r2) = spec_play_update(config.logic, config.params, d0, ps0);
            assert(data@ =~= d2);
            assert(*ps == ps2);
        }
        r
    }

    /// The tail of a Play frame: horizontal movement, rotation, and the
    /// gravity drop, on the piece `fp` the frame started with.
    #[verifier::rlimit(100)]
    fn update_play_move(data: &mut GameData, config: &GameConfig<L>, ps: &mut PlayState, fp: FallingPiece) -> (r: Result<
        Option<GameState>,
        String,
    >)
        requires
            old(data)@.wf(),
            config.params.wf(),
            fp.spec_can_put(old(data)@.playfield),
            old(ps).lock_delay_counter <= config.params.lock_delay,
        ensures
            ({
                let (d2, ps2, r2) = spec_play_move(
                    config.logic,
                    config.params,
                    old(data)@,
                    *old(ps),
                    fp,
                );
                &&& final(data)@ == d2
                &&& *final(ps) == ps2
                &&& spec_result_model(r) == r2
            }),
            final(data)@.wf(),
            final(data)@.playfield == old(data)@.playfield,
            spec_result_model(r) == Ok::<Option<GameStateModel>, Seq<char>>(None),
            final(data)@.falling_piece is Some,
            (final(data)@.falling_piece->Some_0).spec_can_put(final(data)@.playfield),
            final(ps).lock_delay_counter <= config.params.lock_delay,
            final(ps).gravity_counter < GRAVITY_UNIT,
    {
        let ghost d0 = old(data)@;
        let ghost ps0 = *old(ps);
        proof {
            lemma_can_put_coords(fp, d0.playfield);
        }
        let mut moved = fp;
        let left = data.input_manager.handle(MOVE_LEFT);
        let right = if left {
            false
        } else {
            data.input_manager.handle(MOVE_RIGHT)
        };
        let dx: i32 = if left {
            -1
        } else if right {
            1
        } else {
            0
        };
        if dx != 0 {
            let t = FallingPiece { x: moved.x + dx, ..moved };
            if t.can_put_onto(&data.playfield) {
                moved = t;
                data.tspin = TSpin::NoSpin;
            }
        }
        proof {
            if moved != fp {
                lemma_can_put_coords(moved, d0.playfield);
            }
        }
        let cw = data.input_manager.handle(ROTATE_CW);
        let ccw = if cw {
            false
        } else {
            data.input_manager.handle(ROTATE_CCW)
        };
        if cw || ccw {
            if let Some(rr) = config.logic.rotate(cw, &moved, &data.playfield) {
                moved = rr.0;
                data.tspin = rr.1;
                proof {
                    lemma_can_put_coords(moved, d0.playfield);
                }
            }
        }
        let nd2 = moved.droppable_rows(&data.playfield);
        proof {
            assert((nd2 as int) * 0 == 0 && (nd2 as int) * (-1) == -(nd2 as int))
                by (nonlinear_arith);
        }
        if nd2 == 0 {
            ps.gravity_counter = 0;
        } else if ps.gravity_counter >= GRAVITY_UNIT {
            let quota = ps.gravity_counter / GRAVITY_UNIT;
            let fall: u64 = if (nd2 as u64) < quota {
                nd2 as u64
            } else {
                quota
            };
            proof {
                assert((fall as int) * 0 == 0 && (fall as int) * (-1) == -(fall as int))
                    by (nonlinear_arith);
                assert(moved.spec_can_put(d0.playfield));
                assert(crate::grid::spec_can_overlay_at_step(
                    d0.playfield.grid,
                    moved.x as int,
                    moved.y as int,
                    moved.spec_mask(),
                    0,
                    -1,
                    fall as int,
                ));
            }
            moved = FallingPiece { y: moved.y - fall as i32, ..moved };
            data.tspin = TSpin::NoSpin;
            ps.gravity_counter = 0;
            ps.lock_delay_counter = 0;
            proof {
                assert(moved.spec_can_put(d0.playfield));
                lemma_can_put_coords(moved, d0.playfield);
            }
        }
        data.falling_piece = Some(moved);
        proof {
            let (d2, ps2, r2) = spec_play_move(config.logic, config.params, d0, ps0, fp);
            assert(data@ =~= d2);
        }
        Ok(None)
    }

    /// One frame of the Lock state: top-out check, fuse the piece, and
    /// decide between line clearing and the next spawn.
    #[verifier::rlimit(100)]
    #[verifier::loop_isolation(false)]
    fn update_lock(data: &mut GameData, config: &GameConfig<L>) -> (r: Result<
        Option<GameState>,
        String,
    >)
        requires
            old(data)@.wf(),
            config.params.wf(),
            old(data)@.falling_piece is Some,
            (old(data)@.falling_piece->Some_0).spec_can_put(old(data)@.playfield),
        ensures
            ({
                let (d2, r2) = spec_lock_update(config.params, old(data)@);
                &&& final(data)@ == d2
                &&& spec_result_model(r) == r2
            }),
            final(data)@.wf(),
            final(data)@.playfield.grid.cols == old(data)@.playfield.grid.cols,
            spec_result_model(r) matches Ok(Some(s)) ==> ((s matches GameStateModel::LineClear {
                frame_count,
            } && frame_count == 0) || (s matches GameStateModel::SpawnPiece { frame_count }
                && frame_count == 0) || s is GameOver),
            spec_result_model(r) is Ok ==> spec_result_model(r)->Ok_0 is Some,
            spec_result_model(r) is Err ==> false,
    {
        let ghost d0 = old(data)@;
        let fp = data.falling_piece.unwrap();
        proof {
            lemma_can_put_coords(fp, data@.playfield);
        }
        let cond = config.params.top_out_condition.check(&fp, &data.playfield);
        if !cond.is_empty() {
            let reason = cond.game_over_reason().unwrap();
            proof {
                let (d2, r2) = spec_lock_update(config.params, d0);
                assert(data@ =~= d2);
            }
            return Ok(Some(GameState::GameOver { reason }));
        }
        let flags = fp.put_onto(&mut data.playfield);
        proof {
            // the Play invariant makes the write total: no flag can be set
            assert(flags.spec_is_empty());
            crate::grid::lemma_overlaid_grid_eq(
                d0.playfield.grid,
                data@.playfield.grid,
                fp.x as int,
                fp.y as int,
                fp.spec_mask(),
            );
        }
        let ghost dmid = data@;
        let visible = data.playfield.visible_rows;
        for y in 0..visible
            invariant
                data@ == dmid,
                dmid.playfield.wf(),
                visible == dmid.playfield.visible_rows,
                forall|yy: int| 0 <= yy < y ==> !spec_row_filled(dmid.playfield.grid, yy),
        {
            if data.playfield.grid.is_row_filled(y) {
                proof {
                    let (d2, r2) = spec_lock_update(config.params, d0);
                    let g2 = spec_overlaid_grid(
                        d0.playfield.grid,
                        fp.x as int,
                        fp.y as int,
                        fp.spec_mask(),
                    );
                    assert(dmid.playfield.grid == g2);
                    assert(spec_row_filled(g2, y as int));
                    assert(data@ =~= d2);
                }
                return Ok(Some(GameState::LineClear { frame_count: 0 }));
            }
        }
        if data.tspin == TSpin::Mini {
            data.events.push(GameEvent::LineCleared(0, TSpin::Mini));
        }
        proof {
            let (d2, r2) = spec_lock_update(config.params, d0);
            let g2 = spec_overlaid_grid(
                d0.playfield.grid,
                fp.x as int,
                fp.y as int,
                fp.spec_mask(),
            );
            assert(dmid.playfield.grid == g2);
            assert forall|yy: int| 0 <= yy < d0.playfield.visible_rows implies !spec_row_filled(
                g2,
                yy,
            ) by {
                assert(!spec_row_filled(dmid.playfield.grid, yy));
            }
            assert(data@ =~= d2);
        }
        Ok(Some(GameState::SpawnPiece { frame_count: 0 }))
    }

    /// One frame of the LineClear state: pluck on the first frame, then
    /// wait out the configured delay.
    #[verifier::rlimit(100)]
    fn update_line_clear(data: &mut GameData, config: &GameConfig<L>, fc: &mut Frames) -> (r:
        Result<Option<GameState>, String>)
        requires
            old(data)@.wf(),
            config.params.wf(),
            *old(fc) <= config.params.line_clear_delay,
        ensures
            ({
                let (d2, fc2, r2) = spec_line_clear_update(config.params, old(data)@, *old(fc));
                &&& final(data)@ == d2
                &&& *final(fc) == fc2
                &&& spec_result_model(r) == r2
            }),
            final(data)@.wf(),
            final(data)@.playfield.grid.cols == old(data)@.playfield.grid.cols,
            final(data)@.falling_piece == old(data)@.falling_piece,
            spec_result_model(r) matches Ok(Some(s)) ==> (s matches GameStateModel::SpawnPiece {
                frame_count,
            } && frame_count == 0),
            spec_result_model(r) == Ok::<Option<GameStateModel>, Seq<char>>(None) ==> *final(fc)
                <= config.params.line_clear_delay,
    {
        let ghost d0 = old(data)@;
        if *fc == 0 {
            let n = data.playfield.grid.pluck_filled_rows(Some(crate::common::Cell::Empty));
            proof {
                crate::grid::lemma_plucked_grid_eq(
                    d0.playfield.grid,
                    data@.playfield.grid,
                    crate::common::Cell::Empty,
                );
            }
            data.events.push(GameEvent::LineCleared(n, data.tspin));
            if n == 0 {
                proof {
                    let (d2, fc2, r2) = spec_line_clear_update(config.params, d0, *old(fc));
                    assert(data@ =~= d2);
                }
                return Err("FATAL: no lines cleared".to_owned());
            }
        }
        *fc = *fc + 1;
        proof {
            let (d2, fc2, r2) = spec_line_clear_update(config.params, d0, *old(fc));
            assert(data@ =~= d2);
        }
        if *fc <= config.params.line_clear_delay {
            return Ok(None);
        }
        Ok(Some(GameState::SpawnPiece { frame_count: 0 }))
    }

    /// One frame of the SpawnPiece state: pop and place a piece on the
    /// first frame, then wait out the entry delay.
    #[verifier::rlimit(100)]
    fn update_spawn(data: &mut GameData, config: &GameConfig<L>, fc: &mut Frames) -> (r: Result<
        Option<GameState>,
        String,
    >)
        requires
            old(data)@.wf(),
            config.params.wf(),
            old(data)@.playfield.grid.cols >= 5,
            *old(fc) <= config.params.are,
            *old(fc) >= 1 ==> old(data)@.falling_piece is Some && (
            old(data)@.falling_piece->Some_0).spec_can_put(old(data)@.playfield),
        ensures
            ({
                let (d2, fc2, r2) = spec_spawn_update(
                    config.logic,
                    config.params,
                    old(data)@,
                    *old(fc),
                );
                &&& final(data)@ == d2
                &&& *final(fc) == fc2
                &&& spec_result_model(r) == r2
            }),
            final(data)@.wf(),
            final(data)@.playfield == old(data)@.playfield,
            spec_result_model(r) matches Ok(Some(s)) ==> (s is GameOver || (s matches
                GameStateModel::Play(ps) && ps == PlayState::spec_init()
                && final(data)@.falling_piece is Some && (
            final(data)@.falling_piece->Some_0).spec_can_put(final(data)@.playfield))),
            spec_result_model(r) == Ok::<Option<GameStateModel>, Seq<char>>(None) ==> {
                &&& *final(fc) <= config.params.are
                &&& (*final(fc) >= 1 ==> final(data)@.falling_piece is Some && (
                final(data)@.falling_piece->Some_0).spec_can_put(final(data)@.playfield))
            },
    {
        let ghost d0 = old(data)@;
        if *fc == 0 {
            let next = data.next_pieces.pop_front();
            match next {
                Some(p) => {
                    let fp = config.logic.spawn_piece(p, &data.playfield);
                    data.falling_piece = Some(fp);
                    proof {
                        let (d2, fc2, r2) = spec_spawn_update(
                            config.logic,
                            config.params,
                            d0,
                            *old(fc),
                        );
                        assert(data@ =~= d2);
                    }
                    if !fp.can_put_onto(&data.playfield) {
                        return Ok(Some(GameState::GameOver {
                            reason: GameOverReason::LockOut,
                        }));
                    }
                },
                None => {
                    proof {
                        let (d2, fc2, r2) = spec_spawn_update(
                            config.logic,
                            config.params,
                            d0,
                            *old(fc),
                        );
                        assert(data@ =~= d2);
                    }
                    return Err("no next piece found".to_owned());
                },
            }
        }
        *fc = *fc + 1;
        if *fc <= config.params.are {
            return Ok(None);
        }
        Ok(Some(GameState::Play(PlayState::default())))
    }

    /// Apply a state update's result: install the successor, announce it,
    /// run its entry check, and fall into the Error state on a fault.
    fn handle_result(&mut self, r: Result<Option<GameState>, String>)
        ensures
            ({
                let (d3, s3) = spec_apply_result(
                    old(self)@.data,
                    old(self)@.state,
                    spec_result_model(r),
                );
                final(self)@ == (GameModel { data: d3, state: s3, ..old(self)@ })
            }),
    {
        let ghost m0 = old(self)@;
        match r {
            Ok(opt) => {
                if let Some(next) = opt {
                    self.state = next;
                    let id = self.state_id();
                    self.data.events.push(GameEvent::EnterState(id));
                    let fault = match &self.state {
                        GameState::Play(..) | GameState::Lock => self.data.falling_piece.is_none(),
                        _ => false,
                    };
                    if fault {
                        self.state = GameState::Error {
                            reason: "falling_piece should not be none".to_owned(),
                        };
                        self.data.events.push(GameEvent::EnterState(GameStateId::Error));
                        proof {
                            let (d3, s3) = spec_apply_result(
                                m0.data,
                                m0.state,
                                spec_result_model(r),
                            );
                            assert(self@.data =~= d3);
                            assert(self@.state =~= s3);
                            assert(self@ =~= (GameModel { data: d3, state: s3, ..m0 }));
                        }
                    } else {
                        proof {
                            let (d3, s3) = spec_apply_result(
                                m0.data,
                                m0.state,
                                spec_result_model(r),
                            );
                            assert(self@.data =~= d3);
                            assert(self@ =~= (GameModel { data: d3, state: s3, ..m0 }));
                        }
                    }
                } else {
                    proof {
                        let (d3, s3) = spec_apply_result(m0.data, m0.state, spec_result_model(r));
                        assert(self@ =~= (GameModel { data: d3, state: s3, ..m0 }));
                    }
                }
            },
            Err(reason) => {
                self.state = GameState::Error { reason };
                self.data.events.push(GameEvent::EnterState(GameStateId::Error));
                proof {
                    let (d3, s3) = spec_apply_result(m0.data, m0.state, spec_result_model(r));
                    assert(self@.data =~= d3);
                    assert(self@.state =~= s3);
                    assert(self@ =~= (GameModel { data: d3, state: s3, ..m0 }));
                }
            },
        }
    }

    /// Advance the simulation one frame with the raw input bitmask: flush
    /// the event stream, count the frame, pump the debouncer if the
    /// current state takes input, run the state, and apply its result.
    #[verifier::rlimit(100)]
    pub fn update(&mut self, input: Input)
        requires
            old(self)@.wf(),
            old(self)@.frame_num < u64::MAX,
        ensures
            final(self)@ == spec_game_update(old(self)@, input),
            final(self)@.wf(),
    {
        let ghost m0 = old(self)@;
        self.data.events.clear();
        self.data.events.push(GameEvent::Update(input));
        self.frame_num = self.frame_num + 1;
        let pumps = match &self.state {
            GameState::Play(..) | GameState::SpawnPiece { .. } => true,
            _ => false,
        };
        if pumps {
            self.data.input_manager.update(input);
        }
        proof {
            let d0 = GameDataModel { events: seq![GameEvent::Update(input)], ..m0.data };
            let d1 = if spec_pumps_input(m0.state) {
                GameDataModel {
                    input_manager: InputManager::spec_update(d0.input_manager, input),
                    ..d0
                }
            } else {
                d0
            };
            assert(self.data@ =~= d1);
        }
        let ghost d1 = self.data@;
        let r: Result<Option<GameState>, String> = match &self.state {
            GameState::Init => {
                if self.data.falling_piece.is_some() {
                    Ok(Some(GameState::Play(PlayState::default())))
                } else {
                    Ok(Some(GameState::SpawnPiece { frame_count: 0 }))
                }
            },
            GameState::Play(ps0) => {
                let mut ps = *ps0;
                let r = Self::update_play(&mut self.data, &self.config, &mut ps);
                self.state = GameState::Play(ps);
                r
            },
            GameState::Lock => Self::update_lock(&mut self.data, &self.config),
            GameState::LineClear { frame_count } => {
                let mut fc = *frame_count;
                let r = Self::update_line_clear(&mut self.data, &self.config, &mut fc);
                self.state = GameState::LineClear { frame_count: fc };
                r
            },
            GameState::SpawnPiece { frame_count } => {
                let mut fc = *frame_count;
                let r = Self::update_spawn(&mut self.data, &self.config, &mut fc);
                self.state = GameState::SpawnPiece { frame_count: fc };
                r
            },
            GameState::GameOver { .. } => Ok(None),
            GameState::Error { .. } => Ok(None),
        };
        proof {
            let (d2, s2, r2) = spec_state_update(m0.logic, m0.params, d1, m0.state);
            assert(self.data@ =~= d2);
            assert(self.state@ =~= s2);
            assert(spec_result_model(r) == r2);
        }
        self.handle_result(r);
        proof {
            let d0v = GameDataModel { events: seq![GameEvent::Update(input)], ..m0.data };
            let d1b = if spec_pumps_input(m0.state) {
                GameDataModel {
                    input_manager: InputManager::spec_update(d0v.input_manager, input),
                    ..d0v
                }
            } else {
                d0v
            };
            let (d2, s2, r2) = spec_state_update(m0.logic, m0.params, d1b, m0.state);
            let (d3, s3) = spec_apply_result(d2, s2, r2);
            assert(self@ =~= spec_game_update(m0, input));
            assert(d1b == d1);
            assert(d1b.wf());
            assert(d2.wf() && d2.playfield.grid.cols >= 5) by {
                if m0.state is Init || m0.state is GameOver || m0.state is Error {
                    assert(d2 == d1b);
                }
            }
            assert(d3.playfield == d2.playfield && d3.falling_piece == d2.falling_piece
                && d3.input_manager == d2.input_manager && d3.hold_piece == d2.hold_piece
                && d3.next_pieces == d2.next_pieces);
            assert(d3.wf());
            assert(self@.params == m0.params && self@.data == d3 && self@.state == s3);
            // the state-specific invariant clauses, per transition
            match r2 {
                Ok(o) => {
                    if o is Some {
                        let next = o->0;
                        if spec_enter_fault(
                            spec_push_event(d2, GameEvent::EnterState(spec_state_id(next))),
                            next,
                        ) {
                            assert(s3 is Error);
                        } else {
                            assert(s3 == next);
                            if next is Play {
                                if m0.state is Init {
                                    assert(d2 == d1b);
                                } else {
                                    assert(m0.state is SpawnPiece);
                                }
                            }
                            if next is Lock {
                                assert(m0.state is Play);
                            }
                        }
                    } else {
                        assert(s3 == s2);
                        if m0.state is GameOver || m0.state is Error {
                            assert(d2 == d1b);
                        }
                    }
                },
                Err(e) => {
                    assert(s3 is Error);
                },
            }
            assert(self@.wf());
        }
    }
}

} // verus!
