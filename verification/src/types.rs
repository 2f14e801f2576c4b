//! Data model of one game session: board objects, turn payloads, session
//! state and the protocol's error taxonomy.
//!
//! Players are carried as plain numeric identifiers; the ledger-facing shell
//! around this library maps its own address type to them.

use vstd::prelude::*;

verus! {

/// Typed rejection returned by every protocol entry point.
#[derive(Copy, Clone, Debug, Eq, PartialEq, PartialOrd, Ord, Structural)]
pub enum Error {
    GameNotFound,
    NotPlayer,
    GameAlreadyStarted,
    GameAlreadyEnded,
    InvalidSeedReveal,
    SeedAlreadyRevealed,
    SeedsNotReady,
    NotActivePlayer,
    InvalidTurnData,
    InvalidMoveLength,
    InvalidNoPathFlag,
    InvalidScoreDelta,
    LootAlreadyCollected,
    LootOutOfBounds,
    StateHashMismatch,
    TimerExpired,
    InvalidStatus,
    ProofRequired,
}

/// A board cell, column `x` and row `y`.
#[derive(Copy, Clone, Debug, Eq, PartialEq, Structural)]
pub struct Position {
    pub x: u32,
    pub y: u32,
}

/// A camera hazard: detects every cell within Manhattan distance `radius`.
#[derive(Copy, Clone, Debug, Eq, PartialEq, Structural)]
pub struct Camera {
    pub x: u32,
    pub y: u32,
    pub radius: u32,
}

/// A laser hazard: an axis-aligned segment from (x1, y1) to (x2, y2).
#[derive(Copy, Clone, Debug, Eq, PartialEq, Structural)]
pub struct Laser {
    pub x1: u32,
    pub y1: u32,
    pub x2: u32,
    pub y2: u32,
}

/// Lifecycle of a session; transitions are one-directional.
#[derive(Copy, Clone, Debug, Eq, PartialEq, Structural)]
pub enum GameStatus {
    WaitingReveal,
    Active,
    Ended,
}

/// The public data of one submitted turn, bound to a proof blob.
#[derive(Clone, Debug)]
pub struct TurnPublic {
    pub session_id: u32,
    pub turn_index: u32,
    pub player: u64,
    pub start_pos: Position,
    pub end_pos: Position,
    pub rolled_value: u32,
    pub score_delta: i128,
    pub camera_hits: u32,
    pub laser_hits: u32,
    pub loot_collected_mask_delta: [u8; 18],
    pub no_path_flag: bool,
    pub state_hash_before: [u8; 32],
    pub state_hash_after: [u8; 32],
    pub path: Vec<Position>,
}

/// The full authoritative state of one session.
#[derive(Clone, Debug)]
pub struct Game {
    pub player1: u64,
    pub player2: u64,
    pub player1_points: i128,
    pub player2_points: i128,
    pub status: GameStatus,
    pub p1_seed_commit: [u8; 32],
    pub p2_seed_commit: [u8; 32],
    pub p1_seed_reveal: Option<[u8; 32]>,
    pub p2_seed_reveal: Option<[u8; 32]>,
    pub session_seed: Option<[u8; 32]>,
    pub started_at_ts: Option<u64>,
    pub deadline_ts: Option<u64>,
    pub turn_index: u32,
    pub active_player: u64,
    pub player1_pos: Position,
    pub player2_pos: Position,
    pub player1_score: i128,
    pub player2_score: i128,
    pub walls: [u8; 18],
    pub loot: [u8; 18],
    pub loot_collected: [u8; 18],
    pub fog_p1: [u8; 18],
    pub fog_p2: [u8; 18],
    pub cameras: Vec<Camera>,
    pub lasers: Vec<Laser>,
    pub winner: Option<u64>,
    pub last_proof_id: Option<[u8; 32]>,
}

/// The unrestricted view of a session, served to the administrator.
#[derive(Clone, Debug)]
pub struct GameView {
    pub player1: u64,
    pub player2: u64,
    pub status: GameStatus,
    pub started_at_ts: Option<u64>,
    pub deadline_ts: Option<u64>,
    pub turn_index: u32,
    pub active_player: u64,
    pub player1_pos: Position,
    pub player2_pos: Position,
    pub player1_score: i128,
    pub player2_score: i128,
    pub walls: [u8; 18],
    pub loot: [u8; 18],
    pub loot_collected: [u8; 18],
    pub cameras: Vec<Camera>,
    pub lasers: Vec<Laser>,
    pub winner: Option<u64>,
    pub last_proof_id: Option<[u8; 32]>,
}

/// A player's view of a session, restricted by that player's fog-of-war.
#[derive(Clone, Debug)]
pub struct PlayerGameView {
    pub player1: u64,
    pub player2: u64,
    pub status: GameStatus,
    pub started_at_ts: Option<u64>,
    pub deadline_ts: Option<u64>,
    pub turn_index: u32,
    pub active_player: u64,
    pub player1_pos: Position,
    pub player2_pos: Position,
    pub player1_score: i128,
    pub player2_score: i128,
    pub loot_collected: [u8; 18],
    pub visible_walls: [u8; 18],
    pub visible_loot: [u8; 18],
    pub visible_cameras: Vec<Camera>,
    pub visible_lasers: Vec<Laser>,
    pub my_fog: [u8; 18],
    pub winner: Option<u64>,
    pub last_proof_id: Option<[u8; 32]>,
}

/// Storage keys under which the ledger-facing shell files its records.
#[derive(Clone)]
pub enum DataKey {
    Game(u32),
    Admin,
    GameHubAddress,
    VerifierAddress,
}

impl Position {
    /// The position lies on the 12 x 12 board.
    pub open spec fn wf(self) -> bool {
        self.x < 12 && self.y < 12
    }
}

impl Camera {
    /// The camera stands on the board.
    pub open spec fn wf(self) -> bool {
        self.x < 12 && self.y < 12
    }
}

impl Laser {
    /// Both endpoints of the beam lie on the board.
    pub open spec fn wf(self) -> bool {
        self.x1 < 12 && self.y1 < 12 && self.x2 < 12 && self.y2 < 12
    }
}

impl Game {
    /// Structural soundness of a session record: two distinct registered
    /// players, an active-player pointer naming one of them, and both
    /// positions on the board.
    pub open spec fn wf(self) -> bool {
        &&& self.player1 != self.player2
        &&& (self.active_player == self.player1 || self.active_player == self.player2)
        &&& self.player1_pos.wf()
        &&& self.player2_pos.wf()
        &&& forall|i: int| 0 <= i < self.cameras@.len() ==> (#[trigger] self.cameras@[i]).wf()
        &&& forall|i: int| 0 <= i < self.lasers@.len() ==> (#[trigger] self.lasers@[i]).wf()
    }
}

} // verus!
