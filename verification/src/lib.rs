//! Core of a rollback-netcode synchronization engine for deterministic
//! lockstep simulations.
//!
//! The crate provides per-player input queues with frame delay, prediction
//! and confirmation bookkeeping ([`input_queue::InputQueue`]), a bounded ring
//! of saved simulation states ([`sync_layer::SavedStates`]), the sync layer
//! that owns both ([`sync_layer::SyncLayer`]), and a single-process sync-test
//! session ([`test_session::SyncTestSession`]) that rolls back and
//! re-simulates recent frames every step to check that the game simulation is
//! deterministic.

pub mod frame_info;
pub mod input_queue;
pub mod sync_layer;
pub mod test_session;

pub use frame_info::{GameInput, GameState};
pub use input_queue::InputQueue;
pub use sync_layer::{SavedStates, SyncLayer};
pub use test_session::{GGEZInterface, NetworkStats, Player, PlayerType, SyncTestSession};

use vstd::prelude::*;

verus! {

/// Frame counter. Frames are numbered 0, 1, 2, ... ; [`NULL_FRAME`] is a
/// reserved sentinel meaning "unset".
pub type FrameNumber = i32;

/// Index of a player inside a session, in `[0, num_players)`.
pub type PlayerHandle = usize;

/// Upper bound on how many frames the simulation may run ahead of the last
/// confirmed frame; also the capacity of the saved-state ring.
pub const MAX_PREDICTION_FRAMES: u32 = 8;

/// Largest per-player input delay the input queue accepts.
pub const MAX_INPUT_DELAY: u32 = 10;

/// Sentinel frame number meaning "unset".
pub const NULL_FRAME: FrameNumber = -1;

/// Everything that can go wrong inside a session, surfaced to the host.
#[derive(Debug)]
pub enum GGEZError {
    /// A precondition on session state or an argument range was violated.
    InvalidRequest,
    /// A player handle at or above `num_players` was passed.
    InvalidPlayerHandle,
    /// The session has not been started yet.
    NotSynchronized,
    /// Accepting the input would run more than [`MAX_PREDICTION_FRAMES`]
    /// ahead of the last confirmed frame.
    PredictionThreshold,
    /// A re-simulated checksum disagreed with the original one.
    SyncTestFailed,
    /// An internal invariant was violated; the message says which.
    GeneralFailure(String),
    /// The operation is meaningless for this session type.
    Unsupported,
}

/// Creates a [`SyncTestSession`] with the given rollback distance, player
/// count and input size.
pub fn start_synctest_session(check_distance: u32, num_players: u32, input_size: usize) -> (s:
    SyncTestSession)
    ensures
        s.inv(),
        test_session::is_fresh_session(
            s@,
            check_distance as int,
            num_players as int,
            input_size as int,
        ),
{
    SyncTestSession::new(check_distance, num_players, input_size)
}

} // verus!
