//! The sync-test session: a single-process harness that drives the sync
//! layer through a save / advance / rollback / re-simulate loop every frame
//! and compares checksums to detect a non-deterministic game simulation.

use vstd::prelude::*;

use crate::frame_info::{zero_bits, GameInput, GameState, InputModel, StateModel};
use crate::sync_layer::{l_inv, same_but_queues, LayerModel, SyncLayer};
use crate::FrameNumber;
use crate::GGEZError;
use crate::PlayerHandle;
use crate::MAX_INPUT_DELAY;
use crate::MAX_PREDICTION_FRAMES;
use crate::NULL_FRAME;
use crate::sync_layer::prediction_threshold_reached;
use vstd::arithmetic::div_mod::lemma_add_mod_noop;
use vstd::arithmetic::div_mod::lemma_fundamental_div_mod;
use vstd::arithmetic::div_mod::lemma_mod_add_multiples_vanish;
use vstd::arithmetic::div_mod::lemma_mod_division_less_than_divisor;
use vstd::arithmetic::div_mod::lemma_small_mod;
use vstd::arithmetic::div_mod::lemma_sub_mod_noop;
use vstd::string::StringExecFns;

verus! {

/// What kind of participant a [`Player`] is.
#[derive(Debug, Clone, Copy)]
pub enum PlayerType {
    /// A player whose inputs arrive through `add_local_input`.
    Local,
    /// A player whose inputs arrive from another peer; unused by the
    /// sync-test session, which has no network surface.
    Remote,
}

/// A participant registered with a session.
#[derive(Debug, Clone, Copy)]
pub struct Player {
    /// How the player participates.
    pub player_type: PlayerType,
    /// The handle the session knows the player by.
    pub player_handle: PlayerHandle,
}

impl Player {
    /// A player record with the given type and handle.
    pub fn new(player_type: PlayerType, player_handle: PlayerHandle) -> (r: Player)
        ensures
            r.player_handle == player_handle,
            r.player_type == player_type,
    {
        Player { player_type, player_handle }
    }
}

/// Network round-trip statistics. A sync-test session has no network, so it
/// only ever reports [`GGEZError::Unsupported`] instead of one of these.
#[derive(Debug, Clone, Copy)]
pub struct NetworkStats {
    /// Estimated round-trip time, in milliseconds.
    pub ping: u32,
    /// Inputs queued for sending.
    pub send_queue_len: usize,
    /// Estimated bandwidth used, in kilobits per second.
    pub kbps_sent: u32,
}

/// The capability set the game host must provide: saving, restoring and
/// advancing the simulation. The session calls these synchronously; they
/// must not reenter the session.
pub trait GGEZInterface {
    /// Returns a snapshot of the current simulation state, tagged with the
    /// frame the simulation is about to execute, optionally fingerprinted.
    fn save_game_state(&mut self) -> GameState;

    /// Restores the simulation state from the snapshot.
    fn load_game_state(&mut self, state: &GameState);

    /// Advances the simulation one frame with the given inputs, one per
    /// player.
    fn advance_frame(&mut self, inputs: Vec<GameInput>, disconnect_flags: u32);
}

/// One history record the session keeps for later comparison: the frame, an
/// independent copy of the snapshot saved at that frame, and the local input
/// that was assembled for it.
#[derive(Debug)]
pub struct FrameInfo {
    /// The frame this record belongs to.
    pub frame: FrameNumber,
    /// The snapshot saved before executing `frame`.
    pub state: GameState,
    /// The assembled local input for `frame`.
    pub input: GameInput,
}

/// Mathematical value of a [`FrameInfo`].
#[verifier::ext_equal]
pub ghost struct FrameInfoModel {
    pub frame: int,
    pub state: StateModel,
    pub input: InputModel,
}

/// Mathematical value of a [`SyncTestSession`].
#[verifier::ext_equal]
pub ghost struct SessionModel {
    pub current: int,
    pub num_players: int,
    pub input_size: int,
    pub check_distance: int,
    pub running: bool,
    pub current_input: InputModel,
    pub history: Seq<FrameInfoModel>,
    pub layer: LayerModel,
}

/// The smaller of two integers.
pub open spec fn min_int(a: int, b: int) -> int {
    if a <= b {
        a
    } else {
        b
    }
}

/// How many of the most recent frames the saved-state ring is guaranteed to
/// hold for a session with this check distance: the rollback loop re-saves
/// exactly `check_distance` frames each step, and a session that never rolls
/// back keeps the last [`MAX_PREDICTION_FRAMES`] plain saves.
pub open spec fn window(check_distance: int) -> int {
    if 1 <= check_distance < MAX_PREDICTION_FRAMES {
        check_distance
    } else {
        MAX_PREDICTION_FRAMES as int
    }
}

/// The frame tag `j` ring positions behind the head.
pub open spec fn ring_frame(l: LayerModel, j: int) -> int {
    l.saved[(l.head - j) % (MAX_PREDICTION_FRAMES as int)].frame
}

/// Two layer values with the same ring and head agree on every ring frame.
pub proof fn lemma_ring_transfer(a: LayerModel, b: LayerModel)
    requires
        a.saved == b.saved,
        a.head == b.head,
    ensures
        forall|j: int| #[trigger] ring_frame(b, j) == ring_frame(a, j),
{
    assert forall|j: int| #[trigger] ring_frame(b, j) == ring_frame(a, j) by {}
}

/// A session that has just been created: not yet running, frame counter at
/// the null sentinel, blank working input, empty history, fresh sync layer.
pub open spec fn is_fresh_session(m: SessionModel, cd: int, np: int, size: int) -> bool {
    &&& m.current == -1
    &&& m.num_players == np
    &&& m.input_size == size
    &&& m.check_distance == cd
    &&& !m.running
    &&& m.current_input.frame == -1
    &&& m.current_input.bits == zero_bits(size)
    &&& m.history.len() == 0
    &&& m.layer.num_players == np
    &&& m.layer.input_size == size
    &&& m.layer.current == 0
    &&& m.layer.last_confirmed == -1
    &&& !m.layer.rolling_back
    &&& m.layer.head == 0
    &&& forall|i: int| 0 <= i < m.layer.saved.len() ==> (#[trigger] m.layer.saved[i]).frame == -1
    &&& forall|i: int|
        0 <= i < m.layer.queues.len() ==> #[trigger] m.layer.queues[i]
            == crate::input_queue::fresh_queue(size)
}

/// True exactly when both checksums are present and disagree — the sync
/// test's failure condition.
pub fn checksum_mismatch(resimulated: Option<u64>, recorded: Option<u64>) -> (r: bool)
    ensures
        r <==> (resimulated matches Some(a) && recorded matches Some(b) && a != b),
{
    match (resimulated, recorded) {
        (Some(a), Some(b)) => a != b,
        _ => false,
    }
}

/// True exactly when the host tagged the snapshot with the expected frame —
/// the acceptance test every host-returned snapshot must pass.
pub fn snapshot_frame_matches(state: &GameState, frame: FrameNumber) -> (r: bool)
    ensures
        r <==> state@.frame == frame,
{
    state.frame == frame
}

/// Drives the sync layer: every frame it saves the state, advances, and —
/// once enough history exists — loads the state `check_distance` frames back
/// and re-simulates forward, comparing the re-simulated checksums with the
/// originals.
#[derive(Debug)]
pub struct SyncTestSession {
    current_frame: FrameNumber,
    num_players: u32,
    input_size: usize,
    check_distance: u32,
    running: bool,
    current_input: GameInput,
    saved_frames: Vec<FrameInfo>,
    sync_layer: SyncLayer,
}

impl View for SyncTestSession {
    type V = SessionModel;

    closed spec fn view(&self) -> SessionModel {
        SessionModel {
            current: self.current_frame as int,
            num_players: self.num_players as int,
            input_size: self.input_size as int,
            check_distance: self.check_distance as int,
            running: self.running,
            current_input: self.current_input@,
            history: self.saved_frames@.map_values(
                |f: FrameInfo| FrameInfoModel { frame: f.frame as int, state: f.state@, input: f.input@ },
            ),
            layer: self.sync_layer@,
        }
    }
}

impl SyncTestSession {
    /// Full invariant. While the session runs, the session's frame counter
    /// mirrors the sync layer's, the history holds the last frames in order,
    /// and the ring provably holds the frames the next rollback will load.
    pub closed spec fn inv(&self) -> bool {
        let m = self@;
        &&& self.sync_layer.inv()
        &&& m.layer.num_players == m.num_players
        &&& m.layer.input_size == m.input_size
        &&& m.current_input.bits.len() == m.input_size
        &&& m.history.len() <= MAX_PREDICTION_FRAMES
        &&& if m.running {
            &&& m.current >= 0
            &&& m.current == m.layer.current
            &&& m.history.len() == min_int(m.current, MAX_PREDICTION_FRAMES as int)
            &&& forall|i: int|
                0 <= i < m.history.len() ==> (#[trigger] m.history[i]).frame == m.current
                    - m.history.len() + i
            &&& forall|j: int|
                0 <= j < min_int(m.current, window(m.check_distance))
                    ==> #[trigger] ring_frame(m.layer, j) == m.current - 1 - j
        } else {
            &&& m.current == -1
            &&& m.layer.current == 0
            &&& m.history.len() == 0
            &&& forall|i: int|
                0 <= i < m.layer.queues.len() ==> (#[trigger] m.layer.queues[i]).last_user_added
                    == -1
        }
    }

    /// The invariant exposes the layer's model invariant.
    pub proof fn lemma_inv(&self)
        requires
            self.inv(),
        ensures
            l_inv(self@.layer),
            self@.current_input.bits.len() == self@.input_size,
            self@.running ==> self@.current == self@.layer.current && self@.current >= 0,
    {
        self.sync_layer.lemma_inv();
    }

    /// A new session with the given rollback distance, player count and
    /// input size; it must be started before inputs are accepted.
    pub fn new(check_distance: u32, num_players: u32, input_size: usize) -> (s: SyncTestSession)
        ensures
            s.inv(),
            is_fresh_session(s@, check_distance as int, num_players as int, input_size as int),
    {
        SyncTestSession {
            current_frame: NULL_FRAME,
            num_players,
            input_size,
            check_distance,
            running: false,
            current_input: GameInput::new(NULL_FRAME, input_size),
            saved_frames: Vec::new(),
            sync_layer: SyncLayer::new(num_players, input_size),
        }
    }

    /// The frame the session is about to execute; the null sentinel before
    /// the session is started.
    pub fn current_frame(&self) -> (r: FrameNumber)
        ensures
            r as int == self@.current,
    {
        self.current_frame
    }

    /// The local input assembled for the frame currently being prepared.
    pub fn current_input(&self) -> (r: &GameInput)
        ensures
            r@ == self@.current_input,
    {
        &self.current_input
    }

    /// Registers a player. The only check a sync-test session needs is that
    /// the handle is in range; out of range is [`GGEZError::InvalidRequest`].
    pub fn add_player(&mut self, player: &Player) -> (r: Result<PlayerHandle, GGEZError>)
        requires
            old(self).inv(),
        ensures
            final(self).inv(),
            final(self)@ == old(self)@,
            player.player_handle < old(self)@.num_players ==> (r matches Ok(h) && h
                == player.player_handle),
            player.player_handle >= old(self)@.num_players ==> (r matches Err(
                GGEZError::InvalidRequest
            )),
    {
        if player.player_handle >= self.num_players as usize {
            return Err(GGEZError::InvalidRequest);
        }
        Ok(player.player_handle)
    }

    /// Starts the session: the frame counter drops to 0 and inputs are
    /// accepted from now on. Starting twice is [`GGEZError::InvalidRequest`].
    pub fn start_session(&mut self) -> (r: Result<(), GGEZError>)
        requires
            old(self).inv(),
        ensures
            final(self).inv(),
            old(self)@.running ==> (r matches Err(GGEZError::InvalidRequest)) && final(self)@
                == old(self)@,
            !old(self)@.running ==> (r matches Ok(v) && v == ()) && final(self)@ == (SessionModel {
                running: true,
                current: 0,
                ..old(self)@
            }),
    {
        if self.running {
            return Err(GGEZError::InvalidRequest);
        }
        self.running = true;
        self.current_frame = 0;
        proof {
            assert(final(self)@ =~~= (SessionModel { running: true, current: 0, ..old(self)@ }));
        }
        Ok(())
    }

    /// Copies `bytes` into the working input for this frame, tags it with
    /// the current frame and submits it to the sync layer. The handle must
    /// be in range and the session started; the sync layer may refuse with
    /// [`GGEZError::PredictionThreshold`] exactly when the simulation is
    /// already more than [`MAX_PREDICTION_FRAMES`] ahead of the last
    /// confirmed frame.
    pub fn add_local_input(&mut self, player_handle: PlayerHandle, bytes: &[u8]) -> (r: Result<
        (),
        GGEZError,
    >)
        requires
            old(self).inv(),
            bytes@.len() == old(self)@.input_size,
            (old(self)@.running && player_handle < old(self)@.num_players
                && !prediction_threshold_reached(
                old(self)@.layer.current,
                old(self)@.layer.last_confirmed,
            )) ==> {
                let q = old(self)@.layer.queues[player_handle as int];
                &&& (q.last_user_added == -1 || old(self)@.current == q.last_user_added + 1)
                &&& old(self)@.current + q.delay <= i32::MAX
            },
        ensures
            final(self).inv(),
            player_handle >= old(self)@.num_players ==> (r matches Err(
                GGEZError::InvalidPlayerHandle
            )) && final(self)@ == old(self)@,
            player_handle < old(self)@.num_players && !old(self)@.running ==> (r matches Err(
                GGEZError::NotSynchronized
            )) && final(self)@ == old(self)@,
            player_handle < old(self)@.num_players && old(self)@.running ==> {
                &&& final(self)@.current_input.bits == bytes@
                &&& final(self)@.current_input.frame == old(self)@.current
                &&& (r is Err <==> prediction_threshold_reached(
                    old(self)@.layer.current,
                    old(self)@.layer.last_confirmed,
                ))
                &&& r is Err ==> (r matches Err(GGEZError::PredictionThreshold))
                    && final(self)@.layer == old(self)@.layer
                &&& r is Ok ==> final(self)@.layer.queues == old(self)@.layer.queues.update(
                    player_handle as int,
                    crate::input_queue::added(
                        old(self)@.layer.queues[player_handle as int],
                        old(self)@.current,
                        bytes@,
                    ),
                )
                &&& same_but_queues(final(self)@.layer, old(self)@.layer)
                &&& final(self)@.current == old(self)@.current
                &&& final(self)@.history == old(self)@.history
                &&& final(self)@.running
                &&& final(self)@.num_players == old(self)@.num_players
                &&& final(self)@.input_size == old(self)@.input_size
                &&& final(self)@.check_distance == old(self)@.check_distance
            },
    {
        if player_handle >= self.num_players as usize {
            return Err(GGEZError::InvalidPlayerHandle);
        }
        if !self.running {
            return Err(GGEZError::NotSynchronized);
        }
        self.current_input.copy_input(bytes);
        self.current_input.frame = self.current_frame;
        let r = self.sync_layer.add_local_input(player_handle, &self.current_input);
        proof {
            old(self).sync_layer.lemma_inv();
            self.sync_layer.lemma_inv();
            lemma_ring_transfer(old(self)@.layer, self@.layer);
        }
        match r {
            Ok(_) => Ok(()),
            Err(e) => Err(e),
        }
    }

    /// Advances the session one frame: saves the host's snapshot, records it
    /// in the history, feeds the host the synchronized inputs, then — once
    /// the history is longer than the check distance — rolls the sync layer
    /// back `check_distance` frames, re-simulates forward and compares the
    /// re-simulated checksums with the recorded ones. A mismatch is
    /// [`GGEZError::SyncTestFailed`]; a snapshot from the host whose frame
    /// tag disagrees with the frame counter is [`GGEZError::GeneralFailure`].
    /// After a rollback pass the layer's confirmed horizon is raised to the
    /// rollback target — the sync-test stand-in for peer acknowledgments —
    /// and the queues discard below it. With a check distance of 0 the
    /// rollback section is disabled entirely.
    pub fn advance_frame<I: GGEZInterface>(&mut self, interface: &mut I) -> (r: Result<
        (),
        GGEZError,
    >)
        requires
            old(self).inv(),
            old(self)@.running,
            old(self)@.current < i32::MAX,
        ensures
            final(self)@.num_players == old(self)@.num_players,
            final(self)@.input_size == old(self)@.input_size,
            final(self)@.check_distance == old(self)@.check_distance,
            final(self)@.running == old(self)@.running,
            r is Ok ==> {
                &&& final(self).inv()
                &&& final(self)@.current == old(self)@.current + 1
                &&& final(self)@.current_input.bits == zero_bits(old(self)@.input_size)
                &&& final(self)@.layer.queues.len() == old(self)@.layer.queues.len()
                &&& forall|i: int|
                    0 <= i < old(self)@.layer.queues.len()
                        ==> (#[trigger] final(self)@.layer.queues[i]).last_user_added
                        == old(self)@.layer.queues[i].last_user_added
                        && final(self)@.layer.queues[i].delay
                        == old(self)@.layer.queues[i].delay
                &&& final(self)@.history.len() == min_int(
                    old(self)@.current + 1,
                    MAX_PREDICTION_FRAMES as int,
                )
                &&& final(self)@.history.last().frame == old(self)@.current
                &&& final(self)@.history.last().input == old(self)@.current_input
                &&& forall|i: int|
                    0 <= i < final(self)@.history.len() - 1 ==> #[trigger] final(self)@.history[i]
                        == old(self)@.history[i + (if old(self)@.history.len()
                        < MAX_PREDICTION_FRAMES as int {
                        0int
                    } else {
                        1int
                    })]
            },
            (r is Ok && old(self)@.check_distance >= 1 && min_int(
                old(self)@.current + 1,
                MAX_PREDICTION_FRAMES as int,
            ) > old(self)@.check_distance) ==> {
                &&& final(self)@.layer.last_confirmed == old(self)@.current + 1 - old(
                    self,
                )@.check_distance
                &&& forall|i: int|
                    0 <= i < final(self)@.layer.queues.len()
                        ==> ((#[trigger] final(self)@.layer.queues[i]).stored.len() > 0
                        ==> final(self)@.layer.queues[i].first >= old(self)@.current - old(
                        self,
                    )@.check_distance)
            },
            (r is Ok && (old(self)@.check_distance == 0 || min_int(
                old(self)@.current + 1,
                MAX_PREDICTION_FRAMES as int,
            ) <= old(self)@.check_distance)) ==> final(self)@.layer.last_confirmed == old(
                self,
            )@.layer.last_confirmed,
            r matches Err(e) ==> (e is SyncTestFailed || e is GeneralFailure),
            r matches Err(GGEZError::SyncTestFailed) ==> old(self)@.check_distance >= 1
                && min_int(old(self)@.current + 1, MAX_PREDICTION_FRAMES as int) > old(
                self,
            )@.check_distance,
            old(self)@.check_distance == 0 ==> !(r matches Err(GGEZError::SyncTestFailed)),
    {
        let ghost c: int = old(self)@.current;
        let ghost w: int = window(old(self)@.check_distance);
        let ghost cap: int = MAX_PREDICTION_FRAMES as int;
        proof {
            self.sync_layer.lemma_inv();
        }

        // Save the host's snapshot of the state about to execute this frame.
        let snapshot = interface.save_game_state();
        if !snapshot_frame_matches(&snapshot, self.current_frame) {
            return Err(
                GGEZError::GeneralFailure(
                    String::from_str("host snapshot is not tagged with the current frame"),
                ),
            );
        }
        self.sync_layer.save_current_state(snapshot);
        let ghost l1: LayerModel = self.sync_layer@;
        proof {
            self.sync_layer.lemma_inv();
            let h0 = old(self)@.layer.head;
            lemma_mod_division_less_than_divisor(h0 + 1, cap);
            lemma_small_mod(l1.head as nat, cap as nat);
            assert((l1.head - 0) % cap == l1.head);
            assert(ring_frame(l1, 0) == c);
            assert forall|j: int| 1 <= j < min_int(c, w) + 1 && j < cap implies #[trigger]
                ring_frame(l1, j) == c - j by {
                lemma_sub_mod_noop(h0 + 1, j, cap);
                lemma_small_mod(j as nat, cap as nat);
                assert((l1.head - j) % cap == (h0 + 1 - j) % cap);
                assert((h0 + 1 - j) % cap == (h0 - (j - 1)) % cap);
                lemma_mod_division_less_than_divisor(h0 - (j - 1), cap);
                if (h0 - (j - 1)) % cap == l1.head {
                    lemma_fundamental_div_mod(h0 - (j - 1), cap);
                    lemma_fundamental_div_mod(h0 + 1, cap);
                    assert(false);
                }
                assert(l1.saved[(h0 - (j - 1)) % cap] == old(self)@.layer.saved[(h0 - (j - 1))
                    % cap]);
                assert(ring_frame(old(self)@.layer, j - 1) == c - 1 - (j - 1));
            }
        }

        // Keep an independent copy for the later comparison.
        let frame_copy = match self.sync_layer.last_saved_state() {
            Some(fi) => fi.duplicate(),
            None => {
                return Err(
                    GGEZError::GeneralFailure(
                        String::from_str("sync layer did not return a last saved state"),
                    ),
                );
            },
        };
        if self.saved_frames.len() == MAX_PREDICTION_FRAMES as usize {
            self.saved_frames.remove(0);
        }
        self.saved_frames.push(
            FrameInfo {
                frame: self.current_frame,
                state: frame_copy,
                input: self.current_input.duplicate(),
            },
        );
        proof {
            let oldh = old(self)@.history;
            let newh = self@.history;
            let shift: int = if oldh.len() < cap {
                0
            } else {
                1
            };
            assert(newh.len() == min_int(c + 1, cap));
            assert(newh.last().frame == c);
            assert(newh.last().input == old(self)@.current_input);
            assert forall|i: int| 0 <= i < newh.len() - 1 implies #[trigger] newh[i] == oldh[i
                + shift] by {}
            assert forall|i: int| 0 <= i < newh.len() implies (#[trigger] newh[i]).frame == c + 1
                - newh.len() + i by {
                if i == newh.len() - 1 {
                    assert(newh[i].frame == c);
                } else {
                    assert(newh[i] == oldh[i + shift]);
                }
            }
        }

        // Feed the host the synchronized inputs and move on one frame.
        let sync_inputs = self.sync_layer.synchronized_inputs();
        proof {
            assert(sync_inputs@.len() > 0 ==> sync_inputs@[0]@.frame == c);
        }
        interface.advance_frame(sync_inputs, 0);
        self.sync_layer.advance_frame();
        self.current_frame = self.current_frame + 1;
        self.current_input.erase_bits();

        // Rollback-verify section: reload the state `check_distance` frames
        // back and re-simulate, comparing checksums as we go.
        if self.check_distance > 0 && self.saved_frames.len() > self.check_distance as usize {
            let ghost cd: int = self@.check_distance as int;
            let ghost target: int = c + 1 - cd;
            proof {
                assert(1 <= cd < cap);
                assert(c >= cd);
            }
            let frame_to_load: FrameNumber = self.current_frame - (self.check_distance as i32);
            proof {
                self.sync_layer.lemma_inv();
                lemma_ring_transfer(l1, self@.layer);
                assert(ring_frame(l1, cd - 1) == target);
                assert(ring_frame(self@.layer, cd - 1) == target);
                lemma_mod_division_less_than_divisor(self@.layer.head - (cd - 1), cap);
                assert((#[trigger] self@.layer.saved[(self@.layer.head - (cd - 1)) % cap]).frame
                    == frame_to_load as int);
            }
            interface.load_game_state(self.sync_layer.load_frame(frame_to_load));
            proof {
                assert(exists|q: int|
                    0 <= q < cap && (#[trigger] self@.layer.saved[q]).frame == target
                        && self@.layer.head == (q + cap - 1) % cap);
            }
            let ghost p: int = choose|q: int|
                0 <= q < cap && (#[trigger] self@.layer.saved[q]).frame == target
                    && self@.layer.head == (q + cap - 1) % cap;
            let ghost hist1 = self@.history;
            let ghost len1: int = hist1.len() as int;
            proof {
                assert forall|i: int| 0 <= i < self@.layer.queues.len() implies (
                    #[trigger] self@.layer.queues[i]).last_requested >= c by {}
            }

            let mut k: u32 = 0;
            while k < self.check_distance
                invariant
                    self.sync_layer.inv(),
                    self@.num_players == old(self)@.num_players,
                    self@.input_size == old(self)@.input_size,
                    self@.check_distance == old(self)@.check_distance,
                    self@.running == old(self)@.running,
                    self@.running,
                    c == old(self)@.current,
                    self@.layer.num_players == self@.num_players,
                    self@.layer.input_size == self@.input_size,
                    self@.current == c + 1,
                    self@.current_input.bits == zero_bits(self@.input_size),
                    self@.history == hist1,
                    len1 == hist1.len(),
                    min_int(c + 1, cap) == len1,
                    cap == MAX_PREDICTION_FRAMES as int,
                    1 <= cd < cap,
                    len1 > cd,
                    cd == self@.check_distance,
                    target == c + 1 - cd,
                    c < i32::MAX,
                    forall|i: int|
                        0 <= i < len1 ==> (#[trigger] hist1[i]).frame == c + 1 - len1 + i,
                    0 <= p < cap,
                    0 <= k <= cd,
                    self@.layer.current == target + k,
                    self@.layer.head == (p + cap - 1 + k) % cap,
                    self@.layer.queues.len() == old(self)@.layer.queues.len(),
                    forall|i: int|
                        0 <= i < self@.layer.queues.len() ==> (#[trigger] self@.layer.queues[
                            i]).last_requested >= c,
                    forall|i: int|
                        0 <= i < self@.layer.queues.len() ==> (#[trigger] self@.layer.queues[
                            i]).last_user_added == old(self)@.layer.queues[i].last_user_added
                            && self@.layer.queues[i].delay == old(self)@.layer.queues[i].delay,
                    forall|k2: int|
                        0 <= k2 < k ==> #[trigger] self@.layer.saved[(p + k2) % cap].frame
                            == target + k2,
                decreases cd - k,
            {
                let resim = interface.save_game_state();
                let resim_expected = self.sync_layer.current_frame();
                if !snapshot_frame_matches(&resim, resim_expected) {
                    return Err(
                        GGEZError::GeneralFailure(
                            String::from_str(
                                "host snapshot is not tagged with the re-simulated frame",
                            ),
                        ),
                    );
                }
                let ghost lpre: LayerModel = self.sync_layer@;
                proof {
                    self.sync_layer.lemma_inv();
                }
                self.sync_layer.save_current_state(resim);
                let ghost lsave: LayerModel = self.sync_layer@;
                proof {
                    self.sync_layer.lemma_inv();
                    lemma_add_mod_noop(p + cap - 1 + k, 1, cap);
                    lemma_small_mod(1nat, cap as nat);
                    lemma_mod_add_multiples_vanish(p + k, cap);
                    assert(lsave.head == (p + k) % cap);
                    lemma_mod_division_less_than_divisor(p + k, cap);
                    assert forall|k2: int| 0 <= k2 < k + 1 implies #[trigger] lsave.saved[(p
                        + k2) % cap].frame == target + k2 by {
                        lemma_mod_division_less_than_divisor(p + k2, cap);
                        if k2 < k {
                            if (p + k2) % cap == (p + k) % cap {
                                lemma_fundamental_div_mod(p + k2, cap);
                                lemma_fundamental_div_mod(p + k, cap);
                                assert(false);
                            }
                            assert(lsave.saved[(p + k2) % cap] == lpre.saved[(p + k2) % cap]);
                            assert(lpre.saved[(p + k2) % cap].frame == target + k2);
                        } else {
                            assert(lsave.saved[lsave.head].frame == target + k);
                        }
                    }
                }

                // Fetch the original record for the frame just re-saved.
                let pos: usize = self.saved_frames.len() - 1 - ((self.check_distance - 1 - k)
                    as usize);
                proof {
                    assert(pos as int == len1 - 1 - (cd - 1 - k));
                    assert(hist1[pos as int].frame == target + k);
                }
                let old_checksum: Option<u64> = self.saved_frames[pos].state.checksum;

                // Compare the re-simulated checksum with the recorded one.
                let new_checksum: Option<u64> = match self.sync_layer.last_saved_state() {
                    Some(st) => st.checksum,
                    None => None,
                };
                if checksum_mismatch(new_checksum, old_checksum) {
                    return Err(GGEZError::SyncTestFailed);
                }

                // Re-advance one frame.
                let sync_inputs = self.sync_layer.synchronized_inputs();
                self.sync_layer.advance_frame();
                interface.advance_frame(sync_inputs, 0);
                proof {
                    assert(self@.layer.saved == lsave.saved);
                    assert forall|k2: int| 0 <= k2 < k + 1 implies #[trigger] self@.layer.saved[(
                        p + k2) % cap].frame == target + k2 by {
                        assert(lsave.saved[(p + k2) % cap].frame == target + k2);
                    }
                    assert forall|i: int| 0 <= i < self@.layer.queues.len() implies (
                        #[trigger] self@.layer.queues[i]).last_requested >= c by {
                        assert(lpre.queues[i].last_requested >= c);
                    }
                }
                k = k + 1;
            }
            let ghost lloop: LayerModel = self.sync_layer@;
            proof {
                self.sync_layer.lemma_inv();
            }

            // We should have arrived back at the current frame.
            let gs_compare = interface.save_game_state();
            if !snapshot_frame_matches(&gs_compare, self.current_frame) {
                return Err(
                    GGEZError::GeneralFailure(
                        String::from_str("host did not arrive back at the current frame"),
                    ),
                );
            }

            // Sync-test only: confirm everything up to the rollback horizon,
            // so the prediction threshold never fires without a peer.
            self.sync_layer.set_last_confirmed_frame(
                self.current_frame - (self.check_distance as i32),
            );

            proof {
                self.sync_layer.lemma_inv();
                assert(self@.layer.saved == lloop.saved);
                assert(self@.layer.head == (p + cap - 1 + cd) % cap);
                assert forall|j: int| 0 <= j < min_int(c + 1, w) implies #[trigger] ring_frame(
                    self@.layer,
                    j,
                ) == c - j by {
                    lemma_sub_mod_noop(p + cap - 1 + cd, j, cap);
                    lemma_small_mod(j as nat, cap as nat);
                    assert((self@.layer.head - j) % cap == (p + cap - 1 + cd - j) % cap);
                    lemma_mod_add_multiples_vanish(p + (cd - 1 - j), cap);
                    assert(p + cap - 1 + cd - j == cap + (p + (cd - 1 - j)));
                    assert(lloop.saved[(p + (cd - 1 - j)) % cap].frame == target + (cd - 1 - j));
                }
                assert forall|i: int|
                    0 <= i < self@.layer.queues.len() && (#[trigger] self@.layer.queues[
                        i]).stored.len() > 0 implies self@.layer.queues[i].first >= c - cd by {
                    assert(self@.layer.queues[i] == crate::input_queue::discarded(
                        lloop.queues[i],
                        c + 1 - cd - 1,
                    ));
                    assert(lloop.queues[i].last_requested >= c);
                }
            }
        } else {
            proof {
                self.sync_layer.lemma_inv();
                lemma_ring_transfer(l1, self@.layer);
                assert forall|j: int| 0 <= j < min_int(c + 1, w) implies #[trigger] ring_frame(
                    self@.layer,
                    j,
                ) == c - j by {
                    assert(j < min_int(c, w) + 1 && j < cap);
                    assert(ring_frame(l1, j) == c - j);
                }
            }
        }
        Ok(())
    }

    /// Does nothing: a sync-test session has no packets to send or receive.
    pub fn idle<I: GGEZInterface>(&self, _interface: &mut I) -> (r: Result<(), GGEZError>)
        ensures
            r is Ok,
    {
        Ok(())
    }

    /// Sets the input delay for one player; only allowed before the session
    /// is started, otherwise [`GGEZError::InvalidRequest`].
    pub fn set_frame_delay(&mut self, frame_delay: u32, player_handle: PlayerHandle) -> (r: Result<
        (),
        GGEZError,
    >)
        requires
            old(self).inv(),
            player_handle < old(self)@.num_players,
        ensures
            final(self).inv(),
            old(self)@.running ==> (r matches Err(GGEZError::InvalidRequest)) && final(self)@
                == old(self)@,
            !old(self)@.running ==> (r matches Ok(v) && v == ()) && final(self)@.layer.queues
                == old(self)@.layer.queues.update(
                player_handle as int,
                (crate::input_queue::QueueModel {
                    delay: min_int(frame_delay as int, MAX_INPUT_DELAY as int),
                    ..old(self)@.layer.queues[player_handle as int]
                }),
            ),
    {
        if self.running {
            return Err(GGEZError::InvalidRequest);
        }
        proof {
            self.sync_layer.lemma_inv();
            assert(self@.layer.queues[player_handle as int].last_user_added == -1);
        }
        self.sync_layer.set_frame_delay(player_handle, frame_delay);
        proof {
            self.sync_layer.lemma_inv();
            assert forall|i: int| 0 <= i < self@.layer.queues.len() implies (
                #[trigger] self@.layer.queues[i]).last_user_added == -1 by {
                assert(old(self)@.layer.queues[i].last_user_added == -1);
            }
        }
        Ok(())
    }

    /// Not supported: there is no peer to disconnect.
    pub fn disconnect_player(&mut self, _player_handle: PlayerHandle) -> (r: Result<
        (),
        GGEZError,
    >)
        ensures
            r matches Err(GGEZError::Unsupported),
            final(self)@ == old(self)@,
    {
        Err(GGEZError::Unsupported)
    }

    /// Not supported: there is no network to measure.
    pub fn get_network_stats(&self, _player_handle: PlayerHandle) -> (r: Result<
        NetworkStats,
        GGEZError,
    >)
        ensures
            r matches Err(GGEZError::Unsupported),
    {
        Err(GGEZError::Unsupported)
    }

    /// Not supported: there is no peer whose silence could time out.
    pub fn set_disconnect_timeout(&self, _timeout: u32) -> (r: Result<(), GGEZError>)
        ensures
            r matches Err(GGEZError::Unsupported),
    {
        Err(GGEZError::Unsupported)
    }

    /// Not supported: there is no peer to be notified about.
    pub fn set_disconnect_notify_delay(&self, _notify_delay: u32) -> (r: Result<(), GGEZError>)
        ensures
            r matches Err(GGEZError::Unsupported),
    {
        Err(GGEZError::Unsupported)
    }
}

} // verus!
