//! The sync layer: one input queue per player plus a bounded ring of saved
//! game states, with frame advance, save/load and input ingestion on top.

use vstd::prelude::*;

use crate::frame_info::{GameInput, GameState, StateModel};
use crate::input_queue::{
    added, discarded, q_inv, queried, query_bits, reset, stored_has, InputQueue, QueueModel,
};
use crate::input_queue::fresh_queue;
use crate::FrameNumber;
use crate::GGEZError;
use crate::PlayerHandle;
use crate::MAX_INPUT_DELAY;
use crate::MAX_PREDICTION_FRAMES;
use crate::NULL_FRAME;

verus! {

/// Fixed-capacity ring of saved values addressed by a head cursor. A save
/// advances the head and overwrites the slot it lands on, so after a save the
/// head names the just-saved slot.
#[derive(Debug)]
pub struct SavedStates<T> {
    /// The slots; the capacity never changes after construction.
    pub states: Vec<T>,
    /// Ring index of the most recently saved slot.
    pub head: usize,
}

impl<T> SavedStates<T> {
    /// Advances the head by one (wrapping) and stores `state_to_save` there.
    pub fn save_state(&mut self, state_to_save: T)
        requires
            old(self).head < old(self).states@.len(),
        ensures
            final(self).head == (old(self).head + 1) % (old(self).states@.len() as int),
            final(self).states@ == old(self).states@.update(
                final(self).head as int,
                state_to_save,
            ),
            final(self).states@.len() == old(self).states@.len(),
    {
        let n = self.states.len();
        self.head = (self.head + 1) % n;
        self.states[self.head] = state_to_save;
    }

    /// The most recently saved value.
    pub fn state_at_head(&self) -> (r: &T)
        requires
            self.head < self.states@.len(),
        ensures
            *r == self.states@[self.head as int],
    {
        &self.states[self.head]
    }

    /// The value saved `frames_in_past` positions before the head, wrapping
    /// around the ring (Euclidean remainder, so the position is always in
    /// range).
    pub fn state_in_past(&self, frames_in_past: usize) -> (r: &T)
        requires
            self.states@.len() == MAX_PREDICTION_FRAMES,
            self.head < self.states@.len(),
        ensures
            *r == self.states@[(self.head - frames_in_past) % (MAX_PREDICTION_FRAMES as int)],
    {
        let cap: usize = MAX_PREDICTION_FRAMES as usize;
        let rem: usize = frames_in_past % cap;
        let pos: usize = if rem <= self.head {
            self.head - rem
        } else {
            self.head + cap - rem
        };
        proof {
            let h = self.head as int;
            let k = frames_in_past as int;
            let c = MAX_PREDICTION_FRAMES as int;
            vstd::arithmetic::div_mod::lemma_fundamental_div_mod(k, c);
            vstd::arithmetic::div_mod::lemma_mod_multiples_vanish(-(k / c), h - (k % c), c);
            assert(h - k == (h - (k % c)) + c * (-(k / c)));
            if rem <= self.head {
                vstd::arithmetic::div_mod::lemma_small_mod((h - (k % c)) as nat, c as nat);
            } else {
                vstd::arithmetic::div_mod::lemma_mod_multiples_vanish(1, h - (k % c), c);
                vstd::arithmetic::div_mod::lemma_small_mod((h - (k % c) + c) as nat, c as nat);
            }
            assert(pos as int == (h - k) % c);
        }
        &self.states[pos]
    }
}

/// Mathematical value of a [`SyncLayer`].
#[verifier::ext_equal]
pub ghost struct LayerModel {
    pub num_players: int,
    pub input_size: int,
    pub current: int,
    pub last_confirmed: int,
    pub rolling_back: bool,
    pub queues: Seq<QueueModel>,
    pub saved: Seq<StateModel>,
    pub head: int,
}

/// The layer's invariant, at the model level.
pub open spec fn l_inv(m: LayerModel) -> bool {
    &&& m.queues.len() == m.num_players
    &&& forall|i: int|
        0 <= i < m.queues.len() ==> q_inv(#[trigger] m.queues[i]) && m.queues[i].input_size
            == m.input_size
    &&& m.saved.len() == MAX_PREDICTION_FRAMES
    &&& 0 <= m.head < MAX_PREDICTION_FRAMES
    &&& m.current >= 0
    &&& m.last_confirmed >= -1
}

/// True when `a` and `b` agree on everything but the input queues.
pub open spec fn same_but_queues(a: LayerModel, b: LayerModel) -> bool {
    &&& a.num_players == b.num_players
    &&& a.input_size == b.input_size
    &&& a.current == b.current
    &&& a.last_confirmed == b.last_confirmed
    &&& a.rolling_back == b.rolling_back
    &&& a.saved == b.saved
    &&& a.head == b.head
}

/// True exactly when accepting a local input now would run further ahead of
/// the last confirmed frame than [`MAX_PREDICTION_FRAMES`] allows.
pub open spec fn prediction_threshold_reached(current: int, last_confirmed: int) -> bool {
    current - last_confirmed > MAX_PREDICTION_FRAMES
}

/// Owns the per-player input queues and the saved-state ring and keeps them
/// consistent with the frame counter the simulation is driven by.
#[derive(Debug)]
pub struct SyncLayer {
    num_players: u32,
    input_size: usize,
    saved_states: SavedStates<GameState>,
    rolling_back: bool,
    last_confirmed_frame: FrameNumber,
    current_frame: FrameNumber,
    input_queues: Vec<InputQueue>,
}

impl View for SyncLayer {
    type V = LayerModel;

    closed spec fn view(&self) -> LayerModel {
        LayerModel {
            num_players: self.num_players as int,
            input_size: self.input_size as int,
            current: self.current_frame as int,
            last_confirmed: self.last_confirmed_frame as int,
            rolling_back: self.rolling_back,
            queues: self.input_queues@.map_values(|q: InputQueue| q@),
            saved: self.saved_states.states@.map_values(|s: GameState| s@),
            head: self.saved_states.head as int,
        }
    }
}

impl SyncLayer {
    /// Full invariant: the model invariant plus each queue's own.
    pub closed spec fn inv(&self) -> bool {
        &&& self.input_queues@.len() == self.num_players
        &&& forall|i: int|
            0 <= i < self.input_queues@.len() ==> (#[trigger] self.input_queues@[i]).inv()
        &&& forall|i: int|
            0 <= i < self.input_queues@.len() ==> (#[trigger] self.input_queues@[i])@.input_size
                == self.input_size
        &&& self.saved_states.states@.len() == MAX_PREDICTION_FRAMES
        &&& self.saved_states.head < MAX_PREDICTION_FRAMES as usize
        &&& self.current_frame >= 0
        &&& self.last_confirmed_frame >= -1
    }

    /// The invariant implies the model-level invariant.
    pub proof fn lemma_inv(&self)
        requires
            self.inv(),
        ensures
            l_inv(self@),
    {
        assert forall|i: int| 0 <= i < self@.queues.len() implies q_inv(#[trigger] self@.queues[i])
            && self@.queues[i].input_size == self@.input_size by {
            self.input_queues@[i].lemma_inv();
        }
    }

    /// A layer for `num_players` players with fresh queues, frame 0, no
    /// confirmed frame yet, and a ring of blank saved states.
    pub fn new(num_players: u32, input_size: usize) -> (s: SyncLayer)
        ensures
            s.inv(),
            s@.num_players == num_players,
            s@.input_size == input_size,
            s@.current == 0,
            s@.last_confirmed == -1,
            !s@.rolling_back,
            s@.head == 0,
            forall|i: int| 0 <= i < s@.saved.len() ==> (#[trigger] s@.saved[i]).frame == -1,
            forall|i: int|
                0 <= i < s@.queues.len() ==> #[trigger] s@.queues[i] == fresh_queue(
                    input_size as int,
                ),
    {
        let mut input_queues: Vec<InputQueue> = Vec::new();
        let mut i: usize = 0;
        while i < num_players as usize
            invariant
                i <= num_players as usize,
                input_queues@.len() == i,
                forall|j: int|
                    0 <= j < i ==> (#[trigger] input_queues@[j]).inv() && input_queues@[j]@
                        == fresh_queue(input_size as int),
            decreases num_players as usize - i,
        {
            input_queues.push(InputQueue::new(input_size));
            i = i + 1;
        }
        let mut states: Vec<GameState> = Vec::new();
        let mut j: usize = 0;
        while j < MAX_PREDICTION_FRAMES as usize
            invariant
                j <= MAX_PREDICTION_FRAMES as usize,
                states@.len() == j,
                forall|k: int| 0 <= k < j ==> (#[trigger] states@[k])@.frame == -1,
            decreases MAX_PREDICTION_FRAMES as usize - j,
        {
            states.push(GameState::blank());
            j = j + 1;
        }
        SyncLayer {
            num_players,
            input_size,
            rolling_back: false,
            last_confirmed_frame: NULL_FRAME,
            current_frame: 0,
            saved_states: SavedStates { head: 0, states },
            input_queues,
        }
    }

    /// The frame the simulation is about to execute.
    pub fn current_frame(&self) -> (r: FrameNumber)
        ensures
            r as int == self@.current,
    {
        self.current_frame
    }

    /// Moves on to the next frame.
    pub fn advance_frame(&mut self)
        requires
            old(self).inv(),
            old(self)@.current < i32::MAX,
        ensures
            final(self).inv(),
            final(self)@ == (LayerModel { current: old(self)@.current + 1, ..old(self)@ }),
    {
        self.current_frame = self.current_frame + 1;
        proof {
            assert(final(self)@ =~~= (LayerModel {
                current: old(self)@.current + 1,
                ..old(self)@
            }));
        }
    }

    /// Saves a snapshot at a newly advanced ring head. The snapshot must
    /// carry a real frame tag.
    pub fn save_current_state(&mut self, state_to_save: GameState)
        requires
            old(self).inv(),
            state_to_save@.frame != NULL_FRAME,
        ensures
            final(self).inv(),
            final(self)@.head == (old(self)@.head + 1) % (MAX_PREDICTION_FRAMES as int),
            final(self)@.saved == old(self)@.saved.update(final(self)@.head, state_to_save@),
            final(self)@.queues == old(self)@.queues,
            final(self)@.current == old(self)@.current,
            final(self)@.last_confirmed == old(self)@.last_confirmed,
            final(self)@.num_players == old(self)@.num_players,
            final(self)@.input_size == old(self)@.input_size,
            final(self)@.rolling_back == old(self)@.rolling_back,
    {
        self.saved_states.save_state(state_to_save);
        proof {
            assert(final(self)@.saved =~= old(self)@.saved.update(
                final(self)@.head,
                state_to_save@,
            ));
        }
    }

    /// The snapshot at the ring head, or nothing if that slot is still blank.
    pub fn last_saved_state(&self) -> (r: Option<&GameState>)
        requires
            self.inv(),
        ensures
            match r {
                Some(s) => s@ == self@.saved[self@.head] && s@.frame != NULL_FRAME,
                None => self@.saved[self@.head].frame == NULL_FRAME,
            },
    {
        let s = self.saved_states.state_at_head();
        if s.frame == NULL_FRAME {
            None
        } else {
            Some(s)
        }
    }

    /// Sets the input delay for one player, clamped to [`MAX_INPUT_DELAY`].
    /// Only allowed while that player's queue has seen no input, which the
    /// sessions above guarantee by fixing delays before the session starts.
    pub fn set_frame_delay(&mut self, player_handle: PlayerHandle, delay: u32)
        requires
            old(self).inv(),
            player_handle < old(self)@.num_players,
            old(self)@.queues[player_handle as int].last_user_added == -1,
        ensures
            final(self).inv(),
            same_but_queues(final(self)@, old(self)@),
            final(self)@.queues == old(self)@.queues.update(
                player_handle as int,
                (QueueModel {
                    delay: if delay > MAX_INPUT_DELAY {
                        MAX_INPUT_DELAY as int
                    } else {
                        delay as int
                    },
                    ..old(self)@.queues[player_handle as int]
                }),
            ),
    {
        let d: u32 = if delay > MAX_INPUT_DELAY {
            MAX_INPUT_DELAY
        } else {
            delay
        };
        self.input_queues[player_handle].set_frame_delay(d);
        proof {
            assert(final(self)@.queues =~~= old(self)@.queues.update(
                player_handle as int,
                (QueueModel {
                    delay: d as int,
                    ..old(self)@.queues[player_handle as int]
                }),
            ));
        }
    }

    /// Clears every queue's prediction state from `frame` forward.
    pub fn reset_prediction(&mut self, frame: FrameNumber)
        requires
            old(self).inv(),
            frame >= 0,
        ensures
            final(self).inv(),
            same_but_queues(final(self)@, old(self)@),
            final(self)@.queues.len() == old(self)@.queues.len(),
            forall|i: int|
                0 <= i < old(self)@.queues.len() ==> #[trigger] final(self)@.queues[i] == reset(
                    old(self)@.queues[i],
                    frame as int,
                ),
    {
        let n = self.num_players as usize;
        let mut i: usize = 0;
        while i < n
            invariant
                i <= n,
                n == old(self).input_queues@.len(),
                frame >= 0,
                self.num_players == old(self).num_players,
                self.input_size == old(self).input_size,
                self.saved_states == old(self).saved_states,
                self.rolling_back == old(self).rolling_back,
                self.last_confirmed_frame == old(self).last_confirmed_frame,
                self.current_frame == old(self).current_frame,
                self.input_queues@.len() == n,
                old(self).inv(),
                forall|j: int|
                    0 <= j < i ==> (#[trigger] self.input_queues@[j]).inv()
                        && self.input_queues@[j]@ == reset(
                        old(self).input_queues@[j]@,
                        frame as int,
                    ),
                forall|j: int|
                    i <= j < n ==> #[trigger] self.input_queues@[j]
                        == old(self).input_queues@[j],
            decreases n - i,
        {
            self.input_queues[i].reset_prediction(frame);
            i = i + 1;
        }
    }

    /// Loads the saved state for `frame_to_load`, which must be a real frame
    /// less than [`MAX_PREDICTION_FRAMES`] behind the current one and present
    /// in the ring. The current frame becomes `frame_to_load`, and the head
    /// is left one slot before the loaded entry, so that the next save — the
    /// re-saved snapshot of the just-loaded frame — lands in the very slot
    /// the loaded state came from.
    pub fn load_frame(&mut self, frame_to_load: FrameNumber) -> (r: &GameState)
        requires
            old(self).inv(),
            frame_to_load >= 0,
            frame_to_load < old(self)@.current,
            frame_to_load >= old(self)@.current - MAX_PREDICTION_FRAMES,
            exists|i: int|
                0 <= i < MAX_PREDICTION_FRAMES && (#[trigger] old(self)@.saved[i]).frame
                    == frame_to_load,
        ensures
            final(self).inv(),
            final(self)@.current == frame_to_load,
            final(self)@.saved == old(self)@.saved,
            final(self)@.queues == old(self)@.queues,
            final(self)@.last_confirmed == old(self)@.last_confirmed,
            final(self)@.num_players == old(self)@.num_players,
            final(self)@.input_size == old(self)@.input_size,
            final(self)@.rolling_back == old(self)@.rolling_back,
            r@.frame == frame_to_load,
            exists|p: int|
                {
                    &&& 0 <= p < MAX_PREDICTION_FRAMES
                    &&& (#[trigger] old(self)@.saved[p]).frame == frame_to_load
                    &&& forall|j: int| 0 <= j < p ==> old(self)@.saved[j].frame != frame_to_load
                    &&& final(self)@.head == (p + MAX_PREDICTION_FRAMES - 1) % (
                        MAX_PREDICTION_FRAMES as int)
                    &&& r@ == old(self)@.saved[p]
                },
    {
        let idx = self.find_saved_frame_index(frame_to_load);
        self.saved_states.head = (idx + (MAX_PREDICTION_FRAMES as usize) - 1) % (
            MAX_PREDICTION_FRAMES as usize);
        self.current_frame = frame_to_load;
        proof {
            assert(final(self)@.saved =~= old(self)@.saved);
            assert(final(self)@.queues =~~= old(self)@.queues);
        }
        &self.saved_states.states[idx]
    }

    /// Records a local input for the current frame in the player's queue,
    /// unless that would run more than [`MAX_PREDICTION_FRAMES`] ahead of the
    /// last confirmed frame, in which case nothing changes and
    /// [`GGEZError::PredictionThreshold`] comes back. On success the frame
    /// the input was stored at (the submitted frame plus the player's delay)
    /// is returned. This is the only flow-control error in the layer: it
    /// fires exactly when the gap already exceeded the bound before the call.
    pub fn add_local_input(&mut self, player_handle: PlayerHandle, input: &GameInput) -> (r:
        Result<FrameNumber, GGEZError>)
        requires
            old(self).inv(),
            player_handle < old(self)@.num_players,
            input@.frame == old(self)@.current,
            input@.bits.len() == old(self)@.input_size,
            !prediction_threshold_reached(old(self)@.current, old(self)@.last_confirmed) ==> {
                let q = old(self)@.queues[player_handle as int];
                (q.last_user_added == -1 || input@.frame == q.last_user_added + 1) && input@.frame
                    + q.delay <= i32::MAX
            },
        ensures
            final(self).inv(),
            r is Err <==> prediction_threshold_reached(
                old(self)@.current,
                old(self)@.last_confirmed,
            ),
            r is Err ==> (r matches Err(GGEZError::PredictionThreshold)) && final(self)@ == old(
                self,
            )@,
            r matches Ok(t) ==> {
                &&& t as int == input@.frame + old(self)@.queues[player_handle as int].delay
                &&& same_but_queues(final(self)@, old(self)@)
                &&& final(self)@.queues == old(self)@.queues.update(
                    player_handle as int,
                    added(
                        old(self)@.queues[player_handle as int],
                        input@.frame,
                        input@.bits,
                    ),
                )
            },
    {
        let behind: i64 = (self.current_frame as i64) - (self.last_confirmed_frame as i64);
        if behind > MAX_PREDICTION_FRAMES as i64 {
            return Err(GGEZError::PredictionThreshold);
        }
        let t = self.input_queues[player_handle].add_input(input);
        proof {
            assert(final(self)@.queues =~~= old(self)@.queues.update(
                player_handle as int,
                added(old(self)@.queues[player_handle as int], input@.frame, input@.bits),
            ));
        }
        Ok(t)
    }

    /// Records a remote input for the player's queue. Remote inputs skip the
    /// prediction-threshold gate: the sending peer already applied it.
    pub fn add_remote_input(&mut self, player_handle: PlayerHandle, input: &GameInput)
        requires
            old(self).inv(),
            player_handle < old(self)@.num_players,
            input@.frame >= 0,
            input@.bits.len() == old(self)@.input_size,
            old(self)@.queues[player_handle as int].last_user_added == -1 || input@.frame == old(
                self,
            )@.queues[player_handle as int].last_user_added + 1,
            input@.frame + old(self)@.queues[player_handle as int].delay <= i32::MAX,
        ensures
            final(self).inv(),
            same_but_queues(final(self)@, old(self)@),
            final(self)@.queues == old(self)@.queues.update(
                player_handle as int,
                added(old(self)@.queues[player_handle as int], input@.frame, input@.bits),
            ),
    {
        let _ = self.input_queues[player_handle].add_input(input);
        proof {
            assert(final(self)@.queues =~~= old(self)@.queues.update(
                player_handle as int,
                added(old(self)@.queues[player_handle as int], input@.frame, input@.bits),
            ));
        }
    }

    /// Returns one input per player for the current frame, predicting where
    /// the authoritative input has not arrived yet.
    pub fn synchronized_inputs(&mut self) -> (r: Vec<GameInput>)
        requires
            old(self).inv(),
        ensures
            final(self).inv(),
            same_but_queues(final(self)@, old(self)@),
            r@.len() == old(self)@.num_players,
            forall|i: int|
                0 <= i < r@.len() ==> (#[trigger] r@[i])@.frame == old(self)@.current && r@[i]@.bits
                    == query_bits(old(self)@.queues[i], old(self)@.current),
            final(self)@.queues.len() == old(self)@.queues.len(),
            forall|i: int|
                0 <= i < old(self)@.queues.len() ==> #[trigger] final(self)@.queues[i] == queried(
                    old(self)@.queues[i],
                    old(self)@.current,
                ),
    {
        let n = self.num_players as usize;
        let mut inputs: Vec<GameInput> = Vec::new();
        let mut i: usize = 0;
        while i < n
            invariant
                i <= n,
                n == old(self).input_queues@.len(),
                self.num_players == old(self).num_players,
                self.input_size == old(self).input_size,
                self.saved_states == old(self).saved_states,
                self.rolling_back == old(self).rolling_back,
                self.last_confirmed_frame == old(self).last_confirmed_frame,
                self.current_frame == old(self).current_frame,
                self.input_queues@.len() == n,
                old(self).inv(),
                inputs@.len() == i,
                forall|j: int|
                    0 <= j < i ==> (#[trigger] inputs@[j])@.frame == old(self)@.current
                        && inputs@[j]@.bits == query_bits(
                        old(self)@.queues[j],
                        old(self)@.current,
                    ),
                forall|j: int|
                    0 <= j < i ==> (#[trigger] self.input_queues@[j]).inv()
                        && self.input_queues@[j]@ == queried(
                        old(self)@.queues[j],
                        old(self)@.current,
                    ),
                forall|j: int|
                    i <= j < n ==> #[trigger] self.input_queues@[j]
                        == old(self).input_queues@[j],
            decreases n - i,
        {
            let g = self.input_queues[i].input(self.current_frame);
            inputs.push(g);
            i = i + 1;
        }
        inputs
    }

    /// Returns the authoritative input of every player for the current
    /// frame. Every queue must actually hold one.
    pub fn confirmed_inputs(&self) -> (r: Vec<GameInput>)
        requires
            self.inv(),
            forall|i: int|
                0 <= i < self@.queues.len() ==> stored_has(#[trigger] self@.queues[i], self@.current),
        ensures
            r@.len() == self@.num_players,
            forall|i: int|
                0 <= i < r@.len() ==> (#[trigger] r@[i])@.frame == self@.current && r@[i]@.bits
                    == self@.queues[i].stored[self@.current - self@.queues[i].first],
    {
        let n = self.num_players as usize;
        let mut inputs: Vec<GameInput> = Vec::new();
        let mut i: usize = 0;
        while i < n
            invariant
                i <= n,
                n == self.input_queues@.len(),
                self.inv(),
                forall|j: int|
                    0 <= j < self@.queues.len() ==> stored_has(
                        #[trigger] self@.queues[j],
                        self@.current,
                    ),
                inputs@.len() == i,
                forall|j: int|
                    0 <= j < i ==> (#[trigger] inputs@[j])@.frame == self@.current
                        && inputs@[j]@.bits == self@.queues[j].stored[self@.current
                        - self@.queues[j].first],
            decreases n - i,
        {
            proof {
                assert(stored_has(self@.queues[i as int], self@.current));
                assert(self.input_queues@[i as int]@ == self@.queues[i as int]);
            }
            let g = self.input_queues[i].confirmed_input(self.current_frame);
            inputs.push(g);
            i = i + 1;
        }
        inputs
    }

    /// Raises the last confirmed frame to `frame` and, when `frame > 0`,
    /// discards every queue's stored inputs below `frame - 1`: they can never
    /// be rolled past again.
    pub fn set_last_confirmed_frame(&mut self, frame: FrameNumber)
        requires
            old(self).inv(),
            frame >= -1,
        ensures
            final(self).inv(),
            final(self)@.last_confirmed == frame,
            final(self)@.current == old(self)@.current,
            final(self)@.saved == old(self)@.saved,
            final(self)@.head == old(self)@.head,
            final(self)@.num_players == old(self)@.num_players,
            final(self)@.input_size == old(self)@.input_size,
            final(self)@.rolling_back == old(self)@.rolling_back,
            final(self)@.queues.len() == old(self)@.queues.len(),
            forall|i: int|
                0 <= i < old(self)@.queues.len() ==> #[trigger] final(self)@.queues[i] == (if frame
                    > 0 {
                    discarded(old(self)@.queues[i], frame - 1)
                } else {
                    old(self)@.queues[i]
                }),
    {
        self.last_confirmed_frame = frame;
        if frame > 0 {
            let n = self.num_players as usize;
            let mut i: usize = 0;
            while i < n
                invariant
                    i <= n,
                    n == old(self).input_queues@.len(),
                    frame > 0,
                    self.num_players == old(self).num_players,
                    self.input_size == old(self).input_size,
                    self.saved_states == old(self).saved_states,
                    self.rolling_back == old(self).rolling_back,
                    self.last_confirmed_frame == frame,
                    self.current_frame == old(self).current_frame,
                    self.input_queues@.len() == n,
                    old(self).inv(),
                    forall|j: int|
                        0 <= j < i ==> (#[trigger] self.input_queues@[j]).inv()
                            && self.input_queues@[j]@ == discarded(
                            old(self).input_queues@[j]@,
                            frame - 1,
                        ),
                    forall|j: int|
                        i <= j < n ==> #[trigger] self.input_queues@[j]
                            == old(self).input_queues@[j],
                decreases n - i,
            {
                self.input_queues[i].discard_confirmed_frames(frame - 1);
                i = i + 1;
            }
        }
    }

    /// The ring index of the saved state tagged with `frame`, which must be
    /// present; the smallest matching index is returned.
    pub fn find_saved_frame_index(&self, frame: FrameNumber) -> (r: usize)
        requires
            self.inv(),
            exists|i: int|
                0 <= i < MAX_PREDICTION_FRAMES && (#[trigger] self@.saved[i]).frame == frame,
        ensures
            r < MAX_PREDICTION_FRAMES,
            self@.saved[r as int].frame == frame,
            forall|j: int| 0 <= j < r ==> self@.saved[j].frame != frame,
    {
        let cap: usize = MAX_PREDICTION_FRAMES as usize;
        let mut i: usize = 0;
        while i < cap
            invariant
                i <= cap,
                cap == MAX_PREDICTION_FRAMES,
                self.inv(),
                forall|j: int| 0 <= j < i ==> self@.saved[j].frame != frame,
            decreases cap - i,
        {
            if self.saved_states.states[i].frame == frame {
                return i;
            }
            i = i + 1;
        }
        proof {
            assert(false);
        }
        0
    }
}

/// A save right after a load lands in the slot the loaded state came from:
/// [`SyncLayer::load_frame`] leaves the head one slot before the loaded slot
/// `p`, and [`SyncLayer::save_current_state`] advances the head before it
/// stores, so the next save's slot is `p` itself.
pub proof fn lemma_save_after_load_slot(p: int)
    requires
        0 <= p < MAX_PREDICTION_FRAMES,
    ensures
        ((p + MAX_PREDICTION_FRAMES - 1) % (MAX_PREDICTION_FRAMES as int) + 1) % (
        MAX_PREDICTION_FRAMES as int) == p,
{
    let cap = MAX_PREDICTION_FRAMES as int;
    vstd::arithmetic::div_mod::lemma_add_mod_noop(p + cap - 1, 1, cap);
    vstd::arithmetic::div_mod::lemma_small_mod(1nat, cap as nat);
    vstd::arithmetic::div_mod::lemma_mod_add_multiples_vanish(p, cap);
    vstd::arithmetic::div_mod::lemma_small_mod(p as nat, cap as nat);
}

/// When the saved frames are pairwise distinct, each frame lives in exactly
/// one ring slot, so a saved snapshot is recovered exactly: combined with
/// the contract of [`SyncLayer::find_saved_frame_index`] — whose result slot
/// carries the requested frame — the lookup for `saved[i].frame` can only
/// return `i`, and the state found there is the one that was saved.
pub proof fn lemma_find_distinct(saved: Seq<StateModel>, i: int, f: int)
    requires
        forall|a: int, b: int|
            0 <= a < b < saved.len() ==> (#[trigger] saved[a]).frame != (#[trigger] saved[
                b]).frame,
        0 <= i < saved.len(),
        saved[i].frame == f,
    ensures
        forall|r: int| 0 <= r < saved.len() && (#[trigger] saved[r]).frame == f ==> r == i,
{
    assert forall|r: int| 0 <= r < saved.len() && (#[trigger] saved[r]).frame == f implies r
        == i by {
        if r < i {
            assert(saved[r].frame != saved[i].frame);
        } else if r > i {
            assert(saved[i].frame != saved[r].frame);
        }
    }
}

} // verus!
