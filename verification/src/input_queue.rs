//! Per-player input queue: frame-indexed storage of authoritative inputs with
//! input delay, plus the prediction and confirmation bookkeeping the sync
//! layer relies on.

use vstd::prelude::*;

use crate::frame_info::{bits_equal, clone_bytes, zero_bits, GameInput};
use crate::FrameNumber;
use crate::MAX_INPUT_DELAY;
use crate::NULL_FRAME;

verus! {

/// Mathematical value of the prediction record: the lowest frame it has been
/// handed out for and the bits it was synthesized with.
#[verifier::ext_equal]
pub ghost struct PredictionModel {
    pub frame: int,
    pub bits: Seq<u8>,
}

/// Mathematical value of an [`InputQueue`].
///
/// Stored authoritative inputs occupy the consecutive frames
/// `first, first + 1, ..., first + stored.len() - 1`; `stored[i]` holds the
/// bits for frame `first + i`. `first` is `-1` while nothing is stored.
/// The bookkeeping frames use `-1` (the model image of [`NULL_FRAME`]) for
/// "unset".
#[verifier::ext_equal]
pub ghost struct QueueModel {
    pub input_size: int,
    pub delay: int,
    pub first: int,
    pub stored: Seq<Seq<u8>>,
    pub last_user_added: int,
    pub first_incorrect: int,
    pub last_requested: int,
    pub prediction: Option<PredictionModel>,
}

/// The queue's invariant, at the model level.
pub open spec fn q_inv(m: QueueModel) -> bool {
    &&& 0 <= m.delay <= MAX_INPUT_DELAY
    &&& m.input_size >= 0
    &&& forall|i: int| 0 <= i < m.stored.len() ==> (#[trigger] m.stored[i]).len() == m.input_size
    &&& m.last_user_added >= -1
    &&& m.first_incorrect >= -1
    &&& m.last_requested >= -1
    &&& m.stored.len() > 0 ==> m.first >= 0 && m.first + m.stored.len() - 1 == m.last_user_added
        + m.delay
    &&& m.stored.len() == 0 ==> m.first == -1
    &&& m.last_user_added == -1 ==> m.stored.len() == 0 && m.first_incorrect == -1
    &&& m.last_user_added >= 0 ==> m.last_user_added + m.delay <= i32::MAX
    &&& m.first_incorrect >= 0 ==> m.last_user_added >= 0 && m.first_incorrect
        <= m.last_user_added + m.delay
    &&& match m.prediction {
        Some(p) => p.bits.len() == m.input_size && 0 <= p.frame && p.frame <= m.last_requested,
        None => true,
    }
}

/// The model of a queue that has seen no traffic yet.
pub open spec fn fresh_queue(input_size: int) -> QueueModel {
    QueueModel {
        input_size,
        delay: 0,
        first: -1,
        stored: Seq::empty(),
        last_user_added: -1,
        first_incorrect: -1,
        last_requested: -1,
        prediction: None,
    }
}

/// Effect of [`InputQueue::add_input`] on the model: the input submitted for
/// user frame `frame` is stored at frame `frame + delay`; if the stored frame
/// was covered by the prediction, the bits are compared and a mismatch is
/// recorded in `first_incorrect`; once the stored frames have caught up with
/// `last_requested` without a recorded mismatch, the prediction is retired.
pub open spec fn added(m: QueueModel, frame: int, bits: Seq<u8>) -> QueueModel {
    let t = frame + m.delay;
    let covered = match m.prediction {
        Some(p) => p.frame <= t && t <= m.last_requested,
        None => false,
    };
    let mismatch = match m.prediction {
        Some(p) => covered && p.bits != bits,
        None => false,
    };
    let fi = if m.first_incorrect == -1 && mismatch {
        t
    } else {
        m.first_incorrect
    };
    let pred = match m.prediction {
        Some(p) => if t >= m.last_requested && fi == -1 {
            None
        } else {
            Some(p)
        },
        None => None,
    };
    QueueModel {
        input_size: m.input_size,
        delay: m.delay,
        first: if m.stored.len() == 0 {
            t
        } else {
            m.first
        },
        stored: m.stored.push(bits),
        last_user_added: frame,
        first_incorrect: fi,
        last_requested: m.last_requested,
        prediction: pred,
    }
}

/// True when the queue holds an authoritative input for frame `f`.
pub open spec fn stored_has(m: QueueModel, f: int) -> bool {
    m.stored.len() > 0 && m.first <= f < m.first + m.stored.len()
}

/// The bits [`InputQueue::input`] returns for frame `f`: the stored input if
/// there is one, else the prediction's bits, else the bits of the most recent
/// authoritative input, else zeroes.
pub open spec fn query_bits(m: QueueModel, f: int) -> Seq<u8> {
    if stored_has(m, f) {
        m.stored[f - m.first]
    } else {
        match m.prediction {
            Some(p) => p.bits,
            None => if m.stored.len() > 0 {
                m.stored.last()
            } else {
                zero_bits(m.input_size)
            },
        }
    }
}

/// Effect of [`InputQueue::input`] on the model: `last_requested` rises to
/// `f`, and if frame `f` had to be predicted, the prediction handed out is
/// remembered; a query below an existing prediction's origin frame lowers
/// that origin to `f`, so the later authoritative input for `f` is still
/// checked against the bits that were handed out.
pub open spec fn queried(m: QueueModel, f: int) -> QueueModel {
    let lr = if f > m.last_requested {
        f
    } else {
        m.last_requested
    };
    let pred = if stored_has(m, f) {
        m.prediction
    } else {
        match m.prediction {
            Some(p) => Some(PredictionModel {
                frame: if f < p.frame {
                    f
                } else {
                    p.frame
                },
                bits: p.bits,
            }),
            None => Some(PredictionModel { frame: f, bits: query_bits(m, f) }),
        }
    };
    QueueModel {
        input_size: m.input_size,
        delay: m.delay,
        first: m.first,
        stored: m.stored,
        last_user_added: m.last_user_added,
        first_incorrect: m.first_incorrect,
        last_requested: lr,
        prediction: pred,
    }
}

/// How many stored inputs [`InputQueue::discard_confirmed_frames`] drops:
/// every stored frame below the argument, clamped so that frames from
/// `last_requested` on always stay.
pub open spec fn discard_count(m: QueueModel, frame: int) -> int {
    let eff = if m.last_requested != -1 && m.last_requested < frame {
        m.last_requested
    } else {
        frame
    };
    if m.stored.len() == 0 || eff <= m.first {
        0
    } else if eff - m.first > m.stored.len() {
        m.stored.len() as int
    } else {
        eff - m.first
    }
}

/// Effect of [`InputQueue::discard_confirmed_frames`] on the model.
pub open spec fn discarded(m: QueueModel, frame: int) -> QueueModel {
    let k = discard_count(m, frame);
    QueueModel {
        input_size: m.input_size,
        delay: m.delay,
        first: if k == m.stored.len() {
            -1
        } else {
            m.first + k
        },
        stored: m.stored.skip(k),
        last_user_added: m.last_user_added,
        first_incorrect: m.first_incorrect,
        last_requested: m.last_requested,
        prediction: m.prediction,
    }
}

/// Effect of [`InputQueue::reset_prediction`] on the model: the prediction
/// state is wound back to just before `frame`.
pub open spec fn reset(m: QueueModel, frame: int) -> QueueModel {
    QueueModel {
        input_size: m.input_size,
        delay: m.delay,
        first: m.first,
        stored: m.stored,
        last_user_added: m.last_user_added,
        first_incorrect: -1,
        last_requested: frame - 1,
        prediction: None,
    }
}

/// One player's input queue.
///
/// Records authoritative inputs, hands out the input to feed the simulation
/// at any requested frame — synthesizing a prediction when the authoritative
/// one has not arrived — and tracks the first frame at which a handed-out
/// prediction was later contradicted.
#[derive(Debug)]
pub struct InputQueue {
    input_size: usize,
    frame_delay: u32,
    inputs: Vec<GameInput>,
    last_user_added_frame: FrameNumber,
    first_incorrect_frame: FrameNumber,
    last_requested_frame: FrameNumber,
    prediction: Option<GameInput>,
}

impl View for InputQueue {
    type V = QueueModel;

    closed spec fn view(&self) -> QueueModel {
        QueueModel {
            input_size: self.input_size as int,
            delay: self.frame_delay as int,
            first: if self.inputs.len() > 0 {
                self.inputs@[0].frame as int
            } else {
                -1
            },
            stored: self.inputs@.map_values(|g: GameInput| g.bits@),
            last_user_added: self.last_user_added_frame as int,
            first_incorrect: self.first_incorrect_frame as int,
            last_requested: self.last_requested_frame as int,
            prediction: match self.prediction {
                Some(g) => Some(PredictionModel { frame: g.frame as int, bits: g.bits@ }),
                None => None,
            },
        }
    }
}

impl InputQueue {
    /// Full invariant: the model invariant plus the representation facts that
    /// stored inputs carry consecutive frame tags.
    pub closed spec fn inv(&self) -> bool {
        &&& q_inv(self@)
        &&& forall|i: int| 0 <= i < self.inputs@.len() ==> (#[trigger] self.inputs@[i]).frame
            == self.inputs@[0].frame + i
    }

    /// The invariant implies the model-level invariant.
    pub proof fn lemma_inv(&self)
        requires
            self.inv(),
        ensures
            q_inv(self@),
    {
    }

    /// An empty queue for inputs of `input_size` bytes, with no delay.
    pub fn new(input_size: usize) -> (q: InputQueue)
        ensures
            q.inv(),
            q@ == fresh_queue(input_size as int),
    {
        let q = InputQueue {
            input_size,
            frame_delay: 0,
            inputs: Vec::new(),
            last_user_added_frame: NULL_FRAME,
            first_incorrect_frame: NULL_FRAME,
            last_requested_frame: NULL_FRAME,
            prediction: None,
        };
        proof {
            assert(q@ =~~= fresh_queue(input_size as int));
        }
        q
    }

    /// Sets the input delay. Only allowed before the queue has seen any
    /// input, which the sessions above guarantee by fixing delays before the
    /// session starts.
    pub fn set_frame_delay(&mut self, delay: u32)
        requires
            old(self).inv(),
            delay <= MAX_INPUT_DELAY,
            old(self)@.last_user_added == -1,
        ensures
            final(self).inv(),
            final(self)@ == (QueueModel { delay: delay as int, ..old(self)@ }),
    {
        self.frame_delay = delay;
        proof {
            assert(final(self)@ =~~= (QueueModel { delay: delay as int, ..old(self)@ }));
        }
    }

    /// Stores the input submitted for user frame `input.frame` at frame
    /// `input.frame + delay` and returns that frame. Submissions must arrive
    /// for consecutive user frames. If the stored frame had been handed out
    /// as a prediction, the bits are compared and the first mismatch is
    /// remembered in `first_incorrect`.
    pub fn add_input(&mut self, input: &GameInput) -> (r: FrameNumber)
        requires
            old(self).inv(),
            input.frame >= 0,
            input.bits@.len() == old(self)@.input_size,
            old(self)@.last_user_added == -1 || input@.frame == old(self)@.last_user_added + 1,
            input@.frame + old(self)@.delay <= i32::MAX,
        ensures
            final(self).inv(),
            final(self)@ == added(old(self)@, input@.frame, input@.bits),
            r as int == input@.frame + old(self)@.delay,
    {
        let t: i32 = input.frame + (self.frame_delay as i32);
        let mut mismatch = false;
        let mut catch_up = false;
        match &self.prediction {
            Some(p) => {
                if p.frame <= t && t <= self.last_requested_frame {
                    if !bits_equal(&p.bits, &input.bits) {
                        mismatch = true;
                    }
                }
                if t >= self.last_requested_frame {
                    catch_up = true;
                }
            },
            None => {},
        }
        if mismatch && self.first_incorrect_frame == NULL_FRAME {
            self.first_incorrect_frame = t;
        }
        if catch_up && self.first_incorrect_frame == NULL_FRAME {
            self.prediction = None;
        }
        self.inputs.push(GameInput { frame: t, bits: clone_bytes(&input.bits) });
        self.last_user_added_frame = input.frame;
        proof {
            assert(final(self)@ =~~= added(old(self)@, input@.frame, input@.bits));
        }
        t
    }

    /// Returns the input to feed the simulation at `requested_frame`: the
    /// stored authoritative input if there is one, else a prediction carrying
    /// the requested frame. A freshly synthesized prediction is remembered.
    pub fn input(&mut self, requested_frame: FrameNumber) -> (r: GameInput)
        requires
            old(self).inv(),
            requested_frame >= 0,
        ensures
            final(self).inv(),
            final(self)@ == queried(old(self)@, requested_frame as int),
            r@.frame == requested_frame,
            r@.bits == query_bits(old(self)@, requested_frame as int),
    {
        if requested_frame > self.last_requested_frame {
            self.last_requested_frame = requested_frame;
        }
        proof {
            assert(self@ =~~= (QueueModel {
                last_requested: queried(old(self)@, requested_frame as int).last_requested,
                ..old(self)@
            }));
        }
        if self.inputs.len() > 0 {
            let first: i32 = self.inputs[0].frame;
            if requested_frame >= first && ((requested_frame - first) as usize)
                < self.inputs.len() {
                let idx: usize = (requested_frame - first) as usize;
                let bits = clone_bytes(&self.inputs[idx].bits);
                proof {
                    assert(final(self)@ =~~= queried(old(self)@, requested_frame as int));
                }
                return GameInput { frame: requested_frame, bits };
            }
        }
        match &self.prediction {
            Some(p) => {
                let bits = clone_bytes(&p.bits);
                let origin: FrameNumber = p.frame;
                if requested_frame < origin {
                    self.prediction = Some(
                        GameInput { frame: requested_frame, bits: clone_bytes(&bits) },
                    );
                }
                proof {
                    assert(final(self)@ =~~= queried(old(self)@, requested_frame as int));
                }
                return GameInput { frame: requested_frame, bits };
            },
            None => {},
        }
        let bits = if self.inputs.len() > 0 {
            clone_bytes(&self.inputs[self.inputs.len() - 1].bits)
        } else {
            let blank = GameInput::new(requested_frame, self.input_size);
            blank.bits
        };
        self.prediction = Some(GameInput { frame: requested_frame, bits: clone_bytes(&bits) });
        proof {
            assert(self@.stored.len() > 0 ==> self@.stored.last() == self.inputs@[
                self.inputs@.len() - 1].bits@);
            assert(final(self)@ =~~= queried(old(self)@, requested_frame as int));
        }
        GameInput { frame: requested_frame, bits }
    }

    /// Returns the authoritative input stored at `frame`. The caller must
    /// have made sure one is there.
    pub fn confirmed_input(&self, frame: FrameNumber) -> (r: GameInput)
        requires
            self.inv(),
            stored_has(self@, frame as int),
        ensures
            r@.frame == frame,
            r@.bits == self@.stored[frame - self@.first],
    {
        let first: i32 = self.inputs[0].frame;
        let idx: usize = (frame - first) as usize;
        let bits = clone_bytes(&self.inputs[idx].bits);
        GameInput { frame, bits }
    }

    /// Drops every stored input whose frame lies strictly below `frame`,
    /// except that frames from `last_requested` on are never dropped.
    pub fn discard_confirmed_frames(&mut self, frame: FrameNumber)
        requires
            old(self).inv(),
        ensures
            final(self).inv(),
            final(self)@ == discarded(old(self)@, frame as int),
    {
        let mut eff: i32 = frame;
        if self.last_requested_frame != NULL_FRAME && self.last_requested_frame < frame {
            eff = self.last_requested_frame;
        }
        while self.inputs.len() > 0 && self.inputs[0].frame < eff
            invariant
                old(self).inv(),
                self.input_size == old(self).input_size,
                self.frame_delay == old(self).frame_delay,
                self.last_user_added_frame == old(self).last_user_added_frame,
                self.first_incorrect_frame == old(self).first_incorrect_frame,
                self.last_requested_frame == old(self).last_requested_frame,
                self.prediction == old(self).prediction,
                self.inputs@ == old(self).inputs@.skip(
                    old(self).inputs@.len() - self.inputs@.len(),
                ),
                self.inputs@.len() <= old(self).inputs@.len(),
                forall|i: int|
                    0 <= i < old(self).inputs@.len() - self.inputs@.len()
                        ==> (#[trigger] old(self).inputs@[i]).frame < eff,
                eff == if old(self)@.last_requested != -1 && old(self)@.last_requested
                    < frame { old(self)@.last_requested } else { frame as int },
            decreases self.inputs@.len(),
        {
            proof {
                let dropped = old(self).inputs@.len() - self.inputs@.len();
                assert(self.inputs@[0] == old(self).inputs@[dropped]);
                assert(old(self).inputs@.skip(dropped).remove(0) =~= old(self).inputs@.skip(
                    dropped + 1,
                ));
            }
            self.inputs.remove(0);
        }
        proof {
            let m = old(self)@;
            let k = discard_count(m, frame as int);
            let dropped = old(self).inputs@.len() - self.inputs@.len();
            if self.inputs@.len() > 0 {
                assert(self.inputs@[0] == old(self).inputs@[dropped]);
                assert(old(self).inputs@[dropped].frame == m.first + dropped);
            }
            if dropped > 0 {
                assert(old(self).inputs@[dropped - 1].frame == m.first + dropped - 1);
            }
            assert(dropped == k);
            assert(self@.stored =~= m.stored.skip(k));
            assert(final(self)@ =~~= discarded(m, frame as int));
        }
    }

    /// The first frame at which a handed-out prediction was later
    /// contradicted by the authoritative input; [`NULL_FRAME`] while no
    /// contradiction has been seen.
    pub fn first_incorrect_frame(&self) -> (r: FrameNumber)
        ensures
            r as int == self@.first_incorrect,
    {
        self.first_incorrect_frame
    }

    /// Clears the prediction state from `frame` forward: the prediction and
    /// the first incorrect frame are forgotten and `last_requested` is wound
    /// back to `frame - 1`. Stored authoritative inputs are untouched.
    pub fn reset_prediction(&mut self, frame: FrameNumber)
        requires
            old(self).inv(),
            frame >= 0,
        ensures
            final(self).inv(),
            final(self)@ == reset(old(self)@, frame as int),
    {
        self.prediction = None;
        self.first_incorrect_frame = NULL_FRAME;
        self.last_requested_frame = frame - 1;
        proof {
            assert(final(self)@ =~~= reset(old(self)@, frame as int));
        }
    }
}

/// While a prediction is active, a query for any frame that has no stored
/// authoritative input hands out exactly the prediction's bits, and the
/// record keeps those bits — only its origin frame can drop, to the queried
/// frame — so every frame answered by prediction was answered with the same
/// bits, and the record's origin ends up at or below every such frame.
pub proof fn lemma_prediction_bits_handed_out(m: QueueModel, f: int, pf: int, pb: Seq<u8>)
    requires
        m.prediction == Some(PredictionModel { frame: pf, bits: pb }),
        !stored_has(m, f),
    ensures
        query_bits(m, f) == pb,
        queried(m, f).prediction == Some(PredictionModel {
            frame: if f < pf {
                f
            } else {
                pf
            },
            bits: pb,
        }),
{
}

/// A prediction handed out for a frame is checked when that frame's
/// authoritative input arrives: if the submitted bits equal the prediction's,
/// `first_incorrect` is left exactly as it was; if they differ, a first
/// incorrect frame is recorded and lies no later than the stored frame.
/// Since a query below the prediction's origin lowers the origin to the
/// queried frame, the premise here — origin at or below the stored frame, at
/// or below `last_requested` — holds of every frame a prediction was ever
/// handed out for.
pub proof fn lemma_prediction_check(m: QueueModel, frame: int, bits: Seq<u8>, pf: int, pb: Seq<
    u8>)
    requires
        q_inv(m),
        frame >= 0,
        m.last_user_added == -1 || frame == m.last_user_added + 1,
        m.prediction == Some(PredictionModel { frame: pf, bits: pb }),
        pf <= frame + m.delay,
        frame + m.delay <= m.last_requested,
    ensures
        bits == pb ==> added(m, frame, bits).first_incorrect == m.first_incorrect,
        bits != pb ==> added(m, frame, bits).first_incorrect != -1 && added(
            m,
            frame,
            bits,
        ).first_incorrect <= frame + m.delay,
{
}

/// `models[i]` is the queue after the first `i` of the submissions
/// `bits[0], bits[1], ...` at user frames `0, 1, ...`.
pub open spec fn adds_from_zero(models: Seq<QueueModel>, bits: Seq<Seq<u8>>) -> bool {
    &&& models.len() == bits.len() + 1
    &&& forall|i: int|
        0 <= i < bits.len() ==> #[trigger] models[i + 1] == added(models[i], i, bits[i])
}

/// After setting delay `d` on a queue that has seen no traffic, submissions
/// at user frames `0, 1, ..., k` leave the queue holding exactly the frames
/// `d, d + 1, ..., k + d`, in order, with the submitted bits.
pub proof fn lemma_delay_storage(models: Seq<QueueModel>, bits: Seq<Seq<u8>>, d: int, n: int)
    requires
        0 <= d,
        adds_from_zero(models, bits),
        models[0] == (QueueModel { delay: d, ..fresh_queue(models[0].input_size) }),
        0 <= n < models.len(),
    ensures
        models[n].stored.len() == n,
        models[n].delay == d,
        models[n].last_user_added == n - 1,
        n >= 1 ==> models[n].first == d,
        forall|j: int| 0 <= j < n ==> #[trigger] models[n].stored[j] == bits[j],
    decreases n,
{
    if n > 0 {
        lemma_delay_storage(models, bits, d, n - 1);
        assert(models[(n - 1) + 1] == added(models[n - 1], n - 1, bits[n - 1]));
    }
}

/// Delay round trip: an input submitted for user frame `f` is stored at
/// frame `f + delay`, and querying that frame hands the same bits back.
pub proof fn lemma_delay_round_trip(m: QueueModel, frame: int, bits: Seq<u8>)
    requires
        q_inv(m),
        frame >= 0,
        bits.len() == m.input_size,
        m.last_user_added == -1 || frame == m.last_user_added + 1,
    ensures
        stored_has(added(m, frame, bits), frame + m.delay),
        query_bits(added(m, frame, bits), frame + m.delay) == bits,
{
    let m2 = added(m, frame, bits);
    assert(m2.stored[frame + m.delay - m2.first] == bits);
}

} // verus!
