//! The two value records the engine moves around: one player's input for one
//! frame, and one snapshot of the game state.

use vstd::prelude::*;

use crate::FrameNumber;
use crate::NULL_FRAME;

verus! {

/// Mathematical value of a [`GameInput`].
pub ghost struct InputModel {
    pub frame: int,
    pub bits: Seq<u8>,
}

/// Mathematical value of a [`GameState`].
pub ghost struct StateModel {
    pub frame: int,
    pub buffer: Seq<u8>,
    pub checksum: Option<u64>,
}

/// A byte sequence of length `n` holding only zeroes.
pub open spec fn zero_bits(n: int) -> Seq<u8> {
    Seq::new(n as nat, |i: int| 0u8)
}

/// One player's input for one frame: the frame it belongs to and an opaque
/// byte payload of the session's fixed input size.
#[derive(Debug)]
pub struct GameInput {
    /// The frame this input belongs to; [`NULL_FRAME`] for a blank input.
    pub frame: FrameNumber,
    /// The raw input payload, exactly `input_size` bytes for the session.
    pub bits: Vec<u8>,
}

impl View for GameInput {
    type V = InputModel;

    open spec fn view(&self) -> InputModel {
        InputModel { frame: self.frame as int, bits: self.bits@ }
    }
}

impl GameInput {
    /// A blank input for the given frame: `size` zero bytes.
    pub fn new(frame: FrameNumber, size: usize) -> (r: GameInput)
        ensures
            r@.frame == frame,
            r@.bits == zero_bits(size as int),
    {
        let mut bits: Vec<u8> = Vec::new();
        let mut i: usize = 0;
        while i < size
            invariant
                i <= size,
                bits@.len() == i,
                forall|j: int| 0 <= j < i ==> bits@[j] == 0u8,
            decreases size - i,
        {
            bits.push(0u8);
            i = i + 1;
        }
        proof {
            assert(bits@ =~= zero_bits(size as int));
        }
        GameInput { frame, bits }
    }

    /// Overwrites the payload with `bytes`; the frame tag is left alone.
    pub fn copy_input(&mut self, bytes: &[u8])
        requires
            bytes@.len() == old(self).bits@.len(),
        ensures
            final(self)@.frame == old(self)@.frame,
            final(self)@.bits == bytes@,
    {
        let n = bytes.len();
        let mut i: usize = 0;
        while i < n
            invariant
                i <= n,
                n == bytes@.len(),
                self.bits@.len() == n,
                self.frame == old(self).frame,
                forall|j: int| 0 <= j < i ==> self.bits@[j] == bytes@[j],
            decreases n - i,
        {
            let b = bytes[i];
            self.bits[i] = b;
            i = i + 1;
        }
        proof {
            assert(self.bits@ =~= bytes@);
        }
    }

    /// Zeroes the payload; the frame tag is left alone.
    pub fn erase_bits(&mut self)
        ensures
            final(self)@.frame == old(self)@.frame,
            final(self)@.bits == zero_bits(old(self).bits@.len() as int),
    {
        let n = self.bits.len();
        let mut i: usize = 0;
        while i < n
            invariant
                i <= n,
                self.bits@.len() == n,
                self.frame == old(self).frame,
                forall|j: int| 0 <= j < i ==> self.bits@[j] == 0u8,
            decreases n - i,
        {
            self.bits[i] = 0u8;
            i = i + 1;
        }
        proof {
            assert(self.bits@ =~= zero_bits(n as int));
        }
    }

    /// An independent copy with the same frame and payload.
    pub fn duplicate(&self) -> (r: GameInput)
        ensures
            r@ == self@,
    {
        GameInput { frame: self.frame, bits: clone_bytes(&self.bits) }
    }
}

/// An opaque snapshot of the game state, owned by the game host, tagged with
/// the frame it belongs to and an optional host-supplied checksum.
#[derive(Debug)]
pub struct GameState {
    /// The frame the snapshot belongs to; [`NULL_FRAME`] only for the blank
    /// slots the saved-state ring starts out with.
    pub frame: FrameNumber,
    /// The opaque state payload.
    pub buffer: Vec<u8>,
    /// Optional fingerprint of `buffer`, supplied by the host; the engine
    /// never computes it, only compares it.
    pub checksum: Option<u64>,
}

impl View for GameState {
    type V = StateModel;

    open spec fn view(&self) -> StateModel {
        StateModel { frame: self.frame as int, buffer: self.buffer@, checksum: self.checksum }
    }
}

impl GameState {
    /// The blank snapshot the saved-state ring is pre-filled with.
    pub fn blank() -> (r: GameState)
        ensures
            r@.frame == NULL_FRAME,
            r@.buffer == Seq::<u8>::empty(),
            r@.checksum is None,
    {
        GameState { frame: NULL_FRAME, buffer: Vec::new(), checksum: None }
    }

    /// An independent copy with the same frame, payload and checksum.
    pub fn duplicate(&self) -> (r: GameState)
        ensures
            r@ == self@,
    {
        GameState { frame: self.frame, buffer: clone_bytes(&self.buffer), checksum: self.checksum }
    }
}

/// An independent copy of a byte vector.
pub fn clone_bytes(src: &Vec<u8>) -> (r: Vec<u8>)
    ensures
        r@ == src@,
{
    let n = src.len();
    let mut out: Vec<u8> = Vec::new();
    let mut i: usize = 0;
    while i < n
        invariant
            i <= n,
            n == src@.len(),
            out@.len() == i,
            forall|j: int| 0 <= j < i ==> out@[j] == src@[j],
        decreases n - i,
    {
        out.push(src[i]);
        i = i + 1;
    }
    proof {
        assert(out@ =~= src@);
    }
    out
}

/// True exactly when the two payloads hold the same bytes.
pub fn bits_equal(a: &Vec<u8>, b: &Vec<u8>) -> (r: bool)
    ensures
        r <==> a@ == b@,
{
    if a.len() != b.len() {
        return false;
    }
    let n = a.len();
    let mut i: usize = 0;
    while i < n
        invariant
            i <= n,
            n == a@.len(),
            n == b@.len(),
            forall|j: int| 0 <= j < i ==> a@[j] == b@[j],
        decreases n - i,
    {
        if a[i] != b[i] {
            return false;
        }
        i = i + 1;
    }
    proof {
        assert(a@ =~= b@);
    }
    true
}

} // verus!
