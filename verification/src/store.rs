//! Per-session scratch storage for received chunk payloads, keyed by chunk
//! index. One store per session; released with the session.

use vstd::prelude::*;

verus! {

/// Holds the raw bytes of every received chunk until reassembly or
/// cancellation. A slot is `None` until its chunk arrives; a resend
/// overwrites the slot.
#[derive(Debug)]
pub struct ChunkStore {
    slots: Vec<Option<Vec<u8>>>,
}

impl View for ChunkStore {
    type V = Seq<Option<Seq<u8>>>;

    closed spec fn view(&self) -> Seq<Option<Seq<u8>>> {
        Seq::new(
            self.slots@.len(),
            |i: int|
                match self.slots@[i] {
                    Some(b) => Some(b@),
                    None => None,
                },
        )
    }
}

impl ChunkStore {
    /// A store with `total` empty slots.
    pub fn new(total: usize) -> (r: Self)
        ensures
            r@.len() == total,
            forall|i: int| 0 <= i < total ==> r@[i] is None,
    {
        let mut slots: Vec<Option<Vec<u8>>> = Vec::new();
        let mut filled: usize = 0;
        while filled < total
            invariant
                filled <= total,
                slots@.len() == filled,
                forall|i: int| 0 <= i < filled ==> slots@[i] is None,
            decreases total - filled,
        {
            slots.push(None);
            filled = filled + 1;
        }
        let r = ChunkStore { slots };
        proof {
            assert forall|i: int| 0 <= i < total implies r@[i] is None by {
                assert(r.slots@[i] is None);
            }
        }
        r
    }

    pub open spec fn len_spec(&self) -> int {
        self@.len() as int
    }

    pub fn len(&self) -> (r: usize)
        ensures
            r == self@.len(),
    {
        self.slots.len()
    }

    /// Whether the chunk at `index` has arrived.
    pub fn is_set(&self, index: usize) -> (r: bool)
        requires
            index < self@.len(),
        ensures
            r == (self@[index as int] is Some),
    {
        self.slots[index].is_some()
    }

    /// Stores `bytes` under `index`, replacing whatever was there.
    pub fn write(&mut self, index: usize, bytes: Vec<u8>)
        requires
            index < old(self)@.len(),
        ensures
            final(self)@ == old(self)@.update(index as int, Some(bytes@)),
    {
        self.slots[index] = Some(bytes);
        proof {
            assert(self@ =~= old(self)@.update(index as int, Some(bytes@)));
        }
    }

    /// The bytes stored under `index`.
    pub fn read(&self, index: usize) -> (r: &Vec<u8>)
        requires
            index < self@.len(),
            self@[index as int] is Some,
        ensures
            Some(r@) == self@[index as int],
    {
        match &self.slots[index] {
            Some(b) => b,
            None => unreached(),
        }
    }
}

} // verus!
