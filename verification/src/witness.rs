//! The witness: an ordered side channel of opaque hint records.
//!
//! During a data-rich (native) execution hints are appended in order; during a
//! data-poor (replay) execution the same hints are consumed in exactly the
//! order they were recorded. Any divergence in order or count is a
//! deterministic failure of the replay.

use vstd::prelude::*;

verus! {

/// Failure of the hint channel during replay.
#[derive(Debug, PartialEq, Eq, Structural)]
pub enum WitnessError {
    /// A hint was requested but every recorded hint has been consumed.
    ExhaustedWitness,
}

/// An ordered sequence of byte-string hints with a read cursor.
///
/// Constructed empty for recording, or from a previously recorded hint
/// sequence for replay.
pub struct ArrayWitness {
    hints: Vec<Vec<u8>>,
    next_idx: usize,
}

impl ArrayWitness {
    /// The recorded hints, in order.
    pub closed spec fn hints(&self) -> Seq<Seq<u8>> {
        self.hints.deep_view()
    }

    /// How many hints have been consumed by replay so far.
    pub closed spec fn consumed(&self) -> int {
        self.next_idx as int
    }

    /// An empty witness, ready for recording.
    pub fn new() -> (r: ArrayWitness)
        ensures
            r.hints() =~= Seq::<Seq<u8>>::empty(),
            r.consumed() == 0,
    {
        ArrayWitness { hints: Vec::new(), next_idx: 0 }
    }

    /// A witness pre-populated with a recorded hint sequence, for replay.
    pub fn from_hints(hints: Vec<Vec<u8>>) -> (r: ArrayWitness)
        ensures
            r.hints() == hints.deep_view(),
            r.consumed() == 0,
    {
        ArrayWitness { hints, next_idx: 0 }
    }

    /// Appends one hint (recording mode).
    pub fn add_hint(&mut self, hint: Vec<u8>)
        ensures
            final(self).hints() =~= old(self).hints().push(hint@),
            final(self).consumed() == old(self).consumed(),
    {
        proof {
            assert(hint.deep_view() =~= hint@);
        }
        self.hints.push(hint);
        proof {
            assert(self.hints.deep_view() =~= old(self).hints.deep_view().push(hint@));
        }
    }

    /// Pops the next recorded hint in FIFO order (replay mode); fails exactly
    /// when every hint has been consumed.
    pub fn get_hint(&mut self) -> (r: Result<Vec<u8>, WitnessError>)
        ensures
            old(self).consumed() < old(self).hints().len() ==> ({
                &&& r matches Ok(h) && h@ == old(self).hints()[old(self).consumed()]
                &&& final(self).consumed() == old(self).consumed() + 1
            }),
            old(self).consumed() >= old(self).hints().len() ==> ({
                &&& r matches Err(e) && e == WitnessError::ExhaustedWitness
                &&& final(self).consumed() == old(self).consumed()
            }),
            final(self).hints() == old(self).hints(),
    {
        if self.next_idx < self.hints.len() {
            let h = self.hints[self.next_idx].clone();
            self.next_idx = self.next_idx + 1;
            proof {
                let i = old(self).next_idx as int;
                assert(self.hints@[i].deep_view() =~= self.hints@[i]@);
                assert(h@ == old(self).hints()[old(self).consumed()]);
            }
            Ok(h)
        } else {
            Err(WitnessError::ExhaustedWitness)
        }
    }

    /// The number of recorded hints.
    pub fn len(&self) -> (r: usize)
        ensures
            r == self.hints().len(),
    {
        self.hints.len()
    }

    /// Hands the recorded hints out, in order, for transport to a replaying
    /// execution.
    pub fn into_hints(self) -> (r: Vec<Vec<u8>>)
        ensures
            r.deep_view() == self.hints(),
    {
        self.hints
    }
}

} // verus!
