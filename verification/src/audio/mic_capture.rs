//! The microphone side of the engine: what the audio thread takes from the
//! ring that the capture thread fills.

use vstd::prelude::*;
use crate::audio::types::{SampleBits, SILENCE};

verus! {

/// The frame made of what was popped from the capture ring, slot by slot: the
/// popped sample, or silence where the ring was empty (an underrun).
pub open spec fn spec_frame_from_pops(pops: Seq<Option<SampleBits>>) -> Seq<SampleBits> {
    pops.map_values(|p: Option<SampleBits>| match p {
        Some(x) => x,
        None => SILENCE,
    })
}

/// Builds an output frame from the results of popping the capture ring once
/// per slot: each popped sample in its slot, silence where nothing came.
pub fn frame_from_pops(pops: &Vec<Option<SampleBits>>) -> (out: Vec<SampleBits>)
    ensures
        out@ == spec_frame_from_pops(pops@),
{
    let mut out: Vec<SampleBits> = Vec::new();
    let mut i: usize = 0;
    while i < pops.len()
        invariant
            i <= pops@.len(),
            out@ =~= spec_frame_from_pops(pops@.take(i as int)),
        decreases pops@.len() - i,
    {
        let s = match pops[i] {
            Some(x) => x,
            None => SILENCE,
        };
        out.push(s);
        proof {
            assert(pops@.take(i + 1) =~= pops@.take(i as int).push(pops@[i as int]));
        }
        i = i + 1;
    }
    proof { assert(pops@.take(pops@.len() as int) =~= pops@); }
    out
}

/// Each popped sample lands in its own slot unchanged, bit for bit, and each
/// slot where the ring was empty gets silence.
pub proof fn lemma_pops_land_unchanged(pops: Seq<Option<SampleBits>>)
    ensures
        spec_frame_from_pops(pops).len() == pops.len(),
        forall|i: int| 0 <= i < pops.len() && pops[i] is Some
            ==> #[trigger] spec_frame_from_pops(pops)[i] == pops[i].unwrap(),
        forall|i: int| 0 <= i < pops.len() && pops[i] is None
            ==> #[trigger] spec_frame_from_pops(pops)[i] == SILENCE,
{
}

} // verus!
