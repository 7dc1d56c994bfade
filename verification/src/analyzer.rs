//! The capability contract shared by every extraction unit: `process` one
//! chunk at a time, `finalize` the accumulated findings once the stream
//! ends, and `clear` before every document. Each analyzer's behaviour is
//! pinned down by a functional model: a pristine state and a step function
//! folded over the chunks seen since the last clear.

use vstd::prelude::*;

use crate::errors::Error;

verus! {

/// An extraction unit fed chunk by chunk. The view type `Self::V` is the
/// analyzer's mathematical state.
pub trait Analyzer: View + Sized {
    /// The finalized, structured findings this analyzer produces.
    type Findings;

    /// Internal well-formedness, established at construction and preserved
    /// by every call.
    spec fn wf(&self) -> bool;

    /// The model of the pristine, pre-any-chunk state.
    spec fn cleared_model() -> Self::V;

    /// The functional model of one `process` call: the state after one
    /// chunk, as a function of the state before it and the chunk text.
    spec fn step(pre: Self::V, chunk: Seq<char>) -> Self::V;

    /// When one `process` call succeeds — also a function of the state
    /// before it and the chunk text, so success is owed, not hoped for.
    spec fn step_ok(pre: Self::V, chunk: Seq<char>) -> bool;

    /// Relates the finalized output and the state left behind to the state
    /// that was read.
    spec fn finalized(pre: Self::V, out: Self::Findings, post: Self::V) -> bool;

    /// Resets all internal state to its initial, pre-any-chunk value;
    /// idempotent, called before the first chunk of every document.
    fn clear(&mut self)
        requires
            old(self).wf(),
        ensures
            final(self).wf(),
            final(self)@ == Self::cleared_model(),
    ;

    /// Feeds one chunk; success is exactly [`Analyzer::step_ok`], on
    /// success the state advances exactly by one step, and a failed call
    /// leaves the state as it was.
    fn process(&mut self, chunk: &str) -> (r: Result<(), Error>)
        requires
            old(self).wf(),
        ensures
            final(self).wf(),
            r is Ok <==> Self::step_ok(old(self)@, chunk@),
            r is Ok ==> final(self)@ == Self::step(old(self)@, chunk@),
            r is Err ==> final(self)@ == old(self)@,
    ;

    /// Drains the accumulated findings, called exactly once per document
    /// after the last chunk.
    fn finalize(&mut self) -> (r: Self::Findings)
        requires
            old(self).wf(),
        ensures
            final(self).wf(),
            Self::finalized(old(self)@, r, final(self)@),
    ;
}

/// The state reached by feeding the given chunks, in order, from `init`:
/// the findings of a document are exactly the fold of its chunks.
pub open spec fn fold_steps<A: Analyzer>(init: A::V, chunks: Seq<Seq<char>>) -> A::V
    decreases chunks.len(),
{
    if chunks.len() == 0 {
        init
    } else {
        A::step(fold_steps::<A>(init, chunks.drop_last()), chunks.last())
    }
}

} // verus!
