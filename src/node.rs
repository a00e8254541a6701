//! The audio node capability.
//!
//! A node is a streaming filter over samples. It carries state of its own, which
//! each sample it processes may change: what it emits for a sample depends on that
//! sample and on the state that all earlier samples, in this call and in earlier
//! calls, have left. A node is described by two spec functions of one step,
//! [`AudioNode::emit`] and [`AudioNode::next`]; a buffer is processed by taking the
//! steps strictly from left to right ([`stream_output`], [`stream_state`]).
use vstd::prelude::*;

verus! {

/// A sample transformer that can stand in an [`AudioNodeChain`](crate::chain::AudioNodeChain).
///
/// The contracts below say, written out, that processing a buffer yields
/// [`stream_output`] and leaves [`stream_state`]: a trait's own contracts cannot
/// name functions that are bounded by the trait. Outside verified code, `emit` and
/// `next` are implemented as ordinary functions that compute one step.
pub trait AudioNode: Sized {
    /// The sample type the node works on.
    type Sample: Copy;

    /// What the node emits for input sample `x` in its present state.
    spec fn emit(&self, x: Self::Sample) -> Self::Sample;

    /// The state of the node after it has processed `x`.
    spec fn next(&self, x: Self::Sample) -> Self;

    /// Processes `buffer` sample by sample, from left to right, overwriting each
    /// sample with what the node emits for it.
    fn process_in_place(&mut self, buffer: &mut Vec<Self::Sample>)
        ensures
            final(buffer)@ == run_output(
                |n: Self, x: Self::Sample| n.emit(x),
                |n: Self, x: Self::Sample| n.next(x),
                *old(self),
                old(buffer)@,
            ),
            *final(self) == run_state(|n: Self, x: Self::Sample| n.next(x), *old(self), old(buffer)@),
    ;

    /// Processes `input` as [`AudioNode::process_in_place`] does, into a new buffer.
    fn process(&mut self, input: &Vec<Self::Sample>) -> (r: Vec<Self::Sample>)
        ensures
            r@ == run_output(
                |n: Self, x: Self::Sample| n.emit(x),
                |n: Self, x: Self::Sample| n.next(x),
                *old(self),
                input@,
            ),
            *final(self) == run_state(|n: Self, x: Self::Sample| n.next(x), *old(self), input@),
    {
        let mut buffer = copy_samples(input);
        self.process_in_place(&mut buffer);
        buffer
    }

    /// A stable name of the kind of node, the same for every node of one type.
    fn node_type(&self) -> &'static str;

    /// An independent node with the same configuration and a copy of the present
    /// state (not a reset one), so that it emits what this one would on any input.
    fn duplicate(&self) -> (r: Self)
        ensures
            r == *self,
    ;
}

/// The samples that a stepper emits for `xs`, taken in order from `state`: at
/// each step it emits `emit(state, x)` and moves to `next(state, x)`.
pub open spec fn run_output<N, S>(
    emit: spec_fn(N, S) -> S,
    next: spec_fn(N, S) -> N,
    state: N,
    xs: Seq<S>,
) -> Seq<S>
    decreases xs.len(),
{
    if xs.len() == 0 {
        Seq::empty()
    } else {
        let before = xs.drop_last();
        run_output(emit, next, state, before).push(emit(run_state(next, state, before), xs.last()))
    }
}

/// The state that a stepper reaches from `state` after the samples `xs`.
pub open spec fn run_state<N, S>(next: spec_fn(N, S) -> N, state: N, xs: Seq<S>) -> N
    decreases xs.len(),
{
    if xs.len() == 0 {
        state
    } else {
        next(run_state(next, state, xs.drop_last()), xs.last())
    }
}

/// What `node` emits for the samples `xs`, taken in order from its present state.
pub open spec fn stream_output<N: AudioNode>(node: N, xs: Seq<N::Sample>) -> Seq<N::Sample> {
    run_output(|n: N, x: N::Sample| n.emit(x), |n: N, x: N::Sample| n.next(x), node, xs)
}

/// The state of `node` after it has processed the samples `xs` in order.
pub open spec fn stream_state<N: AudioNode>(node: N, xs: Seq<N::Sample>) -> N {
    run_state(|n: N, x: N::Sample| n.next(x), node, xs)
}

/// `a` and `b` emit the same samples for every input.
pub open spec fn behaves_as<N: AudioNode>(a: N, b: N) -> bool {
    forall|xs: Seq<N::Sample>| #[trigger] stream_output(a, xs) == stream_output(b, xs)
}

/// A copy of `input`, element for element.
pub fn copy_samples<S: Copy>(input: &Vec<S>) -> (r: Vec<S>)
    ensures
        r@ == input@,
{
    let mut r: Vec<S> = Vec::with_capacity(input.len());
    let mut k: usize = 0;
    while k < input.len()
        invariant
            k <= input@.len(),
            r@ == input@.subrange(0, k as int),
        decreases input@.len() - k,
    {
        r.push(input[k]);
        k = k + 1;
        assert(r@ =~= input@.subrange(0, k as int));
    }
    assert(r@ =~= input@);
    r
}

proof fn lemma_run_length<N, S>(
    emit: spec_fn(N, S) -> S,
    next: spec_fn(N, S) -> N,
    state: N,
    xs: Seq<S>,
)
    ensures
        run_output(emit, next, state, xs).len() == xs.len(),
    decreases xs.len(),
{
    if xs.len() > 0 {
        lemma_run_length(emit, next, state, xs.drop_last());
    }
}

proof fn lemma_run_split<N, S>(
    emit: spec_fn(N, S) -> S,
    next: spec_fn(N, S) -> N,
    state: N,
    xs: Seq<S>,
    ys: Seq<S>,
)
    ensures
        run_output(emit, next, state, xs + ys) == run_output(emit, next, state, xs) + run_output(
            emit,
            next,
            run_state(next, state, xs),
            ys,
        ),
        run_state(next, state, xs + ys) == run_state(next, run_state(next, state, xs), ys),
    decreases ys.len(),
{
    let mid = run_state(next, state, xs);
    if ys.len() == 0 {
        assert(xs + ys =~= xs);
        assert(run_output(emit, next, state, xs) + Seq::<S>::empty() =~= run_output(
            emit,
            next,
            state,
            xs,
        ));
    } else {
        lemma_run_split(emit, next, state, xs, ys.drop_last());
        assert((xs + ys).drop_last() =~= xs + ys.drop_last());
        assert((xs + ys).last() == ys.last());
        assert(run_output(emit, next, state, xs + ys) =~= run_output(emit, next, state, xs)
            + run_output(emit, next, mid, ys));
    }
}

/// A node emits exactly one sample for each input sample.
pub proof fn output_keeps_length<N: AudioNode>(node: N, xs: Seq<N::Sample>)
    ensures
        stream_output(node, xs).len() == xs.len(),
{
    lemma_run_length(|n: N, x: N::Sample| n.emit(x), |n: N, x: N::Sample| n.next(x), node, xs);
}

/// Streaming: processing `xs` and then `ys` in two calls emits what processing
/// `xs + ys` in one call emits, and leaves the same state.
pub proof fn streaming_splits_anywhere<N: AudioNode>(node: N, xs: Seq<N::Sample>, ys: Seq<N::Sample>)
    ensures
        stream_output(node, xs + ys) == stream_output(node, xs) + stream_output(stream_state(node, xs), ys),
        stream_state(node, xs + ys) == stream_state(stream_state(node, xs), ys),
{
    lemma_run_split(|n: N, x: N::Sample| n.emit(x), |n: N, x: N::Sample| n.next(x), node, xs, ys);
}

} // verus!
