//! Ordered composition of nodes.
//!
//! A chain hands the whole buffer to its first node, the whole output of that
//! node to the second, and so on; the empty chain leaves the buffer as it is.
use crate::node::{
    copy_samples, output_keeps_length, run_output, run_state, stream_output, stream_state,
    streaming_splits_anywhere, AudioNode,
};
use vstd::prelude::*;

verus! {

/// What the chain `nodes` makes of `input`: each node processes the full output
/// of the one before it.
pub open spec fn chain_output<N: AudioNode>(nodes: Seq<N>, input: Seq<N::Sample>) -> Seq<N::Sample>
    decreases nodes.len(),
{
    if nodes.len() == 0 {
        input
    } else {
        stream_output(nodes.last(), chain_output(nodes.drop_last(), input))
    }
}

/// The nodes of the chain `nodes` after it has processed `input`: each has
/// processed what the nodes before it made of `input`.
pub open spec fn chain_state<N: AudioNode>(nodes: Seq<N>, input: Seq<N::Sample>) -> Seq<N> {
    Seq::new(nodes.len(), |i: int| stream_state(nodes[i], chain_output(nodes.take(i), input)))
}

/// An ordered sequence of nodes, processed in the order they were added.
pub struct AudioNodeChain<N> {
    nodes: Vec<N>,
}

impl<N: AudioNode> AudioNodeChain<N> {
    /// The nodes, in processing order.
    pub closed spec fn nodes(&self) -> Seq<N> {
        self.nodes@
    }

    /// The empty chain.
    pub fn new() -> (r: Self)
        ensures
            r.nodes() == Seq::<N>::empty(),
    {
        AudioNodeChain { nodes: Vec::new() }
    }

    /// How many nodes the chain holds.
    pub fn len(&self) -> (r: usize)
        ensures
            r == self.nodes().len(),
    {
        self.nodes.len()
    }

    /// Appends `node`, which then runs after every node added before it.
    pub fn add_node(&mut self, node: N)
        ensures
            final(self).nodes() == old(self).nodes().push(node),
    {
        self.nodes.push(node);
    }

    /// Runs `buffer` through every node in order, each node overwriting the
    /// buffer with its output.
    pub fn process_in_place(&mut self, buffer: &mut Vec<N::Sample>)
        ensures
            final(buffer)@ == chain_output(old(self).nodes(), old(buffer)@),
            final(self).nodes() == chain_state(old(self).nodes(), old(buffer)@),
    {
        let ghost nodes = self.nodes@;
        let ghost input = buffer@;
        let count = self.nodes.len();
        let mut i: usize = 0;
        while i < count
            invariant
                count == nodes.len(),
                i <= count,
                self.nodes@.len() == count,
                buffer@ == chain_output(nodes.take(i as int), input),
                forall|k: int| 0 <= k < i ==> self.nodes@[k] == chain_state(nodes, input)[k],
                forall|k: int| i <= k < count ==> self.nodes@[k] == nodes[k],
            decreases count - i,
        {
            assert(nodes.take(i + 1).drop_last() =~= nodes.take(i as int));
            self.nodes[i].process_in_place(buffer);
            i = i + 1;
        }
        assert(nodes.take(count as int) =~= nodes);
        assert(self.nodes@ =~= chain_state(nodes, input));
    }

    /// Runs a copy of `input` through every node in order, as
    /// [`AudioNodeChain::process_in_place`] does, and returns it.
    pub fn process(&mut self, input: &Vec<N::Sample>) -> (r: Vec<N::Sample>)
        ensures
            r@ == chain_output(old(self).nodes(), input@),
            final(self).nodes() == chain_state(old(self).nodes(), input@),
    {
        let mut buffer = copy_samples(input);
        self.process_in_place(&mut buffer);
        buffer
    }
}

impl<N: AudioNode> Default for AudioNodeChain<N> {
    /// The empty chain.
    fn default() -> (r: Self)
        ensures
            r.nodes() == Seq::<N>::empty(),
    {
        AudioNodeChain::new()
    }
}

/// The empty chain is the identity: it returns its input and holds no node.
pub proof fn empty_chain_is_identity<N: AudioNode>(input: Seq<N::Sample>)
    ensures
        chain_output(Seq::<N>::empty(), input) == input,
        chain_state(Seq::<N>::empty(), input) == Seq::<N>::empty(),
{
    assert(chain_state(Seq::<N>::empty(), input) =~= Seq::<N>::empty());
}

/// A chain of two nodes is the second node applied to the output of the first;
/// the first node processes the input and the second the first node's output.
pub proof fn chain_of_two_is_sequential<N: AudioNode>(a: N, b: N, input: Seq<N::Sample>)
    ensures
        chain_output(seq![a, b], input) == stream_output(b, stream_output(a, input)),
        chain_state(seq![a, b], input) == seq![
            stream_state(a, input),
            stream_state(b, stream_output(a, input)),
        ],
{
    let nodes = seq![a, b];
    assert(nodes.drop_last() =~= seq![a]);
    assert(seq![a].drop_last() =~= Seq::<N>::empty());
    assert(nodes.take(0) =~= Seq::<N>::empty());
    assert(nodes.take(1) =~= seq![a]);
    assert(chain_output(Seq::<N>::empty(), input) == input);
    assert(seq![a].last() == a);
    assert(chain_output(seq![a], input) == stream_output(a, input));
    assert(chain_output(nodes.take(0), input) == input);
    assert(chain_state(nodes, input) =~= seq![
        stream_state(a, input),
        stream_state(b, stream_output(a, input)),
    ]);
}

/// Running the chain `xs + ys` is running `ys` on the output of `xs`.
pub proof fn chains_concatenate<N: AudioNode>(xs: Seq<N>, ys: Seq<N>, input: Seq<N::Sample>)
    ensures
        chain_output(xs + ys, input) == chain_output(ys, chain_output(xs, input)),
    decreases ys.len(),
{
    if ys.len() == 0 {
        assert(xs + ys =~= xs);
    } else {
        chains_concatenate(xs, ys.drop_last(), input);
        assert((xs + ys).drop_last() =~= xs + ys.drop_last());
        assert((xs + ys).last() == ys.last());
    }
}

/// A chain emits exactly one sample for each input sample.
pub proof fn chain_keeps_length<N: AudioNode>(nodes: Seq<N>, input: Seq<N::Sample>)
    ensures
        chain_output(nodes, input).len() == input.len(),
    decreases nodes.len(),
{
    if nodes.len() > 0 {
        chain_keeps_length(nodes.drop_last(), input);
        output_keeps_length(nodes.last(), chain_output(nodes.drop_last(), input));
    }
}

/// The first `i` nodes of a chain, after processing, are what the chain of those
/// first `i` nodes becomes.
proof fn lemma_state_prefix<N: AudioNode>(nodes: Seq<N>, input: Seq<N::Sample>, i: int)
    requires
        0 <= i <= nodes.len(),
    ensures
        chain_state(nodes, input).take(i) == chain_state(nodes.take(i), input),
{
    assert forall|k: int| 0 <= k < i implies chain_state(nodes, input).take(i)[k] == chain_state(
        nodes.take(i),
        input,
    )[k] by {
        assert(nodes.take(i).take(k) =~= nodes.take(k));
    }
    assert(chain_state(nodes, input).take(i) =~= chain_state(nodes.take(i), input));
}

/// Streaming through a chain: processing `xs` and then `ys` in two calls emits
/// what processing `xs + ys` in one call emits.
pub proof fn chain_streams_output<N: AudioNode>(nodes: Seq<N>, xs: Seq<N::Sample>, ys: Seq<N::Sample>)
    ensures
        chain_output(nodes, xs + ys) == chain_output(nodes, xs) + chain_output(
            chain_state(nodes, xs),
            ys,
        ),
    decreases nodes.len(),
{
    if nodes.len() == 0 {
        assert(chain_state(nodes, xs) =~= Seq::<N>::empty());
    } else {
        let last = nodes.len() - 1;
        let front = nodes.drop_last();
        let n = nodes.last();
        chain_streams_output(front, xs, ys);
        let a = chain_output(front, xs);
        let b = chain_output(chain_state(front, xs), ys);
        streaming_splits_anywhere(n, a, b);
        let after = chain_state(nodes, xs);
        assert(nodes.take(last) =~= front);
        lemma_state_prefix(nodes, xs, last);
        assert(after.drop_last() =~= after.take(last));
        assert(after.last() == stream_state(n, a));
    }
}

/// Streaming through a chain: processing `xs` and then `ys` in two calls leaves
/// the nodes as processing `xs + ys` in one call does.
pub proof fn chain_streams_state<N: AudioNode>(nodes: Seq<N>, xs: Seq<N::Sample>, ys: Seq<N::Sample>)
    ensures
        chain_state(nodes, xs + ys) == chain_state(chain_state(nodes, xs), ys),
{
    let after = chain_state(nodes, xs);
    assert forall|i: int| 0 <= i < nodes.len() implies chain_state(nodes, xs + ys)[i] == chain_state(
        after,
        ys,
    )[i] by {
        let front = nodes.take(i);
        chain_streams_output(front, xs, ys);
        let p = chain_output(front, xs);
        let q = chain_output(chain_state(front, xs), ys);
        streaming_splits_anywhere(nodes[i], p, q);
        lemma_state_prefix(nodes, xs, i);
    }
    assert(chain_state(nodes, xs + ys) =~= chain_state(after, ys));
}

/// What a sample-interleaved pipeline emits: each sample goes through every node
/// of the chain before the next sample enters it.
pub open spec fn pipeline_output<N: AudioNode>(nodes: Seq<N>, xs: Seq<N::Sample>) -> Seq<N::Sample> {
    run_output(
        |ns: Seq<N>, x: N::Sample| chain_output(ns, seq![x])[0],
        |ns: Seq<N>, x: N::Sample| chain_state(ns, seq![x]),
        nodes,
        xs,
    )
}

/// The nodes of a sample-interleaved pipeline after the samples `xs`.
pub open spec fn pipeline_state<N: AudioNode>(nodes: Seq<N>, xs: Seq<N::Sample>) -> Seq<N> {
    run_state(|ns: Seq<N>, x: N::Sample| chain_state(ns, seq![x]), nodes, xs)
}

/// Passing whole buffers from node to node is equivalent, in output and in the
/// state it leaves, to a pipeline that passes each sample through the whole chain
/// before taking the next.
pub proof fn chain_equals_interleaved_pipeline<N: AudioNode>(nodes: Seq<N>, xs: Seq<N::Sample>)
    ensures
        chain_output(nodes, xs) == pipeline_output(nodes, xs),
        chain_state(nodes, xs) == pipeline_state(nodes, xs),
    decreases xs.len(),
{
    if xs.len() == 0 {
        empty_input_changes_nothing(nodes);
        assert(xs =~= Seq::<N::Sample>::empty());
    } else {
        let before = xs.drop_last();
        let x = xs.last();
        chain_equals_interleaved_pipeline(nodes, before);
        assert(before + seq![x] =~= xs);
        chain_streams_output(nodes, before, seq![x]);
        chain_streams_state(nodes, before, seq![x]);
        let mid = chain_state(nodes, before);
        let single = chain_output(mid, seq![x]);
        chain_keeps_length(mid, seq![x]);
        assert(single =~= seq![single[0]]);
        assert(chain_output(nodes, xs) =~= chain_output(nodes, before).push(single[0]));
        assert(chain_output(nodes, xs) == pipeline_output(nodes, xs));
        assert(chain_state(nodes, xs) == pipeline_state(nodes, xs));
    }
}

/// A chain given no samples emits none and changes no node.
pub proof fn empty_input_changes_nothing<N: AudioNode>(nodes: Seq<N>)
    ensures
        chain_output(nodes, Seq::<N::Sample>::empty()) == Seq::<N::Sample>::empty(),
        chain_state(nodes, Seq::<N::Sample>::empty()) == nodes,
{
    chain_keeps_length(nodes, Seq::<N::Sample>::empty());
    assert(chain_output(nodes, Seq::<N::Sample>::empty()) =~= Seq::<N::Sample>::empty());
    assert forall|i: int| 0 <= i < nodes.len() implies chain_state(nodes, Seq::<N::Sample>::empty())[i]
        == nodes[i] by {
        chain_keeps_length(nodes.take(i), Seq::<N::Sample>::empty());
        assert(chain_output(nodes.take(i), Seq::<N::Sample>::empty()) =~= Seq::<N::Sample>::empty());
    }
    assert(chain_state(nodes, Seq::<N::Sample>::empty()) =~= nodes);
}

} // verus!
