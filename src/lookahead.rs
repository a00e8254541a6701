//! The in-flight window of a lookahead limiter.
//!
//! A limiter with a lookahead of `L` samples holds back every sample it admits,
//! measures the sample that has just come in, and emits the sample that came in
//! `L` steps earlier, so that the gain for each emitted sample can be chosen from
//! what lies `L` samples ahead of it. [`Lookahead`] keeps that window and decides,
//! for each admitted sample, which phase the limiter is in:
//!
//! - while the window is not yet full (fewer than `L` samples admitted), the
//!   sample just admitted is handed back to be emitted as it is;
//! - afterwards, the sample just admitted is handed back to be measured, together
//!   with the oldest sample of the window, which leaves it to be emitted.
use crate::ring::RingBuffer;
use vstd::prelude::*;

verus! {

/// What one admitted sample yields.
#[derive(Debug, PartialEq, Eq)]
pub enum Tap<T> {
    /// The window was not full: the admitted sample, to be emitted unchanged.
    Fill(T),
    /// The window was full: `newest` is the admitted sample, the one to measure;
    /// `oldest` is the sample that left the window, the one to emit.
    Steady { newest: T, oldest: T },
}

/// What admitting `x` yields when the window holds `pending`.
pub open spec fn tap_of<T>(pending: Seq<T>, lookahead: nat, x: T) -> Tap<T> {
    let p = pending.push(x);
    if p.len() <= lookahead {
        Tap::Fill(x)
    } else {
        Tap::Steady { newest: x, oldest: p[0] }
    }
}

/// What the window holds after admitting `x` when it held `pending`.
pub open spec fn pending_after<T>(pending: Seq<T>, lookahead: nat, x: T) -> Seq<T> {
    let p = pending.push(x);
    if p.len() <= lookahead {
        p
    } else {
        p.drop_first()
    }
}

/// What the window holds after admitting the samples `xs` in order, starting
/// from `pending`.
pub open spec fn run_pending<T>(pending: Seq<T>, lookahead: nat, xs: Seq<T>) -> Seq<T>
    decreases xs.len(),
{
    if xs.len() == 0 {
        pending
    } else {
        pending_after(run_pending(pending, lookahead, xs.drop_last()), lookahead, xs.last())
    }
}

/// What admitting the samples `xs` in order yields, one tap per sample, starting
/// from `pending`.
pub open spec fn run_taps<T>(pending: Seq<T>, lookahead: nat, xs: Seq<T>) -> Seq<Tap<T>>
    decreases xs.len(),
{
    if xs.len() == 0 {
        Seq::empty()
    } else {
        let before = xs.drop_last();
        run_taps(pending, lookahead, before).push(
            tap_of(run_pending(pending, lookahead, before), lookahead, xs.last()),
        )
    }
}

/// The pending samples of a lookahead limiter, oldest first.
pub struct Lookahead<T> {
    pending: RingBuffer<T>,
    lookahead: usize,
}

impl<T: Copy> Lookahead<T> {
    /// The samples admitted and not yet handed back as `oldest`, oldest first.
    pub closed spec fn pending(&self) -> Seq<T> {
        self.pending@
    }

    /// The lookahead, in samples.
    pub closed spec fn spec_lookahead(&self) -> nat {
        self.lookahead as nat
    }

    pub closed spec fn wf(&self) -> bool {
        &&& self.pending.wf()
        &&& self.pending.spec_capacity() == self.lookahead + 1
        &&& self.pending@.len() <= self.lookahead
    }

    /// An empty window of `lookahead` samples; `blank` fills the unused storage.
    pub fn new(lookahead: usize, blank: T) -> (r: Self)
        requires
            lookahead < usize::MAX,
        ensures
            r.wf(),
            r.pending() == Seq::<T>::empty(),
            r.spec_lookahead() == lookahead,
    {
        Lookahead { pending: RingBuffer::new(lookahead + 1, blank), lookahead }
    }

    /// The lookahead, in samples.
    pub fn lookahead_samples(&self) -> (r: usize)
        requires
            self.wf(),
        ensures
            r == self.spec_lookahead(),
    {
        self.lookahead
    }

    /// How many samples the window holds.
    pub fn pending_len(&self) -> (r: usize)
        requires
            self.wf(),
        ensures
            r == self.pending().len(),
    {
        self.pending.len()
    }

    /// Admits `x` and says which phase it falls in: the window fills until it
    /// holds `lookahead` samples, after which each admitted sample pushes the
    /// oldest one out.
    pub fn advance(&mut self, x: T) -> (r: Tap<T>)
        requires
            old(self).wf(),
        ensures
            final(self).wf(),
            final(self).spec_lookahead() == old(self).spec_lookahead(),
            r == tap_of(old(self).pending(), old(self).spec_lookahead(), x),
            final(self).pending() == pending_after(old(self).pending(), old(self).spec_lookahead(), x),
    {
        self.pending.push_back(x);
        if self.pending.len() <= self.lookahead {
            Tap::Fill(x)
        } else {
            let newest = self.pending.back();
            let oldest = self.pending.pop_front();
            Tap::Steady { newest, oldest }
        }
    }

    /// An independent window with the same lookahead and the same pending samples.
    pub fn duplicate(&self) -> (r: Self)
        requires
            self.wf(),
        ensures
            r.wf(),
            r.pending() == self.pending(),
            r.spec_lookahead() == self.spec_lookahead(),
    {
        Lookahead { pending: self.pending.duplicate(), lookahead: self.lookahead }
    }
}

/// Admitting samples one by one yields exactly one tap per sample.
pub proof fn lemma_one_tap_per_sample<T>(pending: Seq<T>, lookahead: nat, xs: Seq<T>)
    ensures
        run_taps(pending, lookahead, xs).len() == xs.len(),
    decreases xs.len(),
{
    if xs.len() > 0 {
        lemma_one_tap_per_sample(pending, lookahead, xs.drop_last());
    }
}

/// The tap of the `i`-th sample depends on the samples before it alone.
pub proof fn lemma_tap_at<T>(pending: Seq<T>, lookahead: nat, xs: Seq<T>, i: int)
    requires
        0 <= i < xs.len(),
    ensures
        run_taps(pending, lookahead, xs)[i] == tap_of(
            run_pending(pending, lookahead, xs.take(i)),
            lookahead,
            xs[i],
        ),
    decreases xs.len(),
{
    let before = xs.drop_last();
    lemma_one_tap_per_sample(pending, lookahead, before);
    if i == xs.len() - 1 {
        assert(xs.take(i) =~= before);
    } else {
        lemma_tap_at(pending, lookahead, before, i);
        assert(before.take(i) =~= xs.take(i));
    }
}

/// Starting empty, the window holds the last `lookahead` samples admitted (all
/// of them, while fewer have come in).
pub proof fn lemma_window_holds_latest<T>(lookahead: nat, xs: Seq<T>)
    ensures
        run_pending(Seq::empty(), lookahead, xs) == xs.subrange(
            if xs.len() <= lookahead { 0 } else { xs.len() - lookahead },
            xs.len() as int,
        ),
    decreases xs.len(),
{
    if xs.len() == 0 {
        assert(xs.subrange(0, 0) =~= Seq::<T>::empty());
    } else {
        let before = xs.drop_last();
        lemma_window_holds_latest(lookahead, before);
        let p = run_pending(Seq::empty(), lookahead, before);
        let start = if xs.len() <= lookahead { 0 } else { xs.len() - lookahead };
        if before.len() < lookahead {
            assert(p.push(xs.last()) =~= xs.subrange(start, xs.len() as int));
        } else {
            assert(p.push(xs.last()).drop_first() =~= xs.subrange(start, xs.len() as int));
        }
    }
}

/// Fill phase: starting empty, each of the first `lookahead` samples is handed
/// back unchanged, to be emitted as it came in.
pub proof fn fill_phase_echoes_input<T>(lookahead: nat, xs: Seq<T>, i: int)
    requires
        0 <= i < xs.len(),
        i < lookahead,
    ensures
        run_taps(Seq::empty(), lookahead, xs)[i] == Tap::Fill(xs[i]),
{
    lemma_tap_at(Seq::empty(), lookahead, xs, i);
    lemma_window_holds_latest(lookahead, xs.take(i));
}

/// Steady phase: starting empty, the `i`-th sample is measured as it comes in,
/// and the sample emitted with it is the one that came in `lookahead` steps
/// earlier. With no lookahead every sample is measured and emitted at once.
pub proof fn steady_phase_delays_by_lookahead<T>(lookahead: nat, xs: Seq<T>, i: int)
    requires
        lookahead <= i < xs.len(),
    ensures
        run_taps(Seq::empty(), lookahead, xs)[i] == (Tap::Steady {
            newest: xs[i],
            oldest: xs[i - lookahead],
        }),
{
    lemma_tap_at(Seq::empty(), lookahead, xs, i);
    lemma_window_holds_latest(lookahead, xs.take(i));
}

} // verus!
