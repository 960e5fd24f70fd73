//! The progressive accumulation engine: which passes are rendered, with how
//! many samples, with what weight each is blended into the picture, and when
//! the work stops.
//!
//! A pass draws fresh samples for every pixel and mixes their mean into the
//! accumulated value with weight `new_samples / total_samples`; the value
//! already there keeps weight `1 - new_samples / total_samples`. The
//! arithmetic on colours is the caller's. This module fixes the weights,
//! orders the passes and decides on cancellation.

use vstd::prelude::*;

verus! {

/// Why a list of per-pass sample counts is not a schedule.
#[derive(Clone, Copy, Debug, PartialEq, Eq, Structural)]
pub enum ScheduleError {
    /// Some pass would draw no sample.
    EmptyPass,
    /// Some pass would draw fewer samples than the pass before it.
    Decreasing,
    /// The samples of all passes together do not fit in a `usize`.
    Overflow,
}

/// One pass of the schedule, with the weight of its blend.
#[derive(Clone, Copy, Debug, PartialEq, Eq, Structural)]
pub struct Pass {
    /// The number of the pass, counted from 1.
    pub number: usize,
    /// Samples drawn for each pixel before this pass: the index of the
    /// first sample that this pass draws.
    pub first_sample: usize,
    /// Samples drawn for each pixel in this pass.
    pub new_samples: usize,
    /// Samples drawn for each pixel up to and including this pass.
    pub total_samples: usize,
}

/// The work for one pixel of a pass.
#[derive(Clone, Copy, Debug, PartialEq, Eq, Structural)]
pub struct PixelJob {
    /// Column of the pixel.
    pub x: usize,
    /// Row of the pixel.
    pub y: usize,
    /// Position of the pixel in the frame buffer.
    pub index: usize,
}

/// The sum of the first `k` entries of `samples`.
pub open spec fn total_through(samples: Seq<usize>, k: int) -> int
    decreases k,
{
    if k <= 0 {
        0
    } else {
        total_through(samples, k - 1) + samples[k - 1]
    }
}

/// Whether every pass draws at least one sample.
pub open spec fn no_empty_pass(samples: Seq<usize>) -> bool {
    forall|i: int| 0 <= i < samples.len() ==> samples[i] > 0
}

/// Whether no pass draws fewer samples than the one before it.
pub open spec fn non_decreasing(samples: Seq<usize>) -> bool {
    forall|i: int| 0 <= i && i + 1 < samples.len() ==> samples[i] <= #[trigger] samples[i + 1]
}

/// What is wrong with a list of per-pass sample counts, if anything.
pub open spec fn check_schedule(samples: Seq<usize>) -> Result<(), ScheduleError> {
    if !no_empty_pass(samples) {
        Err(ScheduleError::EmptyPass)
    } else if !non_decreasing(samples) {
        Err(ScheduleError::Decreasing)
    } else if total_through(samples, samples.len() as int) > usize::MAX {
        Err(ScheduleError::Overflow)
    } else {
        Ok(())
    }
}

/// The number of passes of the preview.
pub const PREVIEW_PASSES: usize = 237;

/// Samples per pixel in pass `i` (counted from 0) of the preview: one quick
/// sweep first, then doubling, then long runs of 64, 128 and 256.
pub open spec fn preview_samples(i: int) -> usize {
    if i < 1 {
        1
    } else if i < 2 {
        2
    } else if i < 3 {
        4
    } else if i < 5 {
        8
    } else if i < 7 {
        16
    } else if i < 9 {
        32
    } else if i < 93 {
        64
    } else if i < 111 {
        128
    } else {
        256
    }
}

/// The per-pass sample counts of the preview.
pub open spec fn preview_schedule() -> Seq<usize> {
    Seq::new(PREVIEW_PASSES as nat, |i: int| preview_samples(i))
}

fn preview_samples_at(i: usize) -> (n: usize)
    ensures
        n == preview_samples(i as int),
{
    if i < 1 {
        1
    } else if i < 2 {
        2
    } else if i < 3 {
        4
    } else if i < 5 {
        8
    } else if i < 7 {
        16
    } else if i < 9 {
        32
    } else if i < 93 {
        64
    } else if i < 111 {
        128
    } else {
        256
    }
}

/// The per-pass sample counts of the preview, first pass first.
pub fn num_samples_at_pass() -> (samples: Vec<usize>)
    ensures
        samples@ == preview_schedule(),
{
    let mut samples: Vec<usize> = Vec::new();
    let mut i: usize = 0;
    while i < PREVIEW_PASSES
        invariant
            i <= PREVIEW_PASSES,
            samples@ == Seq::new(i as nat, |k: int| preview_samples(k)),
        decreases PREVIEW_PASSES - i,
    {
        samples.push(preview_samples_at(i));
        i += 1;
        assert(samples@ =~= Seq::new(i as nat, |k: int| preview_samples(k)));
    }
    samples
}

/// The running totals of `samples`: entry `i` is the number of samples drawn
/// up to and including pass `i`. `None` when a total does not fit.
pub fn running_totals(samples: &Vec<usize>) -> (totals: Option<Vec<usize>>)
    ensures
        match totals {
            Some(t) => {
                &&& t@.len() == samples@.len()
                &&& forall|i: int| 0 <= i < t@.len() ==> t@[i] == total_through(samples@, i + 1)
            },
            None => total_through(samples@, samples@.len() as int) > usize::MAX,
        },
{
    let mut totals: Vec<usize> = Vec::new();
    let mut sum: usize = 0;
    let mut i: usize = 0;
    while i < samples.len()
        invariant
            i <= samples@.len(),
            totals@.len() == i,
            sum == total_through(samples@, i as int),
            forall|k: int| 0 <= k < i ==> totals@[k] == total_through(samples@, k + 1),
        decreases samples@.len() - i,
    {
        match sum.checked_add(samples[i]) {
            Some(next) => {
                sum = next;
            },
            None => {
                proof {
                    lemma_total_grows(samples@, i as int + 1, samples@.len() as int);
                }
                return None;
            },
        }
        totals.push(sum);
        i += 1;
    }
    Some(totals)
}

/// Totals never shrink as passes are added.
pub proof fn lemma_total_grows(samples: Seq<usize>, j: int, k: int)
    requires
        0 <= j <= k,
    ensures
        total_through(samples, j) <= total_through(samples, k),
    decreases k - j,
{
    if j < k {
        lemma_total_grows(samples, j, k - 1);
    }
}

/// The schedule of a progressive render and how far it has come.
///
/// Passes are handed out one at a time, in order, by `next_pass`. Once a
/// cancellation has been seen no further pass is handed out.
#[derive(Debug)]
pub struct Progressive {
    samples: Vec<usize>,
    totals: Vec<usize>,
    next: usize,
    cancelled: bool,
}

impl Progressive {
    #[verifier::type_invariant]
    spec fn well_formed(self) -> bool {
        &&& self.wf()
        &&& self.totals@.len() == self.samples@.len()
        &&& forall|i: int| 0 <= i < self.totals@.len() ==> self.totals@[i] == total_through(self.samples@, i + 1)
    }

    /// Whether the sample counts form a schedule and the position lies
    /// within it, as they do and it does in every render.
    pub open spec fn wf(&self) -> bool {
        &&& check_schedule(self.schedule()) is Ok
        &&& self.done() <= self.schedule().len()
    }

    /// The per-pass sample counts.
    pub closed spec fn schedule(&self) -> Seq<usize> {
        self.samples@
    }

    /// The number of passes handed out so far.
    pub closed spec fn done(&self) -> nat {
        self.next as nat
    }

    /// Whether a cancellation has been seen.
    pub closed spec fn cancelled(&self) -> bool {
        self.cancelled
    }

    /// Pass `i` of `samples`, counted from 0.
    pub open spec fn pass_at(samples: Seq<usize>, i: int) -> Pass {
        Pass {
            number: (i + 1) as usize,
            first_sample: total_through(samples, i) as usize,
            new_samples: samples[i],
            total_samples: total_through(samples, i + 1) as usize,
        }
    }

    /// A render that follows `samples`, with no pass handed out yet.
    pub fn new(samples: Vec<usize>) -> (made: Result<Progressive, ScheduleError>)
        ensures
            match check_schedule(samples@) {
                Ok(_) => made matches Ok(p) && p.wf() && p.schedule() == samples@ && p.done() == 0
                    && !p.cancelled(),
                Err(e) => made == Err::<Progressive, ScheduleError>(e),
            },
    {
        let mut i: usize = 0;
        while i < samples.len()
            invariant
                i <= samples@.len(),
                forall|k: int| 0 <= k < i ==> samples@[k] > 0,
            decreases samples@.len() - i,
        {
            if samples[i] == 0 {
                return Err(ScheduleError::EmptyPass);
            }
            i += 1;
        }
        assert(no_empty_pass(samples@));
        let mut j: usize = 1;
        while j < samples.len()
            invariant
                1 <= j,
                no_empty_pass(samples@),
                forall|k: int| 0 <= k && k + 1 < j && k + 1 < samples@.len() ==> samples@[k] <= #[trigger] samples@[k + 1],
            decreases samples@.len() - j,
        {
            if samples[j - 1] > samples[j] {
                assert(!(samples@[j - 1] <= samples@[(j - 1) + 1]));
                return Err(ScheduleError::Decreasing);
            }
            j += 1;
        }
        assert(non_decreasing(samples@));
        match running_totals(&samples) {
            Some(totals) => {
                proof {
                    let n = samples@.len() as int;
                    if n > 0 {
                        assert(totals@[n - 1] == total_through(samples@, n));
                    }
                }
                Ok(Progressive { samples, totals, next: 0, cancelled: false })
            },
            None => Err(ScheduleError::Overflow),
        }
    }

    /// The render of the preview: `num_samples_at_pass` from its first pass.
    pub fn preview() -> (p: Progressive)
        ensures
            p.wf(),
            p.schedule() == preview_schedule(),
            p.done() == 0,
            !p.cancelled(),
    {
        let samples = num_samples_at_pass();
        proof {
            lemma_preview_is_schedule();
        }
        match Progressive::new(samples) {
            Ok(p) => p,
            Err(_) => vstd::pervasive::unreached(),
        }
    }

    /// The number of passes in the schedule.
    pub fn pass_count(&self) -> (n: usize)
        ensures
            n == self.schedule().len(),
    {
        self.samples.len()
    }

    /// The number of passes handed out so far.
    pub fn passes_done(&self) -> (n: usize)
        ensures
            n == self.done(),
    {
        self.next
    }

    /// Whether a cancellation has been seen.
    pub fn is_cancelled(&self) -> (c: bool)
        ensures
            c == self.cancelled(),
    {
        self.cancelled
    }

    /// Hands out the next pass, given the cancellation flag as the caller
    /// reads it now.
    ///
    /// With the flag set, now or at an earlier call, there is no pass and the
    /// render stays cancelled. Otherwise the passes come in order, each once,
    /// and after the last there is none.
    pub fn next_pass(&mut self, closing: bool) -> (pass: Option<Pass>)
        ensures
            old(self).wf(),
            final(self).wf(),
            final(self).schedule() == old(self).schedule(),
            final(self).cancelled() == (old(self).cancelled() || closing),
            final(self).cancelled() ==> pass is None && final(self).done() == old(self).done(),
            !final(self).cancelled() && old(self).done() < old(self).schedule().len() ==> {
                &&& pass == Some(Progressive::pass_at(old(self).schedule(), old(self).done() as int))
                &&& final(self).done() == old(self).done() + 1
            },
            !final(self).cancelled() && old(self).done() >= old(self).schedule().len() ==> {
                &&& pass is None
                &&& final(self).done() == old(self).done()
            },
    {
        proof {
            use_type_invariant(&*self);
        }
        if closing || self.cancelled {
            self.cancelled = true;
            return None;
        }
        if self.next >= self.samples.len() {
            return None;
        }
        let i: usize = self.next;
        let first_sample: usize = if i == 0 {
            0
        } else {
            self.totals[i - 1]
        };
        let pass = Pass { number: i + 1, first_sample, new_samples: self.samples[i], total_samples: self.totals[i] };
        self.next = i + 1;
        Some(pass)
    }
}

/// In a schedule every pass has a weight above zero and at most one, the
/// first pass has weight one, and what is left for the value already there
/// is the total before the pass over the total after it. The samples of a
/// pass are those from the total before it up to the total after it.
pub proof fn lemma_pass_weight(samples: Seq<usize>, i: int)
    requires
        check_schedule(samples) is Ok,
        0 <= i < samples.len() <= usize::MAX,
    ensures
        ({
            let pass = Progressive::pass_at(samples, i);
            &&& pass.number == i + 1
            &&& pass.total_samples == total_through(samples, i + 1)
            &&& 0 < pass.new_samples <= pass.total_samples
            &&& pass.first_sample == total_through(samples, i)
            &&& pass.first_sample + pass.new_samples == pass.total_samples
            &&& i == 0 ==> pass.first_sample == 0 && pass.new_samples == pass.total_samples
        }),
{
    lemma_total_grows(samples, i + 1, samples.len() as int);
    lemma_total_grows(samples, 0, i);
    assert(total_through(samples, 0) == 0);
}

/// No sample is drawn twice: a later pass starts where the passes before it
/// have ended, or after.
pub proof fn lemma_passes_draw_fresh_samples(samples: Seq<usize>, i: int, j: int)
    requires
        check_schedule(samples) is Ok,
        0 <= i < j < samples.len() <= usize::MAX,
    ensures
        Progressive::pass_at(samples, i).first_sample + Progressive::pass_at(samples, i).new_samples
            <= Progressive::pass_at(samples, j).first_sample,
{
    lemma_pass_weight(samples, i);
    lemma_pass_weight(samples, j);
    lemma_total_grows(samples, i + 1, j);
}

/// The preview's sample counts form a schedule.
pub proof fn lemma_preview_is_schedule()
    ensures
        check_schedule(preview_schedule()) is Ok,
{
    let s = preview_schedule();
    assert(no_empty_pass(s));
    assert(non_decreasing(s));
    lemma_total_bounded(s, 256, s.len() as int);
}

/// With no pass above `cap`, the first `k` passes draw at most `cap * k`
/// samples.
pub proof fn lemma_total_bounded(samples: Seq<usize>, cap: int, k: int)
    requires
        0 <= k <= samples.len(),
        forall|i: int| 0 <= i < samples.len() ==> samples[i] <= cap,
    ensures
        total_through(samples, k) <= cap * k,
    decreases k,
{
    if k > 0 {
        lemma_total_bounded(samples, cap, k - 1);
        assert(samples[k - 1] <= cap);
        assert(cap * k == cap * (k - 1) + cap) by (nonlinear_arith);
    } else {
        assert(cap * 0 == 0);
    }
}

/// The work for pixel `index` of a grid `width` pixels wide, given the
/// cancellation flag as the worker reads it now: none once the flag is set,
/// else the pixel's column, row and place in the frame buffer.
pub fn pixel_job(index: u32, width: u32, closing: bool) -> (job: Option<PixelJob>)
    requires
        width > 0,
    ensures
        closing ==> job is None,
        !closing ==> job == Some(
            PixelJob { x: (index % width) as usize, y: (index / width) as usize, index: index as usize },
        ),
{
    if closing {
        None
    } else {
        Some(PixelJob { x: (index % width) as usize, y: (index / width) as usize, index: index as usize })
    }
}

/// The sum over the first `k` passes of samples drawn times the mean of
/// those samples.
pub open spec fn weighted_sum(samples: Seq<usize>, means: Seq<int>, k: int) -> int
    decreases k,
{
    if k <= 0 {
        0
    } else {
        weighted_sum(samples, means, k - 1) + samples[k - 1] * means[k - 1]
    }
}

/// Whether `values` is what blending leaves after each pass: `values[k]` is
/// the mean of pass `k` at weight `new / total` plus the value before it at
/// weight `1 - new / total`, written without division. Before the first pass
/// the value is `start`.
pub open spec fn is_blend_history(samples: Seq<usize>, means: Seq<int>, start: int, values: Seq<int>) -> bool {
    &&& means.len() == samples.len()
    &&& values.len() == samples.len()
    &&& forall|k: int|
        0 <= k < samples.len() ==> total_through(samples, k + 1) * #[trigger] values[k] == samples[k] * means[k]
            + (total_through(samples, k + 1) - samples[k]) * (if k == 0 {
            start
        } else {
            values[k - 1]
        })
}

/// Blending pass by pass gives the plain mean of all samples drawn: after
/// every pass, the accumulated value times the number of samples so far is
/// the sum of each pass's samples times its mean. How the samples are split
/// into passes does not matter, and neither does what the buffer held before
/// the first pass.
pub proof fn lemma_blend_is_running_mean(samples: Seq<usize>, means: Seq<int>, start: int, values: Seq<int>, k: int)
    requires
        is_blend_history(samples, means, start, values),
        0 <= k < samples.len(),
    ensures
        total_through(samples, k + 1) * values[k] == weighted_sum(samples, means, k + 1),
    decreases k,
{
    let total = total_through(samples, k + 1);
    let before = if k == 0 {
        start
    } else {
        values[k - 1]
    };
    assert(total * values[k] == samples[k] * means[k] + (total - samples[k]) * before);
    assert(total - samples[k] == total_through(samples, k));
    if k == 0 {
        assert(total_through(samples, 0) == 0);
        assert(weighted_sum(samples, means, 0) == 0);
        assert((total - samples[k]) * before == 0) by (nonlinear_arith)
            requires
                total - samples[k] == 0,
        ;
    } else {
        lemma_blend_is_running_mean(samples, means, start, values, k - 1);
    }
}

/// Two passes of `a` and of `b` samples blend to the same value as one pass
/// of `a + b` samples, where the one pass draws the samples of both: its
/// mean times `a + b` is the first mean times `a` plus the second times `b`.
pub proof fn lemma_split_pass_blends_alike(
    a: usize,
    b: usize,
    first_mean: int,
    second_mean: int,
    whole_mean: int,
    start: int,
    split: Seq<int>,
    whole: Seq<int>,
)
    requires
        a > 0,
        b > 0,
        a + b <= usize::MAX,
        (a + b) * whole_mean == a * first_mean + b * second_mean,
        is_blend_history(seq![a, b], seq![first_mean, second_mean], start, split),
        is_blend_history(seq![(a + b) as usize], seq![whole_mean], start, whole),
    ensures
        split[1] == whole[0],
{
    let two = seq![a, b];
    let one = seq![(a + b) as usize];
    lemma_blend_is_running_mean(two, seq![first_mean, second_mean], start, split, 1);
    lemma_blend_is_running_mean(one, seq![whole_mean], start, whole, 0);
    reveal_with_fuel(total_through, 3);
    reveal_with_fuel(weighted_sum, 3);
    assert(total_through(two, 2) == a + b);
    assert(total_through(one, 1) == a + b);
    assert(weighted_sum(two, seq![first_mean, second_mean], 2) == a * first_mean + b * second_mean);
    assert(weighted_sum(one, seq![whole_mean], 1) == (a + b) * whole_mean);
    let n = (a + b) as int;
    assert(n * split[1] == n * whole[0]);
    assert(split[1] == whole[0]) by (nonlinear_arith)
        requires
            n > 0,
            n * split[1] == n * whole[0],
    ;
}

} // verus!
