use vstd::prelude::*;

verus! {

/// Iterations at the start of each run that are not plotted, while the point
/// settles onto the attractor.
pub const BURN_IN: usize = 20;

/// What one iteration of the chaos game does to the current point.
#[derive(Debug, Clone, Copy, PartialEq, Eq, Structural)]
pub enum Action {
    /// Apply a randomly chosen function entry, then the final function.
    Step,
    /// Rotate by a random multiple of a full turn divided by the symmetry order.
    Rotate,
    /// Mirror the x-coordinate.
    Reflect,
}

/// The actions that a symmetry order enables, in draw order: the step always,
/// the rotation when the order's magnitude exceeds one, the reflection when
/// the order is negative.
pub open spec fn enabled_actions(symmetry: i8) -> Seq<Action> {
    let rotate: Seq<Action> = if symmetry > 1 || symmetry < -1 {
        seq![Action::Rotate]
    } else {
        Seq::empty()
    };
    let reflect: Seq<Action> = if symmetry < 0 {
        seq![Action::Reflect]
    } else {
        Seq::empty()
    };
    seq![Action::Step] + rotate + reflect
}

/// How many actions a symmetry order enables; each iteration draws one of
/// them uniformly.
pub fn num_actions(symmetry: i8) -> (n: u8)
    ensures
        n == enabled_actions(symmetry).len(),
        1 <= n <= 3,
{
    let mut n: u8 = 1;
    if symmetry > 1 || symmetry < -1 {
        n = n + 1;
    }
    if symmetry < 0 {
        n = n + 1;
    }
    n
}

/// The action that the uniform draw `draw` selects.
pub fn choose_action(symmetry: i8, draw: u8) -> (a: Action)
    requires
        draw < enabled_actions(symmetry).len(),
    ensures
        a == enabled_actions(symmetry)[draw as int],
{
    let rotates = symmetry > 1 || symmetry < -1;
    if draw == 0 {
        Action::Step
    } else if draw == 1 && rotates {
        Action::Rotate
    } else {
        Action::Reflect
    }
}

/// The order of the rotational symmetry: the magnitude of `symmetry`.
pub fn rotation_order(symmetry: i8) -> (n: u8)
    ensures
        n == if symmetry < 0 {
            -symmetry
        } else {
            symmetry as int
        },
{
    if symmetry < 0 {
        (-(symmetry as i16)) as u8
    } else {
        symmetry as u8
    }
}

/// Whether iteration `i` of a run is plotted: all but the first [`BURN_IN`].
pub fn past_burn_in(i: usize) -> (plotted: bool)
    ensures
        plotted == (i >= BURN_IN),
{
    i >= BURN_IN
}

/// Each action that a symmetry order enables is drawn with the same
/// probability: it occurs exactly once among the draws. With a negative order
/// of magnitude above one there are three of them, so the reflection is taken
/// on a third of the iterations.
pub proof fn lemma_actions_equally_likely(symmetry: i8)
    ensures
        enabled_actions(symmetry).no_duplicates(),
        enabled_actions(symmetry).contains(Action::Step),
        enabled_actions(symmetry).contains(Action::Rotate) <==> (symmetry > 1 || symmetry < -1),
        enabled_actions(symmetry).contains(Action::Reflect) <==> symmetry < 0,
        symmetry < -1 ==> enabled_actions(symmetry).len() == 3,
{
    let s = enabled_actions(symmetry);
    if symmetry < -1 {
        assert(s =~= seq![Action::Step, Action::Rotate, Action::Reflect]);
        assert(s[2] == Action::Reflect);
        assert(s[1] == Action::Rotate);
    } else if symmetry < 0 {
        assert(s =~= seq![Action::Step, Action::Reflect]);
        assert(s[1] == Action::Reflect);
    } else if symmetry > 1 {
        assert(s =~= seq![Action::Step, Action::Rotate]);
        assert(s[1] == Action::Rotate);
    } else {
        assert(s =~= seq![Action::Step]);
    }
    assert(s[0] == Action::Step);
}

/// The shape of a run of the chaos game: the histogram's size, the iteration
/// budget and how many workers share it.
#[derive(Debug, Clone, Copy, PartialEq, Eq, Structural)]
pub struct RunConfig {
    pub width: usize,
    pub height: usize,
    pub iters: usize,
    pub threads: usize,
}

/// The iterations that `threads` workers run together when each runs an equal
/// share of `iters`.
pub open spec fn iterations_run(iters: int, threads: int) -> int {
    threads * (iters / threads)
}

impl RunConfig {
    /// The iterations that each worker runs: an equal share of the budget,
    /// rounded down.
    pub fn worker_iters(&self) -> (n: usize)
        requires
            self.threads >= 1,
        ensures
            n == self.iters / self.threads,
    {
        self.iters / self.threads
    }
}

/// Sharing the budget between workers loses fewer iterations than there are
/// workers: one worker runs the whole budget, `threads` workers run at most
/// `threads - 1` iterations less.
pub proof fn lemma_split_loses_less_than_a_round(iters: usize, threads: usize)
    requires
        threads >= 1,
    ensures
        iterations_run(iters as int, 1) == iters,
        iters - (threads - 1) as int <= iterations_run(iters as int, threads as int) <= iters,
{
    let q = iters as int / threads as int;
    let r = iters as int % threads as int;
    assert(iters as int == threads * q + r && 0 <= r < threads) by {
        vstd::arithmetic::div_mod::lemma_fundamental_div_mod(iters as int, threads as int);
    }
}

/// The side of a histogram that is rendered `samples` pixels deep around each
/// output pixel: `1 + 2 * samples` times the output side, plus a border of
/// `2 * samples`. `None` where that does not fit in a `usize`.
pub fn supersampled_size(size: usize, samples: usize) -> (r: Option<usize>)
    ensures
        r is Some <==> (1 + 2 * samples) * size + 2 * samples <= usize::MAX,
        r is Some ==> r->0 == (1 + 2 * samples) * size + 2 * samples,
{
    if samples > (usize::MAX - 1) / 2 {
        assert((1 + 2 * samples) * size + 2 * samples > usize::MAX) by (nonlinear_arith)
            requires
                samples > (usize::MAX - 1) / 2,
                size >= 0,
        ;
        return None;
    }
    let block = 1 + 2 * samples;
    if size > (usize::MAX - 2 * samples) / block {
        assert(block * size + 2 * samples > usize::MAX) by (nonlinear_arith)
            requires
                size > (usize::MAX - 2 * samples) / block as int,
                block >= 1,
                2 * samples <= usize::MAX,
        ;
        return None;
    }
    assert(block * size + 2 * samples <= usize::MAX) by (nonlinear_arith)
        requires
            size <= (usize::MAX - 2 * samples) / block as int,
            block >= 1,
            2 * samples <= usize::MAX,
    ;
    Some(block * size + 2 * samples)
}

/// The side of the output that a supersampled histogram side gives: one output
/// pixel per full block of `1 + 2 * samples` pixels.
pub fn downsampled_size(size: usize, samples: usize) -> (r: usize)
    requires
        1 + 2 * samples <= usize::MAX,
    ensures
        r == size as int / (1 + 2 * samples),
{
    size / (1 + 2 * samples)
}

/// Downsampling a supersampled side gives the original side back.
pub proof fn lemma_downsample_inverts_supersample(size: nat, samples: nat)
    ensures
        ((1 + 2 * samples) * size + 2 * samples) / (1 + 2 * samples) == size,
{
    let block = (1 + 2 * samples) as int;
    assert(block * size == size * block) by (nonlinear_arith);
    vstd::arithmetic::div_mod::lemma_fundamental_div_mod_converse(
        block * size + 2 * samples,
        block,
        size as int,
        2 * samples as int,
    );
}

} // verus!
