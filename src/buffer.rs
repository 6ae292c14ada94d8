use vstd::prelude::*;

use crate::bucket::{fits, hit, ints, sum, zero, Bucket};
use crate::color::Color;

verus! {

/// A `width` by `height` grid of buckets, stored row by row.
#[derive(Debug, Clone)]
pub struct Buffer<T> {
    pub width: usize,
    pub height: usize,
    pub buckets: Vec<Bucket<T>>,
}

impl<T> Buffer<T> {
    /// The grid holds exactly one bucket per pixel.
    pub open spec fn wf(&self) -> bool {
        self.buckets@.len() == self.width * self.height
    }

    /// Where pixel (x, y) is stored.
    pub open spec fn index(&self, x: int, y: int) -> int {
        x + y * self.width
    }

    /// The bucket of pixel (x, y).
    pub open spec fn at(&self, x: int, y: int) -> Bucket<T> {
        self.buckets@[self.index(x, y)]
    }

    pub open spec fn same_size(&self, other: &Buffer<T>) -> bool {
        self.width == other.width && self.height == other.height
    }
}

/// Pixel (x, y) of a `width`-wide grid lies before the end of its row-major storage.
proof fn lemma_index_in_grid(x: int, y: int, width: int, height: int)
    requires
        0 <= x < width,
        0 <= y < height,
    ensures
        0 <= y * width <= x + y * width,
        x + y * width < width * height,
        x + y * width < height * width,
{
    assert(0 <= y * width) by (nonlinear_arith)
        requires
            0 <= y,
            0 <= width,
    ;
    assert(y * width + width <= width * height) by (nonlinear_arith)
        requires
            y + 1 <= height,
            0 <= width,
    ;
}

impl<T: Copy> Buffer<T> {
    pub fn get(&self, x: usize, y: usize) -> (b: Bucket<T>)
        requires
            self.wf(),
            x < self.width,
            y < self.height,
        ensures
            b == self.at(x as int, y as int),
    {
        proof {
            lemma_index_in_grid(x as int, y as int, self.width as int, self.height as int);
        }
        let n = self.buckets.len();
        self.buckets[x + y * self.width]
    }

    pub fn get_mut(&mut self, x: usize, y: usize) -> (b: &mut Bucket<T>)
        requires
            old(self).wf(),
            x < old(self).width,
            y < old(self).height,
        ensures
            *b == old(self).at(x as int, y as int),
            final(self).width == old(self).width,
            final(self).height == old(self).height,
            final(self).buckets@ == old(self).buckets@.update(
                old(self).index(x as int, y as int),
                *final(b),
            ),
    {
        proof {
            lemma_index_in_grid(x as int, y as int, self.width as int, self.height as int);
        }
        let n = self.buckets.len();
        let i = x + y * self.width;
        &mut self.buckets[i]
    }

    /// Builds a grid whose bucket at (x, y) is `f(x, y)`.
    pub fn from_func<F: Fn(usize, usize) -> Bucket<T>>(width: usize, height: usize, f: F) -> (r:
        Buffer<T>)
        requires
            width * height <= usize::MAX,
            forall|x: usize, y: usize| x < width && y < height ==> f.requires((x, y)),
        ensures
            r.wf(),
            r.width == width,
            r.height == height,
            forall|x: usize, y: usize|
                x < width && y < height ==> f.ensures((x, y), #[trigger] r.at(x as int, y as int)),
    {
        let mut buckets: Vec<Bucket<T>> = Vec::new();
        let mut y: usize = 0;
        while y < height
            invariant
                width * height <= usize::MAX,
                y <= height,
                buckets@.len() == y * width,
                forall|x: usize, y: usize| x < width && y < height ==> f.requires((x, y)),
                forall|xx: usize, yy: usize|
                    xx < width && yy < y ==> f.ensures(
                        (xx, yy),
                        #[trigger] buckets@[xx + yy * width],
                    ),
            decreases height - y,
        {
            assert((y + 1) * width <= width * height) by (nonlinear_arith)
                requires
                    y < height,
            ;
            let mut x: usize = 0;
            while x < width
                invariant
                    width * height <= usize::MAX,
                    y < height,
                    x <= width,
                    (y + 1) * width <= width * height,
                    buckets@.len() == y * width + x,
                    forall|x: usize, y: usize| x < width && y < height ==> f.requires((x, y)),
                    forall|xx: usize, yy: usize|
                        (xx < width && yy < y) || (xx < x && yy == y) ==> f.ensures(
                            (xx, yy),
                            #[trigger] buckets@[xx + yy * width],
                        ),
                decreases width - x,
            {
                let b = f(x, y);
                let ghost prev = buckets@;
                buckets.push(b);
                proof {
                    assert forall|xx: usize, yy: usize|
                        (xx < width && yy < y) || (xx < x + 1 && yy == y) implies f.ensures(
                        (xx, yy),
                        #[trigger] buckets@[xx + yy * width],
                    ) by {
                        if yy < y {
                            lemma_index_in_grid(xx as int, yy as int, width as int, y as int);
                            assert(buckets@[xx + yy * width] == prev[xx + yy * width]);
                        } else if xx < x {
                            assert(buckets@[xx + yy * width] == prev[xx + yy * width]);
                        }
                    }
                }
                x = x + 1;
            }
            assert(buckets@.len() == (y + 1) * width) by (nonlinear_arith)
                requires
                    buckets@.len() == y * width + width,
            ;
            y = y + 1;
        }
        assert(buckets@.len() == width * height) by (nonlinear_arith)
            requires
                buckets@.len() == y * width,
                y == height,
        ;
        Buffer { width, height, buckets }
    }
}

/// A block of side `side` whose corner is block (x, y) ends inside a grid
/// of `size` pixels when (x, y) is below `size / side`.
proof fn lemma_block_in_grid(x: int, xi: int, side: int, size: int)
    requires
        side >= 1,
        size >= 0,
        0 <= x < size / side,
        0 <= xi < side,
    ensures
        0 <= side * x <= side * x + xi < size,
{
    vstd::arithmetic::div_mod::lemma_fundamental_div_mod(size, side);
    assert(side * x + xi < size) by (nonlinear_arith)
        requires
            x + 1 <= size / side,
            side >= 1,
            0 <= xi < side,
            size == side * (size / side) + size % side,
            0 <= size % side,
    ;
    assert(0 <= side * x) by (nonlinear_arith)
        requires
            side >= 1,
            x >= 0,
    ;
}

impl<T: Copy> Buffer<T> {
    /// The buckets that output pixel (x, y) covers when the grid is
    /// downsampled `samples` pixels deep: the square of side
    /// `1 + 2 * samples` whose corner is that side times (x, y), row by row.
    pub fn block(&self, x: usize, y: usize, samples: usize) -> (r: Vec<Bucket<T>>)
        requires
            self.wf(),
            1 + 2 * samples <= usize::MAX,
            x < self.width as int / (1 + 2 * samples),
            y < self.height as int / (1 + 2 * samples),
        ensures
            r@.len() == (1 + 2 * samples) * (1 + 2 * samples),
            forall|xi: int, yi: int|
                0 <= xi < 1 + 2 * samples && 0 <= yi < 1 + 2 * samples ==> #[trigger] r@[xi + yi
                    * (1 + 2 * samples)] == self.at(
                    (1 + 2 * samples) * x + xi,
                    (1 + 2 * samples) * y + yi,
                ),
    {
        let side = 1 + 2 * samples;
        let mut r: Vec<Bucket<T>> = Vec::new();
        let mut yi: usize = 0;
        while yi < side
            invariant
                self.wf(),
                side == 1 + 2 * samples,
                x < self.width as int / side as int,
                y < self.height as int / side as int,
                yi <= side,
                r@.len() == yi * side,
                forall|a: int, b: int|
                    0 <= a < side && 0 <= b < yi ==> #[trigger] r@[a + b * side] == self.at(
                        side * x + a,
                        side * y + b,
                    ),
            decreases side - yi,
        {
            let mut xi: usize = 0;
            while xi < side
                invariant
                    self.wf(),
                    side == 1 + 2 * samples,
                    x < self.width as int / side as int,
                    y < self.height as int / side as int,
                    yi < side,
                    xi <= side,
                    r@.len() == yi * side + xi,
                    forall|a: int, b: int|
                        (0 <= a < side && 0 <= b < yi) || (0 <= a < xi && b == yi) ==> #[trigger] r@[a
                            + b * side] == self.at(side * x + a, side * y + b),
                decreases side - xi,
            {
                proof {
                    lemma_block_in_grid(x as int, xi as int, side as int, self.width as int);
                    lemma_block_in_grid(y as int, yi as int, side as int, self.height as int);
                }
                let b = self.get(side * x + xi, side * y + yi);
                let ghost prev = r@;
                r.push(b);
                proof {
                    assert forall|a: int, c: int|
                        (0 <= a < side && 0 <= c < yi) || (0 <= a < xi + 1 && c == yi) implies #[trigger] r@[a
                        + c * side] == self.at(side * x + a, side * y + c) by {
                        if c < yi {
                            lemma_index_in_grid(a, c, side as int, yi as int);
                            assert(r@[a + c * side] == prev[a + c * side]);
                        } else if a < xi {
                            assert(r@[a + c * side] == prev[a + c * side]);
                        }
                    }
                }
                xi = xi + 1;
            }
            assert(r@.len() == (yi + 1) * side) by (nonlinear_arith)
                requires
                    r@.len() == yi * side + side,
            ;
            yi = yi + 1;
        }
        r
    }
}

/// The red, green and blue channels of `buckets`, one bucket after another.
pub open spec fn rgb_flat<T>(buckets: Seq<Bucket<T>>) -> Seq<T>
    decreases buckets.len(),
{
    if buckets.len() == 0 {
        Seq::empty()
    } else {
        rgb_flat(buckets.drop_last()) + buckets.last().rgb()
    }
}

impl<T: Copy> Buffer<T> {
    /// The samples of a grayscale image of the grid: each bucket's alpha, in
    /// storage order.
    pub fn gray_samples(&self) -> (r: Vec<T>)
        ensures
            r@ == self.buckets@.map_values(|b: Bucket<T>| b.alpha),
    {
        let mut r: Vec<T> = Vec::new();
        let mut i: usize = 0;
        while i < self.buckets.len()
            invariant
                i <= self.buckets@.len(),
                r@ == self.buckets@.take(i as int).map_values(|b: Bucket<T>| b.alpha),
            decreases self.buckets@.len() - i,
        {
            r.push(self.buckets[i].alpha);
            assert(self.buckets@.take(i + 1).map_values(|b: Bucket<T>| b.alpha) =~= self.buckets@.take(
                i as int,
            ).map_values(|b: Bucket<T>| b.alpha).push(self.buckets@[i as int].alpha));
            i = i + 1;
        }
        assert(self.buckets@.take(i as int) =~= self.buckets@);
        r
    }

    /// The samples of an RGB image of the grid: red, green and blue of each
    /// bucket, in storage order.
    pub fn rgb_samples(&self) -> (r: Vec<T>)
        ensures
            r@ == rgb_flat(self.buckets@),
    {
        let mut r: Vec<T> = Vec::new();
        let mut i: usize = 0;
        while i < self.buckets.len()
            invariant
                i <= self.buckets@.len(),
                r@ == rgb_flat(self.buckets@.take(i as int)),
            decreases self.buckets@.len() - i,
        {
            let b = self.buckets[i];
            assert(self.buckets@.take(i + 1).drop_last() =~= self.buckets@.take(i as int));
            r.push(b.red);
            r.push(b.green);
            r.push(b.blue);
            assert(r@ =~= rgb_flat(self.buckets@.take(i + 1)));
            i = i + 1;
        }
        assert(self.buckets@.take(i as int) =~= self.buckets@);
        r
    }
}

/// The channel-wise total of the buckets stored at index `i` over all of `bufs`.
pub open spec fn total(bufs: Seq<Buffer<u32>>, i: int) -> Bucket<int>
    decreases bufs.len(),
{
    if bufs.len() == 0 {
        zero()
    } else {
        sum(total(bufs.drop_last(), i), ints(bufs.last().buckets@[i]))
    }
}

/// Every channel of `a` is at most the same channel of `b`.
pub open spec fn below(a: Bucket<int>, b: Bucket<int>) -> bool {
    &&& a.alpha <= b.alpha
    &&& a.red <= b.red
    &&& a.green <= b.green
    &&& a.blue <= b.blue
}

proof fn lemma_total_nonneg(bufs: Seq<Buffer<u32>>, i: int)
    ensures
        below(zero(), total(bufs, i)),
    decreases bufs.len(),
{
    if bufs.len() > 0 {
        lemma_total_nonneg(bufs.drop_last(), i);
    }
}

/// The total over a prefix is below the total over the whole sequence.
proof fn lemma_total_prefix(bufs: Seq<Buffer<u32>>, k: int, i: int)
    requires
        0 <= k <= bufs.len(),
    ensures
        below(zero(), total(bufs.take(k), i)),
        below(total(bufs.take(k), i), total(bufs, i)),
    decreases bufs.len(),
{
    lemma_total_nonneg(bufs.take(k), i);
    if k == bufs.len() {
        assert(bufs.take(k) =~= bufs);
    } else {
        lemma_total_prefix(bufs.drop_last(), k, i);
        assert(bufs.drop_last().take(k) =~= bufs.take(k));
    }
}

impl Buffer<u32> {
    /// A grid of empty buckets.
    pub fn new(width: usize, height: usize) -> (r: Buffer<u32>)
        requires
            width * height <= usize::MAX,
        ensures
            r.wf(),
            r.width == width,
            r.height == height,
            forall|i: int| 0 <= i < r.buckets@.len() ==> ints(#[trigger] r.buckets@[i]) == zero(),
            forall|i: int|
                0 <= i < r.buckets@.len() ==> #[trigger] r.buckets@[i] == (Bucket::<u32> {
                    alpha: 0,
                    red: 0,
                    green: 0,
                    blue: 0,
                }),
    {
        let n = width * height;
        let mut buckets: Vec<Bucket<u32>> = Vec::new();
        let mut i: usize = 0;
        while i < n
            invariant
                i <= n,
                buckets@.len() == i,
                forall|j: int|
                    0 <= j < i ==> #[trigger] buckets@[j] == (Bucket::<u32> {
                        alpha: 0,
                        red: 0,
                        green: 0,
                        blue: 0,
                    }),
            decreases n - i,
        {
            buckets.push(Bucket::new());
            i = i + 1;
        }
        Buffer { width, height, buckets }
    }

    /// Records one point of color `color` at pixel (x, y); see [`Bucket::plot`].
    /// No other bucket changes.
    pub fn plot(&mut self, x: usize, y: usize, color: Color) -> (plotted: bool)
        requires
            old(self).wf(),
            x < old(self).width,
            y < old(self).height,
        ensures
            final(self).wf(),
            final(self).same_size(old(self)),
            plotted == fits(sum(ints(old(self).at(x as int, y as int)), hit(color))),
            plotted ==> ints(final(self).at(x as int, y as int)) == sum(
                ints(old(self).at(x as int, y as int)),
                hit(color),
            ),
            !plotted ==> final(self).at(x as int, y as int) == old(self).at(x as int, y as int),
            forall|i: int|
                0 <= i < old(self).buckets@.len() && i != old(self).index(x as int, y as int)
                    ==> #[trigger] final(self).buckets@[i] == old(self).buckets@[i],
    {
        proof {
            lemma_index_in_grid(x as int, y as int, self.width as int, self.height as int);
        }
        let b = self.get_mut(x, y);
        b.plot(color)
    }

    /// Merges the histograms of several workers: each bucket of the result is
    /// the channel-wise sum of the buckets at the same pixel.
    pub fn combine(buffers: Vec<Buffer<u32>>) -> (r: Buffer<u32>)
        requires
            combinable(buffers@),
        ensures
            r.wf(),
            r.same_size(&buffers@[0]),
            forall|i: int|
                0 <= i < r.buckets@.len() ==> ints(#[trigger] r.buckets@[i]) == total(buffers@, i),
    {
        match Buffer::checked_combine(buffers) {
            Some(r) => r,
            None => {
                proof {
                    assert(false);
                }
                Buffer::new(0, 0)
            },
        }
    }
}

/// The conditions under which [`Buffer::combine`] can merge `buffers`: at
/// least one buffer, all well formed and of one size, and every merged channel
/// within range.
pub open spec fn combinable(buffers: Seq<Buffer<u32>>) -> bool {
    &&& buffers.len() >= 1
    &&& forall|k: int|
        0 <= k < buffers.len() ==> (#[trigger] buffers[k]).wf() && buffers[k].same_size(
            &buffers[0],
        )
    &&& forall|i: int| 0 <= i < buffers[0].buckets@.len() ==> fits(#[trigger] total(buffers, i))
}

impl Buffer<u32> {
    /// Merges like [`Buffer::combine`] where that is possible and returns
    /// `None` otherwise: for no buffers, buffers of different sizes, or a
    /// channel whose sum would overflow.
    pub fn checked_combine(buffers: Vec<Buffer<u32>>) -> (r: Option<Buffer<u32>>)
        ensures
            r is Some <==> combinable(buffers@),
            r is Some ==> r->0.wf() && r->0.same_size(&buffers@[0]) && forall|i: int|
                0 <= i < r->0.buckets@.len() ==> ints(#[trigger] r->0.buckets@[i]) == total(
                    buffers@,
                    i,
                ),
    {
        let n = buffers.len();
        if n == 0 {
            return None;
        }
        let width = buffers[0].width;
        let height = buffers[0].height;
        let len = buffers[0].buckets.len();
        match width.checked_mul(height) {
            Some(cells) => {
                if cells != len {
                    return None;
                }
            },
            None => {
                return None;
            },
        }
        let mut k: usize = 0;
        while k < n
            invariant
                n == buffers@.len(),
                k <= n,
                len == width * height,
                width == buffers@[0].width,
                height == buffers@[0].height,
                len == buffers@[0].buckets@.len(),
                forall|j: int|
                    0 <= j < k ==> (#[trigger] buffers@[j]).wf() && buffers@[j].same_size(
                        &buffers@[0],
                    ),
            decreases n - k,
        {
            if buffers[k].width != width || buffers[k].height != height || buffers[k].buckets.len()
                != len {
                assert(!(buffers@[k as int].wf() && buffers@[k as int].same_size(&buffers@[0])));
                return None;
            }
            k = k + 1;
        }
        let mut combined = Buffer::new(width, height);
        assert(buffers@.take(0) =~= Seq::<Buffer<u32>>::empty());
        let mut k: usize = 0;
        while k < n
            invariant
                n == buffers@.len(),
                k <= n,
                len == buffers@[0].buckets@.len(),
                len == width * height,
                width == buffers@[0].width,
                height == buffers@[0].height,
                combined.wf(),
                combined.width == width,
                combined.height == height,
                forall|k: int|
                    0 <= k < buffers@.len() ==> (#[trigger] buffers@[k]).wf()
                        && buffers@[k].same_size(&buffers@[0]),
                forall|i: int|
                    0 <= i < len ==> ints(#[trigger] combined.buckets@[i]) == total(
                        buffers@.take(k as int),
                        i,
                    ),
            decreases n - k,
        {
            assert(buffers@.take(k + 1).drop_last() =~= buffers@.take(k as int));
            let ghost next = buffers@.take(k + 1);
            let mut j: usize = 0;
            while j < len
                invariant
                    n == buffers@.len(),
                    k < n,
                    j <= len,
                    len == buffers@[0].buckets@.len(),
                    len == width * height,
                    combined.wf(),
                    combined.width == width,
                    combined.height == height,
                    buffers@[0].wf(),
                    buffers@[k as int].wf(),
                    buffers@[k as int].same_size(&buffers@[0]),
                    next == buffers@.take(k + 1),
                    next.drop_last() == buffers@.take(k as int),
                    forall|i: int|
                        0 <= i < j ==> ints(#[trigger] combined.buckets@[i]) == total(next, i),
                    forall|i: int|
                        j <= i < len ==> ints(#[trigger] combined.buckets@[i]) == total(
                            buffers@.take(k as int),
                            i,
                        ),
                decreases len - j,
            {
                let add = buffers[k].buckets[j];
                let mut c = combined.buckets[j];
                if !c.fits_with(add) {
                    proof {
                        lemma_total_prefix(buffers@, k + 1, j as int);
                        assert(!fits(total(buffers@, j as int)));
                    }
                    return None;
                }
                c.accumulate(add);
                combined.buckets.set(j, c);
                j = j + 1;
            }
            k = k + 1;
        }
        assert(buffers@.take(n as int) =~= buffers@);
        assert forall|i: int| 0 <= i < buffers@[0].buckets@.len() implies fits(
            #[trigger] total(buffers@, i),
        ) by {
            assert(ints(combined.buckets@[i]) == total(buffers@, i));
        }
        Some(combined)
    }
}

/// Merging two histograms gives the same buckets in either order.
pub proof fn lemma_combine_commutes(a: Buffer<u32>, b: Buffer<u32>)
    requires
        a.wf(),
        b.wf(),
        a.same_size(&b),
    ensures
        forall|i: int|
            0 <= i < a.buckets@.len() ==> total(seq![a, b], i) == total(
                seq![b, a],
                i,
            ) && total(seq![a, b], i) == sum(
                ints(#[trigger] a.buckets@[i]),
                ints(b.buckets@[i]),
            ),
{
    assert(seq![a, b].drop_last() =~= seq![a]);
    assert(seq![b, a].drop_last() =~= seq![b]);
    assert(seq![a].drop_last() =~= Seq::<Buffer<u32>>::empty());
    assert(seq![b].drop_last() =~= Seq::<Buffer<u32>>::empty());
    assert forall|i: int| 0 <= i < a.buckets@.len() implies total(seq![a, b], i) == total(
        seq![b, a],
        i,
    ) && total(seq![a, b], i) == sum(ints(#[trigger] a.buckets@[i]), ints(b.buckets@[i])) by {
        assert(total(Seq::<Buffer<u32>>::empty(), i) == zero());
        assert(total(seq![a], i) == ints(a.buckets@[i]));
        assert(total(seq![b], i) == ints(b.buckets@[i]));
    }
}

/// Merging a histogram with an empty one, in either order, leaves its buckets
/// as they were.
pub proof fn lemma_combine_with_empty(a: Buffer<u32>, z: Buffer<u32>)
    requires
        a.wf(),
        z.wf(),
        a.same_size(&z),
        forall|i: int| 0 <= i < z.buckets@.len() ==> ints(#[trigger] z.buckets@[i]) == zero(),
    ensures
        forall|i: int|
            0 <= i < a.buckets@.len() ==> total(seq![a, z], i) == ints(#[trigger] a.buckets@[i])
                && total(seq![z, a], i) == ints(a.buckets@[i]),
{
    assert(seq![a, z].drop_last() =~= seq![a]);
    assert(seq![z, a].drop_last() =~= seq![z]);
    assert(seq![a].drop_last() =~= Seq::<Buffer<u32>>::empty());
    assert(seq![z].drop_last() =~= Seq::<Buffer<u32>>::empty());
    assert forall|i: int| 0 <= i < a.buckets@.len() implies total(seq![a, z], i) == ints(
        #[trigger] a.buckets@[i],
    ) && total(seq![z, a], i) == ints(a.buckets@[i]) by {
        assert(total(Seq::<Buffer<u32>>::empty(), i) == zero());
        assert(total(seq![a], i) == ints(a.buckets@[i]));
        assert(total(seq![z], i) == ints(z.buckets@[i]));
    }
}

} // verus!
