use vstd::prelude::*;

use crate::color::Color;

verus! {

/// One pixel of the histogram: a hit count (`alpha`) and the summed color of
/// the hits. The channel type is an integer while the chaos game accumulates
/// and a wider numeric type while the histogram is tone-mapped.
#[derive(Debug, Clone, Copy, PartialEq, Eq, Structural)]
pub struct Bucket<T> {
    pub alpha: T,
    pub red: T,
    pub green: T,
    pub blue: T,
}

/// The largest value that an accumulating channel can hold.
pub open spec fn channel_max() -> int {
    u32::MAX as int
}

impl<T> Bucket<T> {
    /// The four channels in the order alpha, red, green, blue.
    pub open spec fn argb(self) -> Seq<T> {
        seq![self.alpha, self.red, self.green, self.blue]
    }

    /// The three color channels in the order red, green, blue.
    pub open spec fn rgb(self) -> Seq<T> {
        seq![self.red, self.green, self.blue]
    }
}

impl<T: Copy> Bucket<T> {
    /// The color channels: red, green, blue.
    pub fn iter_rgb(&self) -> (r: Vec<T>)
        ensures
            r@ == self.rgb(),
    {
        let r = vec![self.red, self.green, self.blue];
        assert(r@ =~= self.rgb());
        r
    }

    /// All channels: alpha, red, green, blue.
    pub fn iter_argb(&self) -> (r: Vec<T>)
        ensures
            r@ == self.argb(),
    {
        let r = vec![self.alpha, self.red, self.green, self.blue];
        assert(r@ =~= self.argb());
        r
    }

    /// The three color channels, to change in place.
    pub fn iter_rgb_mut(&mut self) -> (r: (&mut T, &mut T, &mut T))
        ensures
            *r.0 == old(self).red,
            *r.1 == old(self).green,
            *r.2 == old(self).blue,
            *final(self) == (Bucket {
                alpha: old(self).alpha,
                red: *final(r.0),
                green: *final(r.1),
                blue: *final(r.2),
            }),
    {
        (&mut self.red, &mut self.green, &mut self.blue)
    }

    /// The four channels, to change in place.
    pub fn iter_argb_mut(&mut self) -> (r: (&mut T, &mut T, &mut T, &mut T))
        ensures
            *r.0 == old(self).alpha,
            *r.1 == old(self).red,
            *r.2 == old(self).green,
            *r.3 == old(self).blue,
            *final(self) == (Bucket {
                alpha: *final(r.0),
                red: *final(r.1),
                green: *final(r.2),
                blue: *final(r.3),
            }),
    {
        (&mut self.alpha, &mut self.red, &mut self.green, &mut self.blue)
    }

    /// Builds a bucket from the first four values, read as alpha, red, green,
    /// blue; `None` when there are fewer than four.
    pub fn from_argb(values: &[T]) -> (r: Option<Bucket<T>>)
        ensures
            r is Some <==> values@.len() >= 4,
            r is Some ==> r->0.argb() == values@.subrange(0, 4),
    {
        if values.len() < 4 {
            return None;
        }
        let b = Bucket { alpha: values[0], red: values[1], green: values[2], blue: values[3] };
        assert(b.argb() =~= values@.subrange(0, 4));
        Some(b)
    }

    /// Applies `f` to each channel.
    pub fn map<S, F: Fn(T) -> S>(self, f: F) -> (r: Bucket<S>)
        requires
            f.requires((self.alpha,)),
            f.requires((self.red,)),
            f.requires((self.green,)),
            f.requires((self.blue,)),
        ensures
            f.ensures((self.alpha,), r.alpha),
            f.ensures((self.red,), r.red),
            f.ensures((self.green,), r.green),
            f.ensures((self.blue,), r.blue),
    {
        Bucket { alpha: f(self.alpha), red: f(self.red), green: f(self.green), blue: f(self.blue) }
    }
}

/// A bucket's channels as mathematical integers.
pub open spec fn ints(b: Bucket<u32>) -> Bucket<int> {
    Bucket { alpha: b.alpha as int, red: b.red as int, green: b.green as int, blue: b.blue as int }
}

/// Channel-wise sum.
pub open spec fn sum(a: Bucket<int>, b: Bucket<int>) -> Bucket<int> {
    Bucket {
        alpha: a.alpha + b.alpha,
        red: a.red + b.red,
        green: a.green + b.green,
        blue: a.blue + b.blue,
    }
}

pub open spec fn zero() -> Bucket<int> {
    Bucket { alpha: 0, red: 0, green: 0, blue: 0 }
}

/// Every channel lies within what an accumulating channel can hold.
pub open spec fn fits(b: Bucket<int>) -> bool {
    &&& 0 <= b.alpha <= channel_max()
    &&& 0 <= b.red <= channel_max()
    &&& 0 <= b.green <= channel_max()
    &&& 0 <= b.blue <= channel_max()
}

/// What one plotted point of color `c` adds to a bucket.
pub open spec fn hit(c: Color) -> Bucket<int> {
    Bucket { alpha: 1, red: c.red as int, green: c.green as int, blue: c.blue as int }
}

impl Bucket<u32> {
    pub fn new() -> (b: Bucket<u32>)
        ensures
            ints(b) == zero(),
    {
        Bucket { alpha: 0, red: 0, green: 0, blue: 0 }
    }

    /// Records one point of color `color`: the hit count grows by one and each
    /// color channel by the color's value. Where a channel would overflow the
    /// bucket is left as it was and `false` is returned.
    pub fn plot(&mut self, color: Color) -> (plotted: bool)
        ensures
            plotted == fits(sum(ints(*old(self)), hit(color))),
            plotted ==> ints(*final(self)) == sum(ints(*old(self)), hit(color)),
            !plotted ==> *final(self) == *old(self),
    {
        if self.alpha < u32::MAX && self.red <= u32::MAX - color.red as u32 && self.green
            <= u32::MAX - color.green as u32 && self.blue <= u32::MAX - color.blue as u32 {
            self.alpha = self.alpha + 1;
            self.red = self.red + color.red as u32;
            self.green = self.green + color.green as u32;
            self.blue = self.blue + color.blue as u32;
            true
        } else {
            false
        }
    }

    /// Whether adding `other` into this bucket keeps every channel in range.
    pub fn fits_with(&self, other: Bucket<u32>) -> (r: bool)
        ensures
            r == fits(sum(ints(*self), ints(other))),
    {
        self.alpha <= u32::MAX - other.alpha && self.red <= u32::MAX - other.red && self.green
            <= u32::MAX - other.green && self.blue <= u32::MAX - other.blue
    }

    /// Adds `other` into this bucket, channel by channel.
    pub fn accumulate(&mut self, other: Bucket<u32>)
        requires
            fits(sum(ints(*old(self)), ints(other))),
        ensures
            ints(*final(self)) == sum(ints(*old(self)), ints(other)),
    {
        self.alpha = self.alpha + other.alpha;
        self.red = self.red + other.red;
        self.green = self.green + other.green;
        self.blue = self.blue + other.blue;
    }
}

} // verus!
