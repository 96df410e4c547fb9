use vstd::prelude::*;

use crate::image_data::ImageData;

verus! {

/// Which of the four histograms to read.
#[derive(Debug, Clone, Copy, PartialEq, Eq)]
pub enum HistogramChannel {
    Red,
    Green,
    Blue,
    Luminance,
}

/// How many entries of `values` equal `v`.
pub open spec fn count_value(values: Seq<int>, v: int) -> nat
    decreases values.len(),
{
    if values.len() == 0 {
        0
    } else {
        count_value(values.drop_last(), v) + if values.last() == v {
            1nat
        } else {
            0nat
        }
    }
}

/// The values of channel `c` of the first `n` pixels of an RGBA buffer.
pub open spec fn channel_values(bytes: Seq<u8>, c: int, n: nat) -> Seq<int> {
    Seq::new(n, |p: int| bytes[p * 4 + c] as int)
}

/// Luminance levels, each capped at 255.
pub open spec fn capped_levels(levels: Seq<usize>) -> Seq<int> {
    Seq::new(levels.len(), |p: int| if levels[p] > 255 { 255 } else { levels[p] as int })
}

/// The first `k` bins of a histogram, added up.
pub open spec fn prefix_sum(bins: Seq<u32>, k: int) -> int
    decreases k,
{
    if k <= 0 {
        0
    } else {
        prefix_sum(bins, k - 1) + bins[k - 1]
    }
}

/// All bins of a histogram, added up.
pub open spec fn bin_sum(bins: Seq<u32>) -> int {
    prefix_sum(bins, bins.len() as int)
}

/// The first `k` bins, each weighted by its index, added up.
pub open spec fn weighted_prefix_sum(bins: Seq<u32>, k: int) -> int
    decreases k,
{
    if k <= 0 {
        0
    } else {
        weighted_prefix_sum(bins, k - 1) + (k - 1) * bins[k - 1]
    }
}

/// Bin `i` is one where the running count, up to and including it, reaches `target`.
pub open spec fn reaches(bins: Seq<u32>, target: int, i: int) -> bool {
    0 <= i < bins.len() && prefix_sum(bins, i + 1) >= target
}

/// Bin `i` is the first bin where the running count reaches `target`.
pub open spec fn first_reaching(bins: Seq<u32>, target: int, i: int) -> bool {
    reaches(bins, target, i) && forall|j: int| 0 <= j < i ==> !#[trigger] reaches(bins, target, j)
}

/// `r` is the percentile bin of `bins` for `target`: the first bin where the
/// running count reaches `target`, or 255 when no bin does.
pub open spec fn is_percentile_bin(bins: Seq<u32>, target: int, r: u8) -> bool {
    &&& (exists|i: int| reaches(bins, target, i)) ==> exists|i: int|
        first_reaching(bins, target, i) && r == i as u8
    &&& !(exists|i: int| reaches(bins, target, i)) ==> r == 255
}

/// Counts of channel values (red, green, blue) and of luminance levels.
#[derive(Debug, Clone)]
pub struct Histogram {
    pub red: Vec<u32>,
    pub green: Vec<u32>,
    pub blue: Vec<u32>,
    pub luminance: Vec<u32>,
}

/// `h` counts, for every value `v` below 256, the pixels of `image` whose
/// red, green and blue channels are `v`, and the pixels whose luminance level,
/// capped at 255, is `v`.
pub open spec fn is_histogram_of(h: Histogram, image: ImageData, levels: Seq<usize>) -> bool {
    let n = image.w() * image.h();
    &&& h.red@.len() == 256 && h.green@.len() == 256 && h.blue@.len() == 256
        && h.luminance@.len() == 256
    &&& forall|v: int|
        0 <= v < 256 ==> #[trigger] h.red@[v] == count_value(channel_values(image.bytes(), 0, n), v)
    &&& forall|v: int|
        0 <= v < 256 ==> #[trigger] h.green@[v] == count_value(
            channel_values(image.bytes(), 1, n),
            v,
        )
    &&& forall|v: int|
        0 <= v < 256 ==> #[trigger] h.blue@[v] == count_value(channel_values(image.bytes(), 2, n), v)
    &&& forall|v: int|
        0 <= v < 256 ==> #[trigger] h.luminance@[v] == count_value(capped_levels(levels), v)
}

/// Counting one more value adds one to its count and leaves the other counts.
proof fn lemma_count_push(values: Seq<int>, x: int, v: int)
    ensures
        count_value(values.push(x), v) == count_value(values, v) + if x == v {
            1nat
        } else {
            0nat
        },
{
    assert(values.push(x).drop_last() =~= values);
}

/// No count exceeds the number of values.
proof fn lemma_count_bounded(values: Seq<int>, v: int)
    ensures
        count_value(values, v) <= values.len(),
    decreases values.len(),
{
    if values.len() > 0 {
        lemma_count_bounded(values.drop_last(), v);
    }
}

/// The counts of the values `0..k`, added up.
spec fn counts_below(values: Seq<int>, k: int) -> int
    decreases k,
{
    if k <= 0 {
        0
    } else {
        counts_below(values, k - 1) + count_value(values, k - 1)
    }
}

proof fn lemma_counts_below_push(values: Seq<int>, x: int, k: int)
    requires
        k >= 0,
    ensures
        counts_below(values.push(x), k) == counts_below(values, k) + if 0 <= x < k {
            1int
        } else {
            0int
        },
    decreases k,
{
    if k > 0 {
        lemma_counts_below_push(values, x, k - 1);
        lemma_count_push(values, x, k - 1);
    }
}

proof fn lemma_counts_below_all(values: Seq<int>)
    requires
        forall|i: int| 0 <= i < values.len() ==> 0 <= #[trigger] values[i] < 256,
    ensures
        counts_below(values, 256) == values.len(),
    decreases values.len(),
{
    if values.len() == 0 {
        lemma_counts_below_zero(values, 256);
    } else {
        let front = values.drop_last();
        assert(front.push(values.last()) =~= values);
        lemma_counts_below_all(front);
        lemma_counts_below_push(front, values.last(), 256);
    }
}

proof fn lemma_counts_below_zero(values: Seq<int>, k: int)
    requires
        values.len() == 0,
        k >= 0,
    ensures
        counts_below(values, k) == 0,
    decreases k,
{
    if k > 0 {
        lemma_counts_below_zero(values, k - 1);
    }
}

proof fn lemma_prefix_sum_of_counts(bins: Seq<u32>, values: Seq<int>, k: int)
    requires
        0 <= k <= bins.len(),
        forall|v: int| 0 <= v < bins.len() ==> #[trigger] bins[v] == count_value(values, v),
    ensures
        prefix_sum(bins, k) == counts_below(values, k),
    decreases k,
{
    if k > 0 {
        lemma_prefix_sum_of_counts(bins, values, k - 1);
    }
}

/// Counts of values that all lie in `0..256`, taken over the 256 bins, add up
/// to the number of values.
pub proof fn lemma_counts_add_up(bins: Seq<u32>, values: Seq<int>)
    requires
        bins.len() == 256,
        forall|v: int| 0 <= v < 256 ==> #[trigger] bins[v] == count_value(values, v),
        forall|i: int| 0 <= i < values.len() ==> 0 <= #[trigger] values[i] < 256,
    ensures
        bin_sum(bins) == values.len(),
{
    lemma_prefix_sum_of_counts(bins, values, 256);
    lemma_counts_below_all(values);
}

/// All the values added up.
pub open spec fn value_total(values: Seq<int>) -> int
    decreases values.len(),
{
    if values.len() == 0 {
        0
    } else {
        value_total(values.drop_last()) + values.last()
    }
}

/// Each value `v` of `0..k` times its count, added up.
spec fn weighted_counts_below(values: Seq<int>, k: int) -> int
    decreases k,
{
    if k <= 0 {
        0
    } else {
        weighted_counts_below(values, k - 1) + (k - 1) * count_value(values, k - 1)
    }
}

proof fn lemma_weighted_prefix_sum_of_counts(bins: Seq<u32>, values: Seq<int>, k: int)
    requires
        0 <= k <= bins.len(),
        forall|v: int| 0 <= v < bins.len() ==> #[trigger] bins[v] == count_value(values, v),
    ensures
        weighted_prefix_sum(bins, k) == weighted_counts_below(values, k),
    decreases k,
{
    if k > 0 {
        lemma_weighted_prefix_sum_of_counts(bins, values, k - 1);
    }
}

proof fn lemma_weighted_counts_below_push(values: Seq<int>, x: int, k: int)
    requires
        k >= 0,
    ensures
        weighted_counts_below(values.push(x), k) == weighted_counts_below(values, k) + if 0 <= x
            < k {
            x
        } else {
            0int
        },
    decreases k,
{
    if k > 0 {
        lemma_weighted_counts_below_push(values, x, k - 1);
        lemma_count_push(values, x, k - 1);
        let c = count_value(values, k - 1) as int;
        assert((k - 1) * (c + 1) == (k - 1) * c + (k - 1)) by (nonlinear_arith);
    }
}

proof fn lemma_weighted_counts_below_zero(values: Seq<int>, k: int)
    requires
        values.len() == 0,
        k >= 0,
    ensures
        weighted_counts_below(values, k) == 0,
    decreases k,
{
    if k > 0 {
        lemma_weighted_counts_below_zero(values, k - 1);
        assert(count_value(values, k - 1) == 0);
        assert((k - 1) * 0 == 0);
    }
}

proof fn lemma_weighted_counts_below_all(values: Seq<int>)
    requires
        forall|i: int| 0 <= i < values.len() ==> 0 <= #[trigger] values[i] < 256,
    ensures
        weighted_counts_below(values, 256) == value_total(values),
    decreases values.len(),
{
    if values.len() == 0 {
        lemma_weighted_counts_below_zero(values, 256);
    } else {
        let front = values.drop_last();
        assert(front.push(values.last()) =~= values);
        lemma_weighted_counts_below_all(front);
        lemma_weighted_counts_below_push(front, values.last(), 256);
    }
}

/// Counts of values that all lie in `0..256`, each weighted by its bin's value
/// and taken over the 256 bins, add up to the total of the values.
pub proof fn lemma_weighted_counts_add_up(bins: Seq<u32>, values: Seq<int>)
    requires
        bins.len() == 256,
        forall|v: int| 0 <= v < 256 ==> #[trigger] bins[v] == count_value(values, v),
        forall|i: int| 0 <= i < values.len() ==> 0 <= #[trigger] values[i] < 256,
    ensures
        weighted_prefix_sum(bins, 256) == value_total(values),
{
    lemma_weighted_prefix_sum_of_counts(bins, values, 256);
    lemma_weighted_counts_below_all(values);
}

/// The weighted sum of an image's red, green or blue histogram (what
/// `weighted_sum` returns) is the total of that channel over all pixels, so
/// the channel's mean is that total over the pixel count.
pub proof fn lemma_weighted_sum_totals_channel(h: Histogram, image: ImageData, levels: Seq<usize>)
    requires
        is_histogram_of(h, image, levels),
    ensures
        weighted_prefix_sum(h.red@, 256) == value_total(
            channel_values(image.bytes(), 0, image.w() * image.h()),
        ),
        weighted_prefix_sum(h.green@, 256) == value_total(
            channel_values(image.bytes(), 1, image.w() * image.h()),
        ),
        weighted_prefix_sum(h.blue@, 256) == value_total(
            channel_values(image.bytes(), 2, image.w() * image.h()),
        ),
{
    let n = image.w() * image.h();
    lemma_weighted_counts_add_up(h.red@, channel_values(image.bytes(), 0, n));
    lemma_weighted_counts_add_up(h.green@, channel_values(image.bytes(), 1, n));
    lemma_weighted_counts_add_up(h.blue@, channel_values(image.bytes(), 2, n));
}

/// Each of the four histograms of an image counts every pixel once: its bins
/// add up to the number of pixels.
pub proof fn lemma_histogram_counts_every_pixel(h: Histogram, image: ImageData, levels: Seq<usize>)
    requires
        is_histogram_of(h, image, levels),
        levels.len() == image.w() * image.h(),
    ensures
        bin_sum(h.red@) == image.w() * image.h(),
        bin_sum(h.green@) == image.w() * image.h(),
        bin_sum(h.blue@) == image.w() * image.h(),
        bin_sum(h.luminance@) == image.w() * image.h(),
{
    let n = image.w() * image.h();
    lemma_counts_add_up(h.red@, channel_values(image.bytes(), 0, n));
    lemma_counts_add_up(h.green@, channel_values(image.bytes(), 1, n));
    lemma_counts_add_up(h.blue@, channel_values(image.bytes(), 2, n));
    lemma_counts_add_up(h.luminance@, capped_levels(levels));
}

/// The running count never goes down, so the first bin that reaches a target
/// comes no later than the first bin that reaches a larger target.
pub proof fn lemma_percentile_bin_monotone(bins: Seq<u32>, t1: int, t2: int, i1: int, i2: int)
    requires
        t1 <= t2,
        first_reaching(bins, t1, i1),
        first_reaching(bins, t2, i2),
    ensures
        i1 <= i2,
{
    if i2 < i1 {
        assert(reaches(bins, t1, i2));
    }
}

/// Percentile bins never go down as the target grows: for histograms of at
/// most 256 bins, a larger target gives a bin at least as high.
pub proof fn lemma_percentile_bins_ordered(bins: Seq<u32>, t1: int, t2: int, r1: u8, r2: u8)
    requires
        bins.len() <= 256,
        t1 <= t2,
        is_percentile_bin(bins, t1, r1),
        is_percentile_bin(bins, t2, r2),
    ensures
        r1 <= r2,
{
    if exists|i: int| reaches(bins, t2, i) {
        let k = choose|i: int| reaches(bins, t2, i);
        assert(reaches(bins, t1, k));
        let i1 = choose|i: int| first_reaching(bins, t1, i) && r1 == i as u8;
        let i2 = choose|i: int| first_reaching(bins, t2, i) && r2 == i as u8;
        lemma_percentile_bin_monotone(bins, t1, t2, i1, i2);
        assert(i1 as u8 == i1 && i2 as u8 == i2);
    } else {
        assert(r2 == 255);
    }
}

proof fn lemma_prefix_sum_monotone(bins: Seq<u32>, j: int, k: int)
    requires
        0 <= j <= k <= bins.len(),
    ensures
        0 <= prefix_sum(bins, j) <= prefix_sum(bins, k),
    decreases k,
{
    if j < k {
        lemma_prefix_sum_monotone(bins, j, k - 1);
    } else if k > 0 {
        lemma_prefix_sum_monotone(bins, 0, k - 1);
    }
}

proof fn lemma_weighted_prefix_sum_monotone(bins: Seq<u32>, j: int, k: int)
    requires
        0 <= j <= k <= bins.len(),
    ensures
        0 <= weighted_prefix_sum(bins, j) <= weighted_prefix_sum(bins, k),
    decreases k,
{
    if k > 0 {
        assert((k - 1) * bins[k - 1] >= 0) by (nonlinear_arith)
            requires
                k >= 1,
                bins[k - 1] >= 0,
        ;
        if j < k {
            lemma_weighted_prefix_sum_monotone(bins, j, k - 1);
        } else {
            lemma_weighted_prefix_sum_monotone(bins, 0, k - 1);
        }
    }
}

impl Histogram {
    /// The bins of one channel.
    pub open spec fn bins(&self, channel: HistogramChannel) -> Seq<u32> {
        match channel {
            HistogramChannel::Red => self.red@,
            HistogramChannel::Green => self.green@,
            HistogramChannel::Blue => self.blue@,
            HistogramChannel::Luminance => self.luminance@,
        }
    }

    /// An empty histogram: 256 zero bins for each channel.
    pub fn new() -> (r: Histogram)
        ensures
            r.red@ == Seq::new(256, |i: int| 0u32),
            r.green@ == Seq::new(256, |i: int| 0u32),
            r.blue@ == Seq::new(256, |i: int| 0u32),
            r.luminance@ == Seq::new(256, |i: int| 0u32),
    {
        let r = Histogram {
            red: vec![0u32; 256],
            green: vec![0u32; 256],
            blue: vec![0u32; 256],
            luminance: vec![0u32; 256],
        };
        assert(r.red@ =~= Seq::new(256, |i: int| 0u32));
        assert(r.green@ =~= Seq::new(256, |i: int| 0u32));
        assert(r.blue@ =~= Seq::new(256, |i: int| 0u32));
        assert(r.luminance@ =~= Seq::new(256, |i: int| 0u32));
        r
    }

    /// The histogram of an image, given the luminance level of each pixel
    /// (levels above 255 are counted at 255).
    pub fn from_image(image: &ImageData, luminance: &Vec<usize>) -> (r: Histogram)
        requires
            luminance@.len() == image.w() * image.h(),
            image.w() * image.h() <= u32::MAX,
        ensures
            is_histogram_of(r, *image, luminance@),
    {
        let mut histogram = Self::new();
        let data = image.as_raw();
        let len = data.len();
        let n = luminance.len();
        let ghost red_values = channel_values(image.bytes(), 0, n as nat);
        let ghost green_values = channel_values(image.bytes(), 1, n as nat);
        let ghost blue_values = channel_values(image.bytes(), 2, n as nat);
        let ghost levels = capped_levels(luminance@);
        assert(data@.len() == n * 4) by (nonlinear_arith)
            requires
                data@.len() == image.w() * image.h() * 4,
                n == image.w() * image.h(),
        ;
        let mut p: usize = 0;
        while p < n
            invariant
                p <= n,
                n == luminance@.len(),
                n <= u32::MAX,
                data@ == image.bytes(),
                data@.len() == n * 4,
                len == data@.len(),
                red_values == channel_values(image.bytes(), 0, n as nat),
                green_values == channel_values(image.bytes(), 1, n as nat),
                blue_values == channel_values(image.bytes(), 2, n as nat),
                levels == capped_levels(luminance@),
                histogram.red@.len() == 256 && histogram.green@.len() == 256 && histogram.blue@.len()
                    == 256 && histogram.luminance@.len() == 256,
                forall|v: int|
                    0 <= v < 256 ==> #[trigger] histogram.red@[v] == count_value(
                        red_values.take(p as int),
                        v,
                    ),
                forall|v: int|
                    0 <= v < 256 ==> #[trigger] histogram.green@[v] == count_value(
                        green_values.take(p as int),
                        v,
                    ),
                forall|v: int|
                    0 <= v < 256 ==> #[trigger] histogram.blue@[v] == count_value(
                        blue_values.take(p as int),
                        v,
                    ),
                forall|v: int|
                    0 <= v < 256 ==> #[trigger] histogram.luminance@[v] == count_value(
                        levels.take(p as int),
                        v,
                    ),
            decreases n - p,
        {
            let r = data[p * 4] as usize;
            let g = data[p * 4 + 1] as usize;
            let b = data[p * 4 + 2] as usize;
            let l = if luminance[p] > 255 {
                255
            } else {
                luminance[p]
            };
            proof {
                assert(red_values.take(p + 1) =~= red_values.take(p as int).push(r as int));
                assert(green_values.take(p + 1) =~= green_values.take(p as int).push(g as int));
                assert(blue_values.take(p + 1) =~= blue_values.take(p as int).push(b as int));
                assert(levels.take(p + 1) =~= levels.take(p as int).push(l as int));
                lemma_count_bounded(red_values.take(p as int), r as int);
                lemma_count_bounded(green_values.take(p as int), g as int);
                lemma_count_bounded(blue_values.take(p as int), b as int);
                lemma_count_bounded(levels.take(p as int), l as int);
            }
            let ghost before = histogram;
            let rc = histogram.red[r];
            histogram.red.set(r, rc + 1);
            let gc = histogram.green[g];
            histogram.green.set(g, gc + 1);
            let bc = histogram.blue[b];
            histogram.blue.set(b, bc + 1);
            let lc = histogram.luminance[l];
            histogram.luminance.set(l, lc + 1);
            proof {
                assert forall|v: int| 0 <= v < 256 implies #[trigger] histogram.red@[v]
                    == count_value(red_values.take(p + 1), v) by {
                    assert(before.red@[v] == count_value(red_values.take(p as int), v));
                    lemma_count_push(red_values.take(p as int), r as int, v);
                }
                assert forall|v: int| 0 <= v < 256 implies #[trigger] histogram.green@[v]
                    == count_value(green_values.take(p + 1), v) by {
                    assert(before.green@[v] == count_value(green_values.take(p as int), v));
                    lemma_count_push(green_values.take(p as int), g as int, v);
                }
                assert forall|v: int| 0 <= v < 256 implies #[trigger] histogram.blue@[v]
                    == count_value(blue_values.take(p + 1), v) by {
                    assert(before.blue@[v] == count_value(blue_values.take(p as int), v));
                    lemma_count_push(blue_values.take(p as int), b as int, v);
                }
                assert forall|v: int| 0 <= v < 256 implies #[trigger] histogram.luminance@[v]
                    == count_value(levels.take(p + 1), v) by {
                    assert(before.luminance@[v] == count_value(levels.take(p as int), v));
                    lemma_count_push(levels.take(p as int), l as int, v);
                }
            }
            p = p + 1;
        }
        proof {
            assert(red_values.take(n as int) =~= red_values);
            assert(green_values.take(n as int) =~= green_values);
            assert(blue_values.take(n as int) =~= blue_values);
            assert(levels.take(n as int) =~= levels);
        }
        histogram
    }

    /// The number of pixels counted in one channel: all its bins added up.
    pub fn total(&self, channel: HistogramChannel) -> (r: u32)
        requires
            bin_sum(self.bins(channel)) <= u32::MAX,
        ensures
            r == bin_sum(self.bins(channel)),
    {
        let data = match channel {
            HistogramChannel::Red => &self.red,
            HistogramChannel::Green => &self.green,
            HistogramChannel::Blue => &self.blue,
            HistogramChannel::Luminance => &self.luminance,
        };
        let mut total: u32 = 0;
        let mut i: usize = 0;
        while i < data.len()
            invariant
                i <= data@.len(),
                data@ == self.bins(channel),
                bin_sum(data@) <= u32::MAX,
                total == prefix_sum(data@, i as int),
            decreases data@.len() - i,
        {
            proof {
                lemma_prefix_sum_monotone(data@, i + 1, data@.len() as int);
            }
            total = total + data[i];
            i = i + 1;
        }
        total
    }

    /// The bins of one channel, each weighted by its index (the channel value),
    /// added up: the numerator of the channel's mean.
    pub fn weighted_sum(&self, channel: HistogramChannel) -> (r: u32)
        requires
            weighted_prefix_sum(self.bins(channel), self.bins(channel).len() as int) <= u32::MAX,
            self.bins(channel).len() <= u32::MAX,
        ensures
            r == weighted_prefix_sum(self.bins(channel), self.bins(channel).len() as int),
    {
        let data = match channel {
            HistogramChannel::Red => &self.red,
            HistogramChannel::Green => &self.green,
            HistogramChannel::Blue => &self.blue,
            HistogramChannel::Luminance => &self.luminance,
        };
        let mut sum: u32 = 0;
        let mut i: usize = 0;
        while i < data.len()
            invariant
                i <= data@.len(),
                data@.len() <= u32::MAX,
                data@ == self.bins(channel),
                weighted_prefix_sum(data@, data@.len() as int) <= u32::MAX,
                sum == weighted_prefix_sum(data@, i as int),
            decreases data@.len() - i,
        {
            proof {
                lemma_weighted_prefix_sum_monotone(data@, i + 1, data@.len() as int);
                lemma_weighted_prefix_sum_monotone(data@, 0, i as int);
            }
            let term: u32 = i as u32 * data[i];
            sum = sum + term;
            i = i + 1;
        }
        sum
    }

    /// The first bin of one channel where the running count of pixels reaches
    /// `target_pixels`, or 255 when no bin does.
    pub fn percentile_bin(&self, channel: HistogramChannel, target_pixels: u32) -> (r: u8)
        requires
            bin_sum(self.bins(channel)) <= u32::MAX,
        ensures
            is_percentile_bin(self.bins(channel), target_pixels as int, r),
    {
        let data = match channel {
            HistogramChannel::Red => &self.red,
            HistogramChannel::Green => &self.green,
            HistogramChannel::Blue => &self.blue,
            HistogramChannel::Luminance => &self.luminance,
        };
        let mut cumulative: u32 = 0;
        let mut i: usize = 0;
        while i < data.len()
            invariant
                i <= data@.len(),
                data@ == self.bins(channel),
                bin_sum(data@) <= u32::MAX,
                cumulative == prefix_sum(data@, i as int),
                forall|j: int| 0 <= j < i ==> !#[trigger] reaches(data@, target_pixels as int, j),
            decreases data@.len() - i,
        {
            proof {
                lemma_prefix_sum_monotone(data@, i + 1, data@.len() as int);
            }
            cumulative = cumulative + data[i];
            if cumulative >= target_pixels {
                assert(first_reaching(data@, target_pixels as int, i as int));
                return i as u8;
            }
            i = i + 1;
        }
        255
    }
}

} // verus!
