//! Inertial estimator: register decode, startup calibration bookkeeping,
//! and the publish-on-change gate in front of the observer queue.
//!
//! The sensor delivers each axis as a big-endian signed 16-bit register
//! pair.  The estimator rounds every derived component to one decimal
//! place before publishing, so a published component is carried exactly as
//! a signed count of tenths; the floating-point sensitivity conversion and
//! angle trigonometry live in the application shell, which quantizes their
//! rounded results back into these integers.

use vstd::prelude::*;

verus! {

/// I2C device address of the inertial sensor.
pub const DEFAULT_ADDRESS: u8 = 0x68;

/// Power-management register; writing zero resets the device.
pub const REG_RESET: u8 = 0x6B;

/// First register of the 6-byte accelerometer burst.
pub const REG_ACCEL_BURST: u8 = 0x3B;

/// First register of the 6-byte gyroscope burst.
pub const REG_GYRO_BURST: u8 = 0x43;

/// First register of the 2-byte temperature burst.
pub const REG_TEMP_BURST: u8 = 0x41;

/// Raw accelerometer reading of 1 g at the selected +/-2 g range.
pub const ACCEL_ONE_G_RAW: i16 = 16384;

/// One vector of per-axis components, each a signed count of tenths.
#[derive(Clone, Copy, Debug, PartialEq, Eq, Structural)]
pub struct AxisTriple {
    pub x: i16,
    pub y: i16,
    pub z: i16,
}

/// One published estimator sample: the acceleration vector in tenths of a
/// g and the tilt angles in tenths of a degree, both already rounded to
/// one decimal place by the producer.
#[derive(Clone, Copy, Debug, PartialEq, Eq, Structural)]
pub struct Mpu6050ObserverData {
    pub acc_vec: AxisTriple,
    pub acc_angle: AxisTriple,
}

/// The signed 16-bit value that the big-endian register pair
/// `(high, low)` encodes: the two's-complement reading of
/// `high * 256 + low`.
pub open spec fn spec_decode_i16(high: u8, low: u8) -> int {
    if high < 128 {
        high * 256 + low
    } else {
        high * 256 + low - 65536
    }
}

/// Decode one big-endian signed 16-bit register pair, the encoding every
/// sensor burst uses for each axis.
pub fn decode_i16(high: u8, low: u8) -> (r: i16)
    ensures
        r as int == spec_decode_i16(high, low),
{
    let unsigned: u16 = ((high as u16) << 8) | (low as u16);
    proof {
        assert(((high as u16) << 8) | (low as u16) == (high as u16) * 256 + (low as u16))
            by (bit_vector);
    }
    if unsigned >= 32768 {
        ((unsigned as i32) - 65536) as i16
    } else {
        unsigned as i16
    }
}

/// Decode a 6-byte burst into the raw `(x, y, z)` axis triple.
pub fn decode_axes(buf: &[u8; 6]) -> (r: (i16, i16, i16))
    ensures
        r.0 as int == spec_decode_i16(buf@[0], buf@[1]),
        r.1 as int == spec_decode_i16(buf@[2], buf@[3]),
        r.2 as int == spec_decode_i16(buf@[4], buf@[5]),
{
    let x = decode_i16(buf[0], buf[1]);
    let y = decode_i16(buf[2], buf[3]);
    let z = decode_i16(buf[4], buf[5]);
    (x, y, z)
}

/// The component of a raw axis triple selected by `axis` (0, 1 or 2).
pub open spec fn spec_axis_of(t: (i16, i16, i16), axis: int) -> i16 {
    if axis == 0 {
        t.0
    } else if axis == 1 {
        t.1
    } else {
        t.2
    }
}

/// The sum of one axis over a sequence of raw samples.
pub open spec fn spec_sum_axis(s: Seq<(i16, i16, i16)>, axis: int) -> int
    decreases s.len(),
{
    if s.len() == 0 {
        0
    } else {
        spec_sum_axis(s.drop_last(), axis) + spec_axis_of(s.last(), axis)
    }
}

proof fn lemma_sum_axis_bounds(s: Seq<(i16, i16, i16)>, axis: int)
    ensures
        -32768 * s.len() <= spec_sum_axis(s, axis) <= 32767 * s.len(),
    decreases s.len(),
{
    if s.len() > 0 {
        lemma_sum_axis_bounds(s.drop_last(), axis);
    }
}

/// Accumulates the raw axis triples seen during the startup calibration
/// phase; the ghost sequence remembers exactly which samples were added,
/// so the sums are pinned to them.
pub struct CalibrationAccumulator {
    pub count: u32,
    pub sum_x: i64,
    pub sum_y: i64,
    pub sum_z: i64,
    pub samples: Ghost<Seq<(i16, i16, i16)>>,
}

impl CalibrationAccumulator {
    /// The sums are exactly the per-axis sums of the recorded samples.
    pub open spec fn wf(self) -> bool {
        &&& self.count == self.samples@.len()
        &&& self.sum_x == spec_sum_axis(self.samples@, 0)
        &&& self.sum_y == spec_sum_axis(self.samples@, 1)
        &&& self.sum_z == spec_sum_axis(self.samples@, 2)
    }

    /// An empty accumulator.
    pub fn new() -> (r: CalibrationAccumulator)
        ensures
            r.wf(),
            r.count == 0,
            r.samples@ == Seq::<(i16, i16, i16)>::empty(),
    {
        CalibrationAccumulator {
            count: 0,
            sum_x: 0,
            sum_y: 0,
            sum_z: 0,
            samples: Ghost(Seq::empty()),
        }
    }

    /// Record one raw sample in the running per-axis sums.
    pub fn add_sample(&mut self, x: i16, y: i16, z: i16)
        requires
            old(self).wf(),
            old(self).count < u32::MAX,
        ensures
            final(self).wf(),
            final(self).count == old(self).count + 1,
            final(self).samples@ == old(self).samples@.push((x, y, z)),
    {
        proof {
            lemma_sum_axis_bounds(self.samples@, 0);
            lemma_sum_axis_bounds(self.samples@, 1);
            lemma_sum_axis_bounds(self.samples@, 2);
        }
        self.sum_x = self.sum_x + x as i64;
        self.sum_y = self.sum_y + y as i64;
        self.sum_z = self.sum_z + z as i64;
        self.count = self.count + 1;
        proof {
            self.samples@ = old(self).samples@.push((x, y, z));
            assert(self.samples@.drop_last() =~= old(self).samples@);
        }
    }

    /// The bias for one axis as an exact fraction: the device is assumed
    /// stationary with expected raw reading `expected_raw`, so the bias to
    /// add to later readings is `expected_raw - sum / count`, returned
    /// here as the numerator `expected_raw * count - sum` over the
    /// denominator `count`.
    pub fn bias_numerator(&self, axis: u8, expected_raw: i16) -> (r: i64)
        requires
            self.wf(),
            axis < 3,
        ensures
            r == expected_raw * self.count - spec_sum_axis(self.samples@, axis as int),
    {
        let sum: i64 = if axis == 0 {
            self.sum_x
        } else if axis == 1 {
            self.sum_y
        } else {
            self.sum_z
        };
        proof {
            lemma_sum_axis_bounds(self.samples@, axis as int);
            let e = expected_raw as int;
            let c = self.count as int;
            let s = sum as int;
            assert((-140737488355328 <= e * c <= 140737488355328) && (-281474976710656 <= e * c - s
                <= 281474976710656)) by (nonlinear_arith)
                requires
                    -32768 <= e <= 32767,
                    0 <= c <= 4294967295,
                    -32768 * c <= s <= 32767 * c,
            ;
        }
        (expected_raw as i64) * (self.count as i64) - sum
    }
}

/// The estimator's publish-on-change state: the most recently offered
/// sample, against which the next offered sample is compared.
pub struct Mpu6050 {
    pub last_published: Mpu6050ObserverData,
}

impl Mpu6050 {
    /// Start the filter from the estimator's state at the end of
    /// calibration, so an identical first reading is not published again.
    pub fn new(initial: Mpu6050ObserverData) -> (r: Mpu6050)
        ensures
            r.last_published == initial,
    {
        Mpu6050 { last_published: initial }
    }

    /// Publish-on-change gate: report whether `sample` must be sent to
    /// the observer queue (exactly when it differs field-wise from the
    /// previous value) and remember it as the latest value.
    pub fn offer(&mut self, sample: &Mpu6050ObserverData) -> (published: bool)
        ensures
            published == (*sample != old(self).last_published),
            final(self).last_published == *sample,
    {
        if *sample == self.last_published {
            false
        } else {
            self.last_published = *sample;
            true
        }
    }
}

/// The subsequence of `samples` that the publish-on-change gate lets
/// through when it is seeded with `last0`: a sample is published exactly
/// when it differs from the latest published value (or from the seed
/// while nothing has been published yet).
pub open spec fn spec_published(
    last0: Mpu6050ObserverData,
    samples: Seq<Mpu6050ObserverData>,
) -> Seq<Mpu6050ObserverData>
    decreases samples.len(),
{
    if samples.len() == 0 {
        Seq::empty()
    } else {
        let prev = spec_published(last0, samples.drop_last());
        let latest = if prev.len() == 0 {
            last0
        } else {
            prev.last()
        };
        if samples.last() != latest {
            prev.push(samples.last())
        } else {
            prev
        }
    }
}

/// Law: after any run of offers, the value the publish filter holds — the
/// last offered sample, or the seed before any offer — equals the last
/// published sample (or the seed while nothing was published): an offer
/// that is not published never changes what the next sample is compared
/// against.
pub proof fn lemma_filter_state_is_last_published(
    last0: Mpu6050ObserverData,
    samples: Seq<Mpu6050ObserverData>,
)
    ensures
        ({
            let p = spec_published(last0, samples);
            let offered = if samples.len() == 0 {
                last0
            } else {
                samples.last()
            };
            offered == if p.len() == 0 {
                last0
            } else {
                p.last()
            }
        }),
    decreases samples.len(),
{
    if samples.len() > 0 {
        lemma_filter_state_is_last_published(last0, samples.drop_last());
    }
}

/// Law: the estimator never publishes two field-wise-equal samples in a
/// row; in the published stream every sample differs from its
/// predecessor, and the first one differs from the seed.
pub proof fn lemma_published_no_consecutive_duplicates(
    last0: Mpu6050ObserverData,
    samples: Seq<Mpu6050ObserverData>,
)
    ensures
        forall|i: int|
            0 <= i && i + 1 < spec_published(last0, samples).len() ==> (#[trigger] spec_published(
                last0,
                samples,
            )[i]) != spec_published(last0, samples)[i + 1],
        spec_published(last0, samples).len() > 0 ==> spec_published(last0, samples)[0] != last0,
    decreases samples.len(),
{
    if samples.len() > 0 {
        lemma_published_no_consecutive_duplicates(last0, samples.drop_last());
        let prev = spec_published(last0, samples.drop_last());
        let p = spec_published(last0, samples);
        if p.len() > prev.len() {
            assert forall|i: int| 0 <= i && i + 1 < p.len() implies (#[trigger] p[i]) != p[i
                + 1] by {
                if i + 1 < prev.len() {
                    assert(prev[i] != prev[i + 1]);
                }
            }
        }
    }
}

} // verus!
