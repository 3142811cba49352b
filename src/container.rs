use vstd::prelude::*;
use crate::sample_format::{ScalarType, SamplePacking};

verus! {

/// A PCM scalar that the output buffer can hold.
pub trait Sample: Copy + Sized {
    /// The numeric kind of the scalar.
    spec fn scalar() -> ScalarType;

    fn scalar_type() -> (r: ScalarType)
        ensures
            r == Self::scalar(),
    ;

    /// The silent sample that fresh storage is filled with.
    spec fn silence() -> Self;

    fn zero() -> (r: Self)
        ensures
            r == Self::silence(),
    ;
}

impl Sample for u8 {
    open spec fn scalar() -> ScalarType {
        ScalarType::U8
    }

    fn scalar_type() -> (r: ScalarType) {
        ScalarType::U8
    }

    open spec fn silence() -> Self {
        0
    }

    fn zero() -> (r: Self) {
        0
    }
}

impl Sample for i16 {
    open spec fn scalar() -> ScalarType {
        ScalarType::I16
    }

    fn scalar_type() -> (r: ScalarType) {
        ScalarType::I16
    }

    open spec fn silence() -> Self {
        0
    }

    fn zero() -> (r: Self) {
        0
    }
}

impl Sample for i32 {
    open spec fn scalar() -> ScalarType {
        ScalarType::I32
    }

    fn scalar_type() -> (r: ScalarType) {
        ScalarType::I32
    }

    open spec fn silence() -> Self {
        0
    }

    fn zero() -> (r: Self) {
        0
    }
}

impl Sample for i64 {
    open spec fn scalar() -> ScalarType {
        ScalarType::I64
    }

    fn scalar_type() -> (r: ScalarType) {
        ScalarType::I64
    }

    open spec fn silence() -> Self {
        0
    }

    fn zero() -> (r: Self) {
        0
    }
}

/// Position in the flat storage of sample `s` of channel `c`, for a buffer
/// of `channels` rows and `capacity` columns in the given packing.
pub open spec fn slot(channels: nat, capacity: nat, packing: SamplePacking, c: int, s: int) -> int {
    match packing {
        SamplePacking::Interleaved => s * channels + c,
        SamplePacking::Deinterleaved => c * capacity + s,
    }
}

/// Two positions of a buffer are the same slot only for the same sample of
/// the same channel, and every slot lies inside the storage.
pub proof fn lemma_slot(
    channels: nat,
    capacity: nat,
    packing: SamplePacking,
    c1: int,
    s1: int,
    c2: int,
    s2: int,
)
    requires
        0 <= c1 < channels,
        0 <= c2 < channels,
        0 <= s1 < capacity,
        0 <= s2 < capacity,
    ensures
        0 <= slot(channels, capacity, packing, c1, s1) < channels * capacity,
        slot(channels, capacity, packing, c1, s1) == slot(channels, capacity, packing, c2, s2)
            ==> c1 == c2 && s1 == s2,
{
    let n = channels as int;
    let m = capacity as int;
    match packing {
        SamplePacking::Interleaved => {
            assert(0 <= s1 * n + c1 < n * m) by (nonlinear_arith)
                requires
                    0 <= c1 < n,
                    0 <= s1 < m,
            ;
            if s1 < s2 {
                assert(s1 * n + c1 < s2 * n + c2) by (nonlinear_arith)
                    requires
                        0 <= c1 < n,
                        0 <= c2,
                        s1 < s2,
                ;
            } else if s2 < s1 {
                assert(s2 * n + c2 < s1 * n + c1) by (nonlinear_arith)
                    requires
                        0 <= c2 < n,
                        0 <= c1,
                        s2 < s1,
                ;
            }
        },
        SamplePacking::Deinterleaved => {
            assert(0 <= c1 * m + s1 < n * m) by (nonlinear_arith)
                requires
                    0 <= c1 < n,
                    0 <= s1 < m,
            ;
            if c1 < c2 {
                assert(c1 * m + s1 < c2 * m + s2) by (nonlinear_arith)
                    requires
                        0 <= s1 < m,
                        0 <= s2,
                        c1 < c2,
                ;
            } else if c2 < c1 {
                assert(c2 * m + s2 < c1 * m + s1) by (nonlinear_arith)
                    requires
                        0 <= s2 < m,
                        0 <= s1,
                        c2 < c1,
                ;
            }
        },
    }
}

/// What an output buffer holds.
pub ghost struct BufferView<T> {
    /// Number of channels, fixed at creation.
    pub channels: nat,
    /// Number of samples per channel that the storage has room for.
    pub capacity: nat,
    /// Number of samples per channel that hold decoded data.
    pub samples: nat,
    pub sample_rate: i32,
    pub packing: SamplePacking,
    /// The flat storage.
    pub data: Seq<T>,
}

impl<T> BufferView<T> {
    pub open spec fn well_formed(self) -> bool {
        &&& self.data.len() == self.channels * self.capacity
        &&& self.channels * self.capacity <= usize::MAX
        &&& self.samples <= self.capacity
    }

    /// Sample `s` of channel `c`.
    pub open spec fn at(self, c: int, s: int) -> T {
        self.data[slot(self.channels, self.capacity, self.packing, c, s)]
    }
}

/// A growable two-dimensional sample buffer, channels by samples, in one
/// contiguous storage.
pub struct AudioBuffer<T> {
    data: Vec<T>,
    channels: usize,
    capacity: usize,
    samples: usize,
    sample_rate: i32,
    packing: SamplePacking,
}

impl<T> View for AudioBuffer<T> {
    type V = BufferView<T>;

    closed spec fn view(&self) -> BufferView<T> {
        BufferView {
            channels: self.channels as nat,
            capacity: self.capacity as nat,
            samples: self.samples as nat,
            sample_rate: self.sample_rate,
            packing: self.packing,
            data: self.data@,
        }
    }
}

/// A window over the tail of an output buffer: the columns from `offset` to
/// the end of the storage at the time it was built.
#[derive(PartialEq, Eq, Structural, Copy, Clone, Debug)]
pub struct Cursor {
    pub offset: usize,
    pub len: usize,
}

/// One unit of decoded PCM samples: for interleaved data all channels stand
/// in the first plane, for planar data each channel has a plane of its own.
pub struct Frame<T> {
    pub nb_samples: usize,
    pub data: Vec<Vec<T>>,
}

/// Whether a frame holds enough data for `channels` channels in `packing`.
pub open spec fn frame_fits<T>(f: &Frame<T>, channels: nat, packing: SamplePacking) -> bool {
    match packing {
        SamplePacking::Interleaved => f.data@.len() >= 1 && f.data@[0]@.len() >= f.nb_samples
            * channels,
        SamplePacking::Deinterleaved => f.data@.len() >= channels && forall|c: int|
            0 <= c < channels ==> #[trigger] f.data@[c]@.len() >= f.nb_samples,
    }
}

/// Sample `i` of channel `c` of a frame.
pub open spec fn frame_at<T>(f: &Frame<T>, channels: nat, packing: SamplePacking, c: int, i: int) -> T {
    match packing {
        SamplePacking::Interleaved => f.data@[0]@[i * channels + c],
        SamplePacking::Deinterleaved => f.data@[c]@[i],
    }
}

impl<T: Sample> AudioBuffer<T> {
    /// A buffer of `channels` channels with room for `capacity` samples each,
    /// filled with silence and holding no valid samples yet.
    pub fn zeros(channels: usize, capacity: usize, packing: SamplePacking) -> (r: AudioBuffer<T>)
        requires
            channels * capacity <= usize::MAX,
        ensures
            r@.well_formed(),
            r@.channels == channels,
            r@.capacity == capacity,
            r@.samples == 0,
            r@.sample_rate == 0,
            r@.packing == packing,
            forall|j: int| 0 <= j < r@.data.len() ==> r@.data[j] == T::silence(),
    {
        let total = channels * capacity;
        let z = T::zero();
        let mut data: Vec<T> = Vec::new();
        while data.len() < total
            invariant
                data@.len() <= total,
                forall|j: int| 0 <= j < data@.len() ==> data@[j] == z,
            decreases total - data@.len(),
        {
            data.push(z);
        }
        AudioBuffer { data, channels, capacity, samples: 0, sample_rate: 0, packing }
    }
}


/// Position of sample `s` of channel `c` in the flat storage.
fn slot_of(channels: usize, capacity: usize, packing: SamplePacking, c: usize, s: usize) -> (r:
    usize)
    requires
        c < channels,
        s < capacity,
        channels * capacity <= usize::MAX,
    ensures
        r == slot(channels as nat, capacity as nat, packing, c as int, s as int),
        r < channels * capacity,
{
    proof {
        lemma_slot(channels as nat, capacity as nat, packing, c as int, s as int, c as int, s as int);
    }
    match packing {
        SamplePacking::Interleaved => {
            assert(s * channels <= s * channels + c);
            s * channels + c
        },
        SamplePacking::Deinterleaved => {
            assert(c * capacity <= c * capacity + s);
            c * capacity + s
        },
    }
}

impl<T: Sample> AudioBuffer<T> {
    pub fn channels(&self) -> (r: usize)
        ensures
            r == self@.channels,
    {
        self.channels
    }

    /// Number of samples per channel that the storage has room for.
    pub fn capacity(&self) -> (r: usize)
        ensures
            r == self@.capacity,
    {
        self.capacity
    }

    /// Number of valid samples per channel.
    pub fn samples(&self) -> (r: usize)
        ensures
            r == self@.samples,
    {
        self.samples
    }

    pub fn sample_rate(&self) -> (r: i32)
        ensures
            r == self@.sample_rate,
    {
        self.sample_rate
    }

    pub fn packing_type(&self) -> (r: SamplePacking)
        ensures
            r == self@.packing,
    {
        self.packing
    }

    pub fn set_sample_rate(&mut self, rate: i32)
        ensures
            final(self)@ == (BufferView { sample_rate: rate, ..old(self)@ }),
    {
        self.sample_rate = rate;
    }

    /// Sets the number of valid samples per channel; storage is untouched.
    pub fn set_samples(&mut self, samples: usize)
        requires
            old(self)@.well_formed(),
            samples <= old(self)@.capacity,
        ensures
            final(self)@ == (BufferView { samples: samples as nat, ..old(self)@ }),
            final(self)@.well_formed(),
    {
        self.samples = samples;
    }

    /// Sample `s` of channel `c`.
    pub fn get(&self, c: usize, s: usize) -> (r: T)
        requires
            self@.well_formed(),
            c < self@.channels,
            s < self@.capacity,
        ensures
            r == self@.at(c as int, s as int),
    {
        let j = slot_of(self.channels, self.capacity, self.packing, c, s);
        self.data[j]
    }

    /// A write cursor over the columns from `offset` to the end of the
    /// storage as it stands now.
    pub fn cursor_at(&self, offset: usize) -> (r: Cursor)
        requires
            offset <= self@.capacity,
        ensures
            r.offset == offset,
            r.offset + r.len == self@.capacity,
    {
        Cursor { offset, len: self.capacity - offset }
    }

    /// Grows the storage to `capacity` samples per channel. The samples
    /// already stored keep their place, the new columns are silent, and the
    /// number of valid samples is unchanged. The storage may move, so any
    /// cursor built before is stale afterwards.
    pub fn grow(&mut self, capacity: usize)
        requires
            old(self)@.well_formed(),
            old(self)@.capacity <= capacity,
            old(self)@.channels * capacity <= usize::MAX,
        ensures
            final(self)@.well_formed(),
            final(self)@.channels == old(self)@.channels,
            final(self)@.capacity == capacity,
            final(self)@.samples == old(self)@.samples,
            final(self)@.sample_rate == old(self)@.sample_rate,
            final(self)@.packing == old(self)@.packing,
            forall|c: int, s: int|
                0 <= c < old(self)@.channels && 0 <= s < old(self)@.capacity
                    ==> #[trigger] final(self)@.at(c, s) == old(self)@.at(c, s),
            forall|c: int, s: int|
                0 <= c < old(self)@.channels && old(self)@.capacity <= s < capacity
                    ==> #[trigger] final(self)@.at(c, s) == T::silence(),
    {
        let ghost prev = self@;
        let channels = self.channels;
        let old_capacity = self.capacity;
        let packing = self.packing;
        let total = channels * capacity;
        let z = T::zero();
        let mut fresh: Vec<T> = Vec::new();
        while fresh.len() < total
            invariant
                fresh@.len() <= total,
                forall|j: int| 0 <= j < fresh@.len() ==> fresh@[j] == z,
            decreases total - fresh@.len(),
        {
            fresh.push(z);
        }
        let ghost n = channels as nat;
        let ghost m = capacity as nat;
        assert(channels * old_capacity <= channels * capacity) by (nonlinear_arith)
            requires
                old_capacity <= capacity,
        ;
        assert forall|c2: int, s2: int|
            0 <= c2 < channels && 0 <= s2 < capacity implies #[trigger] fresh@[slot(
                n,
                m,
                packing,
                c2,
                s2,
            )] == z by {
            lemma_slot(n, m, packing, c2, s2, c2, s2);
        }
        let mut c: usize = 0;
        while c < channels
            invariant
                channels * old_capacity <= channels * capacity,
                prev == self@,
                prev.well_formed(),
                channels == prev.channels,
                old_capacity == prev.capacity,
                packing == prev.packing,
                old_capacity <= capacity,
                total == channels * capacity,
                n == channels as nat,
                m == capacity as nat,
                fresh@.len() == total,
                c <= channels,
                forall|c2: int, s2: int|
                    0 <= c2 < channels && 0 <= s2 < capacity ==> #[trigger] fresh@[slot(
                        n,
                        m,
                        packing,
                        c2,
                        s2,
                    )] == if c2 < c && s2 < old_capacity {
                        prev.at(c2, s2)
                    } else {
                        z
                    },
            decreases channels - c,
        {
            let mut s: usize = 0;
            while s < old_capacity
                invariant
                    channels * old_capacity <= channels * capacity,
                    prev == self@,
                    prev.well_formed(),
                    channels == prev.channels,
                    old_capacity == prev.capacity,
                    packing == prev.packing,
                    old_capacity <= capacity,
                    total == channels * capacity,
                    n == channels as nat,
                    m == capacity as nat,
                    fresh@.len() == total,
                    c < channels,
                    s <= old_capacity,
                    forall|c2: int, s2: int|
                        0 <= c2 < channels && 0 <= s2 < capacity ==> #[trigger] fresh@[slot(
                            n,
                            m,
                            packing,
                            c2,
                            s2,
                        )] == if (c2 < c || (c2 == c && s2 < s)) && s2 < old_capacity {
                            prev.at(c2, s2)
                        } else {
                            z
                        },
                decreases old_capacity - s,
            {
                proof {
                    lemma_slot(prev.channels, prev.capacity, packing, c as int, s as int, c as int, s as int);
                }
                let v = self.data[slot_of(channels, old_capacity, packing, c, s)];
                let j = slot_of(channels, capacity, packing, c, s);
                let ghost before = fresh@;
                fresh.set(j, v);
                proof {
                    assert forall|c2: int, s2: int|
                        0 <= c2 < channels && 0 <= s2 < capacity implies #[trigger] fresh@[slot(
                            n,
                            m,
                            packing,
                            c2,
                            s2,
                        )] == if (c2 < c || (c2 == c && s2 < s + 1)) && s2 < old_capacity {
                            prev.at(c2, s2)
                        } else {
                            z
                        } by {
                        lemma_slot(n, m, packing, c2, s2, c as int, s as int);
                    }
                }
                s = s + 1;
            }
            c = c + 1;
        }
        self.data = fresh;
        self.capacity = capacity;
    }

    /// Copies a frame into the columns of the cursor: sample `i` of channel
    /// `c` of the frame lands at column `cursor.offset + i`. Nothing outside
    /// those columns changes.
    pub fn write_frame(&mut self, cursor: Cursor, frame: &Frame<T>)
        requires
            old(self)@.well_formed(),
            cursor.offset + cursor.len == old(self)@.capacity,
            frame.nb_samples <= cursor.len,
            frame_fits(frame, old(self)@.channels, old(self)@.packing),
        ensures
            final(self)@ == (BufferView { data: final(self)@.data, ..old(self)@ }),
            final(self)@.well_formed(),
            forall|c: int, s: int|
                0 <= c < old(self)@.channels && 0 <= s < old(self)@.capacity
                    ==> #[trigger] final(self)@.at(c, s) == if cursor.offset <= s < cursor.offset
                    + frame.nb_samples {
                    frame_at(frame, old(self)@.channels, old(self)@.packing, c, s - cursor.offset)
                } else {
                    old(self)@.at(c, s)
                },
    {
        let ghost prev = self@;
        let channels = self.channels;
        let capacity = self.capacity;
        let packing = self.packing;
        let offset = cursor.offset;
        let count = frame.nb_samples;
        let ghost n = channels as nat;
        let ghost m = capacity as nat;
        let mut c: usize = 0;
        while c < channels
            invariant
                self@ == (BufferView { data: self@.data, ..prev }),
                self@.well_formed(),
                prev.well_formed(),
                channels == prev.channels,
                capacity == prev.capacity,
                packing == prev.packing,
                offset == cursor.offset,
                count == frame.nb_samples,
                n == channels as nat,
                m == capacity as nat,
                offset + count <= capacity,
                frame_fits(frame, n, packing),
                c <= channels,
                forall|c2: int, s2: int|
                    0 <= c2 < channels && 0 <= s2 < capacity ==> #[trigger] self@.at(c2, s2)
                        == if c2 < c && offset <= s2 < offset + count {
                        frame_at(frame, n, packing, c2, s2 - offset)
                    } else {
                        prev.at(c2, s2)
                    },
            decreases channels - c,
        {
            let mut i: usize = 0;
            while i < count
                invariant
                    self@ == (BufferView { data: self@.data, ..prev }),
                    self@.well_formed(),
                    prev.well_formed(),
                    channels == prev.channels,
                    capacity == prev.capacity,
                    packing == prev.packing,
                    offset == cursor.offset,
                    count == frame.nb_samples,
                    n == channels as nat,
                    m == capacity as nat,
                    offset + count <= capacity,
                    frame_fits(frame, n, packing),
                    c < channels,
                    i <= count,
                    forall|c2: int, s2: int|
                        0 <= c2 < channels && 0 <= s2 < capacity ==> #[trigger] self@.at(c2, s2)
                            == if (c2 < c || (c2 == c && s2 < offset + i)) && offset <= s2
                            < offset + count {
                            frame_at(frame, n, packing, c2, s2 - offset)
                        } else {
                            prev.at(c2, s2)
                        },
                decreases count - i,
            {
                let v = match packing {
                    SamplePacking::Interleaved => {
                        proof {
                            lemma_slot(n, count as nat, packing, c as int, i as int, c as int, i as int);
                        }
                        let plane_len = frame.data[0].len();
                        assert(i * channels + c < plane_len);
                        frame.data[0][i * channels + c]
                    },
                    SamplePacking::Deinterleaved => {
                        frame.data[c][i]
                    },
                };
                assert(v == frame_at(frame, n, packing, c as int, i as int));
                let j = slot_of(channels, capacity, packing, c, offset + i);
                let ghost before = self@;
                self.data.set(j, v);
                proof {
                    assert forall|c2: int, s2: int|
                        0 <= c2 < channels && 0 <= s2 < capacity implies #[trigger] self@.at(c2, s2)
                            == if (c2 < c || (c2 == c && s2 < offset + i + 1)) && offset <= s2
                            < offset + count {
                            frame_at(frame, n, packing, c2, s2 - offset)
                        } else {
                            prev.at(c2, s2)
                        } by {
                        lemma_slot(n, m, packing, c2, s2, c as int, (offset + i) as int);
                        assert(before.at(c2, s2) == if (c2 < c || (c2 == c && s2 < offset + i))
                            && offset <= s2 < offset + count {
                            frame_at(frame, n, packing, c2, s2 - offset)
                        } else {
                            prev.at(c2, s2)
                        });
                    }
                }
                i = i + 1;
            }
            c = c + 1;
        }
    }
}

} // verus!
