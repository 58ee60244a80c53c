//! What the resampler is set up with, and the room its output takes.
//!
//! Samples are converted and mixed by libswresample. The library decides how
//! it is set up, how large its output buffers have to be, and what becomes of
//! what it returns.

use crate::audio::format::{AudioSpec, SampleFormat, Speakers, MAX_AUDIO_CHANNELS};
use vstd::prelude::*;

verus! {

/// The number of a layout that is given by its channels' bits.
pub const CHANNEL_ORDER_NATIVE: i32 = 1;

/// The channels of 4.1: front left and right, front centre, low frequencies
/// and back centre.
pub const LAYOUT_4POINT1: u64 = 0x10f;

/// Span over which a drift correction is spread, in seconds of output. The
/// correction is handed over again long before it runs out, so this only
/// sets its resolution: one frame in an hour, well under a ppm.
pub const DRIFT_DISTANCE_S: u32 = 3600;

/// The number by which the resampler knows a sample format.
pub open spec fn sample_format_number(format: SampleFormat) -> int {
    match format {
        SampleFormat::U8 => 0,
        SampleFormat::S16 => 1,
        SampleFormat::S32 => 2,
        SampleFormat::Float => 3,
        SampleFormat::U8Planar => 5,
        SampleFormat::S16Planar => 6,
        SampleFormat::S32Planar => 7,
        SampleFormat::FloatPlanar => 8,
    }
}

pub fn av_sample_format(format: SampleFormat) -> (r: i32)
    ensures
        r == sample_format_number(format),
{
    match format {
        SampleFormat::U8 => 0,
        SampleFormat::S16 => 1,
        SampleFormat::S32 => 2,
        SampleFormat::Float => 3,
        SampleFormat::U8Planar => 5,
        SampleFormat::S16Planar => 6,
        SampleFormat::S32Planar => 7,
        SampleFormat::FloatPlanar => 8,
    }
}

/// A planar format has the number of its interleaved one, five further on.
pub proof fn law_planar_formats_follow(a: SampleFormat, b: SampleFormat)
    requires
        a.planar(),
        !b.planar(),
    ensures
        sample_format_number(a) == sample_format_number(b) + 5 <==> a.sample_bytes()
            == b.sample_bytes() && ((a is FloatPlanar) == (b is Float)),
{
}

/// How a speaker layout is described to the resampler.
#[derive(Debug, Clone, Copy, PartialEq, Eq, Structural)]
pub enum Layout {
    /// The usual layout of so many channels.
    Usual(usize),
    /// The channels of a mask.
    Mask { channels: usize, mask: u64 },
}

/// Every layout is the usual one of its channel count, but 4.1: five channels
/// are usually 5.0.
pub fn channel_layout(speakers: Speakers) -> (r: Layout)
    ensures
        r == if speakers == Speakers::FourPointOne {
            Layout::Mask { channels: 5, mask: LAYOUT_4POINT1 }
        } else {
            Layout::Usual(speakers.channel_count() as usize)
        },
{
    if speakers == Speakers::FourPointOne {
        Layout::Mask { channels: 5, mask: LAYOUT_4POINT1 }
    } else {
        Layout::Usual(speakers.channels())
    }
}

/// Whether mono is heard on a channel of an output with so many: on every
/// speaker, and on the low frequencies too in 4.0 and 5.1, but not in 2.1,
/// 4.1 or 7.1.
pub open spec fn hears_mono(channels: int, channel: int) -> bool {
    &&& channel < channels
    &&& !(channels == 3 && channel == 2)
    &&& !((channels == 5 || channels == 7 || channels == 8) && channel == 3)
}

/// Whether a row tells of each channel whether mono is heard on it.
pub open spec fn spreads_mono(row: Seq<bool>, channels: int) -> bool {
    &&& row.len() == MAX_AUDIO_CHANNELS
    &&& forall|i: int| 0 <= i < row.len() ==> #[trigger] row[i] == hears_mono(channels, i)
}

/// The channels on which mono is heard: a coefficient of one where it is, of
/// zero where it is not.
pub fn mono_upmix(channels: usize) -> (r: Vec<bool>)
    requires
        1 <= channels <= MAX_AUDIO_CHANNELS,
    ensures
        r@.len() == MAX_AUDIO_CHANNELS,
        forall|i: int| 0 <= i < r@.len() ==> r@[i] == hears_mono(channels as int, i),
        spreads_mono(r@, channels as int),
{
    let mut row: Vec<bool> = Vec::new();
    let mut i: usize = 0;
    while i < MAX_AUDIO_CHANNELS
        invariant
            i <= MAX_AUDIO_CHANNELS,
            row@.len() == i,
            forall|k: int| 0 <= k < i ==> row@[k] == hears_mono(channels as int, k),
        decreases MAX_AUDIO_CHANNELS - i,
    {
        let silent = (channels == 3 && i == 2) || ((channels == 5 || channels == 7 || channels
            == 8) && i == 3);
        row.push(i < channels && !silent);
        i += 1;
    }
    row
}

/// Mono is heard on the left and right of every output that has them.
pub proof fn law_mono_reaches_both_sides(channels: int)
    requires
        2 <= channels <= MAX_AUDIO_CHANNELS,
    ensures
        hears_mono(channels, 0),
        hears_mono(channels, 1),
{
}

/// What the resampler is set up with.
#[derive(Debug, PartialEq, Eq)]
pub struct Setup {
    pub out_layout: Layout,
    pub out_format: i32,
    pub out_rate: u32,
    pub in_layout: Layout,
    pub in_format: i32,
    pub in_rate: u32,
    /// The channels on which a mono input is heard, where it has to be told.
    pub matrix: Option<Vec<bool>>,
    /// Filter at equal rates too, so the ratio can be moved.
    pub always_filter: bool,
}

impl Setup {
    /// Whether this is the setup from `src` to `dst`.
    pub open spec fn converts(self, dst: AudioSpec, src: AudioSpec, adjustable: bool) -> bool {
        let channels = dst.speakers.channel_count() as int;
        &&& self.out_format == sample_format_number(dst.format)
        &&& self.in_format == sample_format_number(src.format)
        &&& self.out_rate == dst.rate
        &&& self.in_rate == src.rate
        &&& self.out_layout == layout_of(dst.speakers)
        &&& self.in_layout == layout_of(src.speakers)
        &&& self.always_filter == adjustable
        &&& self.matrix is Some <==> src.speakers == Speakers::Mono && channels > 1
        &&& self.matrix matches Some(row) ==> row@.len() == MAX_AUDIO_CHANNELS && forall|i: int|
            0 <= i < row@.len() ==> row@[i] == hears_mono(channels, i)
    }
}

/// How a speaker layout is described.
pub open spec fn layout_of(speakers: Speakers) -> Layout {
    if speakers == Speakers::FourPointOne {
        Layout::Mask { channels: 5, mask: LAYOUT_4POINT1 }
    } else {
        Layout::Usual(speakers.channel_count() as usize)
    }
}

/// What a conversion of so many frames makes at most: the frames that wait in
/// the filter and the new ones, at the output's rate, rounded up.
pub open spec fn room_needed(frames: int, output_freq: int, input_freq: int) -> int {
    (frames * output_freq + input_freq - 1) / input_freq
}

/// The output side of a resampler: its buffers and their size.
pub struct Resampler {
    input_freq: u32,
    output_freq: u32,
    output_ch: usize,
    output: AudioSpec,
    /// One buffer per output plane.
    buffers: Vec<Vec<u8>>,
    output_size: usize,
    drift_delta: i32,
}

impl Resampler {
    pub closed spec fn input_rate(self) -> int {
        self.input_freq as int
    }

    pub closed spec fn spec(self) -> AudioSpec {
        self.output
    }

    /// The frames that each plane has room for.
    pub closed spec fn size(self) -> int {
        self.output_size as int
    }

    /// The correction that was last taken.
    pub closed spec fn correction(self) -> int {
        self.drift_delta as int
    }

    pub closed spec fn planes(self) -> Seq<Vec<u8>> {
        self.buffers@
    }

    /// The rate and the channels are those of the output.
    pub closed spec fn in_step(self) -> bool {
        &&& self.output_freq == self.output.rate
        &&& self.output_ch == self.output.speakers.channel_count()
    }

    /// There is a plane for each one of the output, and each has the bytes of
    /// as many frames as there is room for.
    pub open spec fn wf(self) -> bool {
        &&& self.in_step()
        &&& self.planes().len() == self.spec().plane_count()
        &&& forall|i: int|
            0 <= i < self.planes().len() ==> (#[trigger] self.planes()[i])@.len() == self.size()
                * self.spec().plane_bytes()
    }

    /// A resampler from `src` to `dst`, with empty buffers, and its setup.
    pub fn new(dst: AudioSpec, src: AudioSpec) -> (r: (Resampler, Setup))
        ensures
            r.0.wf(),
            r.0.spec() == dst,
            r.0.input_rate() == src.rate,
            r.0.size() == 0,
            r.0.correction() == 0,
            r.1.converts(dst, src, false),
    {
        Self::create(dst, src, false)
    }

    /// A resampler whose ratio can be moved with [`Resampler::set_drift`],
    /// for a monitor. It filters at equal rates too, so a correction never
    /// has to rebuild it mid-stream.
    pub fn adjustable(dst: AudioSpec, src: AudioSpec) -> (r: (Resampler, Setup))
        ensures
            r.0.wf(),
            r.0.spec() == dst,
            r.0.input_rate() == src.rate,
            r.0.size() == 0,
            r.0.correction() == 0,
            r.1.converts(dst, src, true),
    {
        Self::create(dst, src, true)
    }

    fn create(dst: AudioSpec, src: AudioSpec, adjustable: bool) -> (r: (Resampler, Setup))
        ensures
            r.0.wf(),
            r.0.spec() == dst,
            r.0.input_rate() == src.rate,
            r.0.size() == 0,
            r.0.correction() == 0,
            r.1.converts(dst, src, adjustable),
    {
        let output_ch: usize = dst.speakers.channels();
        let matrix = if src.speakers == Speakers::Mono && output_ch > 1 {
            Some(mono_upmix(output_ch))
        } else {
            None
        };
        let setup = Setup {
            out_layout: channel_layout(dst.speakers),
            out_format: av_sample_format(dst.format),
            out_rate: dst.rate,
            in_layout: channel_layout(src.speakers),
            in_format: av_sample_format(src.format),
            in_rate: src.rate,
            matrix,
            always_filter: adjustable,
        };
        let planes: usize = dst.planes();
        let mut buffers: Vec<Vec<u8>> = Vec::new();
        while buffers.len() < planes
            invariant
                buffers@.len() <= planes,
                forall|i: int| 0 <= i < buffers@.len() ==> (#[trigger] buffers@[i])@.len() == 0,
            decreases planes - buffers@.len(),
        {
            buffers.push(Vec::new());
        }
        let resampler = Resampler {
            input_freq: src.rate,
            output_freq: dst.rate,
            output_ch,
            output: dst,
            buffers,
            output_size: 0,
            drift_delta: 0,
        };
        assert(0 * dst.plane_bytes() == 0) by (nonlinear_arith);
        (resampler, setup)
    }

    /// Makes room for the output of `in_frames` frames on top of the `delay`
    /// frames that wait in the filter, and tells for how many frames there is
    /// room. Room that was made is kept.
    pub fn resample(&mut self, delay: u32, in_frames: u32) -> (r: usize)
        requires
            old(self).wf(),
            old(self).input_rate() > 0,
            (room_needed(
                delay + in_frames,
                old(self).spec().rate as int,
                old(self).input_rate(),
            ) * 32) <= usize::MAX,
        ensures
            final(self).wf(),
            final(self).spec() == old(self).spec(),
            final(self).input_rate() == old(self).input_rate(),
            final(self).correction() == old(self).correction(),
            r == final(self).size(),
            ({
                let needed = room_needed(
                    delay + in_frames,
                    old(self).spec().rate as int,
                    old(self).input_rate(),
                );
                r == if needed > old(self).size() {
                    needed
                } else {
                    old(self).size()
                }
            }),
            final(self).size() == old(self).size() ==> final(self).planes() == old(self).planes(),
    {
        let frames: u128 = delay as u128 + in_frames as u128;
        let inf: u128 = self.input_freq as u128;
        let outf: u128 = self.output_freq as u128;
        assert(frames * outf <= 0x1_ffff_ffff * 0xffff_ffff) by (nonlinear_arith)
            requires
                frames <= 0x1_ffff_ffff,
                outf <= 0xffff_ffff,
        ;
        let estimated: usize = ((frames * outf + inf - 1) / inf) as usize;
        assert(estimated == room_needed(
            delay + in_frames,
            self.output_freq as int,
            self.input_freq as int,
        ));
        if estimated > self.output_size {
            let plane_bytes: usize = self.output.plane_frame_bytes();
            assert(estimated * plane_bytes <= estimated * 32) by (nonlinear_arith)
                requires
                    plane_bytes <= 32,
            ;
            let bytes: usize = estimated * plane_bytes;
            let n: usize = self.buffers.len();
            let mut i: usize = 0;
            while i < n
                invariant
                    n == self.buffers@.len(),
                    i <= n,
                    self.input_freq == old(self).input_freq,
                    self.output_freq == old(self).output_freq,
                    self.output_ch == old(self).output_ch,
                    self.output == old(self).output,
                    self.drift_delta == old(self).drift_delta,
                    self.buffers@.len() == old(self).buffers@.len(),
                    forall|k: int|
                        0 <= k < i ==> (#[trigger] self.buffers@[k])@.len() == bytes,
                decreases n - i,
            {
                self.buffers[i].resize(bytes, 0);
                i += 1;
            }
            self.output_size = estimated;
        }
        self.output_size
    }

    /// Takes what a conversion returned: the frames it made, or nothing where
    /// it failed.
    pub fn converted(&self, returned: i32) -> (r: Option<u32>)
        ensures
            r is Some <==> returned >= 0,
            r matches Some(frames) ==> frames == returned,
    {
        if returned < 0 {
            None
        } else {
            Some(returned as u32)
        }
    }

    /// The number of output planes.
    pub fn plane_count(&self) -> (r: usize)
        ensures
            r == self.planes().len(),
    {
        self.buffers.len()
    }

    /// Output plane `i` after a conversion.
    pub fn plane(&self, i: usize) -> (r: &Vec<u8>)
        requires
            i < self.planes().len(),
        ensures
            *r == self.planes()[i as int],
    {
        &self.buffers[i]
    }

    /// Replaces the start of output plane `i`, as a conversion or a volume
    /// does.
    pub fn plane_mut(&mut self, i: usize, bytes: &Vec<u8>)
        requires
            old(self).wf(),
            i < old(self).planes().len(),
            bytes@.len() <= old(self).planes()[i as int]@.len(),
        ensures
            final(self).wf(),
            final(self).spec() == old(self).spec(),
            final(self).input_rate() == old(self).input_rate(),
            final(self).correction() == old(self).correction(),
            final(self).size() == old(self).size(),
            final(self).planes().len() == old(self).planes().len(),
            final(self).planes()[i as int]@ == bytes@ + old(self).planes()[i as int]@.skip(
                bytes@.len() as int,
            ),
            forall|k: int|
                0 <= k < final(self).planes().len() && k != i ==> #[trigger] final(self).planes()[k]
                    == old(self).planes()[k],
    {
        let mut n: usize = 0;
        while n < bytes.len()
            invariant
                n <= bytes@.len() <= old(self).buffers@[i as int]@.len(),
                i < self.buffers@.len(),
                self.buffers@.len() == old(self).buffers@.len(),
                self.input_freq == old(self).input_freq,
                self.output_freq == old(self).output_freq,
                self.output_ch == old(self).output_ch,
                self.output == old(self).output,
                self.output_size == old(self).output_size,
                self.drift_delta == old(self).drift_delta,
                self.buffers@[i as int]@ =~= bytes@.take(n as int)
                    + old(self).buffers@[i as int]@.skip(n as int),
                forall|k: int|
                    0 <= k < self.buffers@.len() && k != i ==> #[trigger] self.buffers@[k]
                        == old(self).buffers@[k],
            decreases bytes@.len() - n,
        {
            self.buffers[i][n] = bytes[n];
            n += 1;
        }
        assert(bytes@.take(n as int) =~= bytes@);
        assert forall|k: int| 0 <= k < self.buffers@.len() implies (#[trigger] self.buffers@[k])@.len()
            == self.output_size * self.output.plane_bytes() by {
            if k != i {
                assert(self.buffers@[k] == old(self).buffers@[k]);
            }
        }
    }

    /// The frames over which a correction is spread.
    pub fn drift_distance(&self) -> (r: u32)
        requires
            self.wf(),
        ensures
            r == if self.spec().rate * DRIFT_DISTANCE_S > u32::MAX {
                u32::MAX as int
            } else {
                self.spec().rate * DRIFT_DISTANCE_S
            },
    {
        match self.output_freq.checked_mul(DRIFT_DISTANCE_S) {
            Some(distance) => distance,
            None => u32::MAX,
        }
    }

    /// Whether a correction by `delta` frames has to be handed over: only
    /// where it is another one than the last.
    pub fn set_drift(&self, delta: i32) -> (r: bool)
        ensures
            r == (delta != self.correction()),
    {
        delta != self.drift_delta
    }

    /// Takes what handing over a correction returned: it is remembered unless
    /// it failed.
    pub fn drift_set(&mut self, delta: i32, returned: i32)
        requires
            old(self).wf(),
        ensures
            final(self).wf(),
            final(self).correction() == if returned < 0 {
                old(self).correction()
            } else {
                delta as int
            },
            final(self).spec() == old(self).spec(),
            final(self).input_rate() == old(self).input_rate(),
            final(self).size() == old(self).size(),
            final(self).planes() == old(self).planes(),
    {
        if returned >= 0 {
            self.drift_delta = delta;
        }
    }
}

/// There is room for every frame that comes out: with `frames` frames in the
/// filter and in the packet, as many come out as their share of the output's
/// rate, rounded down, and one more never fits in.
pub proof fn law_the_room_is_enough(frames: int, output_freq: int, input_freq: int)
    requires
        0 <= frames,
        0 <= output_freq,
        0 < input_freq,
    ensures
        frames * output_freq <= room_needed(frames, output_freq, input_freq) * input_freq,
        room_needed(frames, output_freq, input_freq) * input_freq < frames * output_freq
            + input_freq,
        output_freq == input_freq ==> room_needed(frames, output_freq, input_freq) == frames,
{
    let n = frames * output_freq;
    let d = input_freq;
    assert(n <= (n + d - 1) / d * d && (n + d - 1) / d * d < n + d) by (nonlinear_arith)
        requires
            d > 0,
    ;
    if output_freq == input_freq {
        assert((frames * d + d - 1) / d == frames) by (nonlinear_arith)
            requires
                d > 0,
        ;
    }
}

/// Each sample format has a number of its own, and a planar one that of its
/// interleaved one, five further on.
pub proof fn law_each_format_has_its_number(
    a: SampleFormat,
    b: SampleFormat,
    x: i32,
    y: i32,
)
    requires
        call_ensures(av_sample_format, (a,), x),
        call_ensures(av_sample_format, (b,), y),
    ensures
        x == y <==> a == b,
        a is U8 ==> x == 0,
        a is S16 ==> x == 1,
        a is S32 ==> x == 2,
        a is Float ==> x == 3,
        a.planar() <==> x >= 5,
        a.planar() && !b.planar() ==> (x == y + 5 <==> a.sample_bytes() == b.sample_bytes() && (
        a is FloatPlanar <==> b is Float)),
{
}

/// A layout is described with the channels it has, and no two alike.
pub proof fn law_each_layout_is_described_with_its_channels(
    a: Speakers,
    b: Speakers,
    x: Layout,
    y: Layout,
)
    requires
        call_ensures(channel_layout, (a,), x),
        call_ensures(channel_layout, (b,), y),
    ensures
        x == y <==> a == b,
        match x {
            Layout::Usual(n) => n == a.channel_count(),
            Layout::Mask { channels, .. } => channels == a.channel_count(),
        },
        x is Mask <==> a is FourPointOne,
        x matches Layout::Mask { mask, .. } ==> mask == 0x10f,
{
}

/// A resampler is set up from what it gets to what is wanted of it: the rates,
/// the formats and the channels of both sides, and with a filter where its ratio
/// has to move. Mono is spread over the speakers, and heard on left and right;
/// nothing else is told how to spread.
pub proof fn law_a_resampler_converts_what_it_gets(
    dst: AudioSpec,
    src: AudioSpec,
    plain: (Resampler, Setup),
    moving: (Resampler, Setup),
    out_number: i32,
    in_number: i32,
    out_layout: Layout,
    in_layout: Layout,
)
    requires
        call_ensures(Resampler::new, (dst, src), plain),
        call_ensures(Resampler::adjustable, (dst, src), moving),
        call_ensures(av_sample_format, (dst.format,), out_number),
        call_ensures(av_sample_format, (src.format,), in_number),
        call_ensures(channel_layout, (dst.speakers,), out_layout),
        call_ensures(channel_layout, (src.speakers,), in_layout),
    ensures
        !plain.1.always_filter && moving.1.always_filter,
        plain.1.in_rate == src.rate && moving.1.in_rate == src.rate,
        plain.1.out_rate == dst.rate && moving.1.out_rate == dst.rate,
        plain.1.in_format == in_number && moving.1.in_format == in_number,
        plain.1.out_format == out_number && moving.1.out_format == out_number,
        plain.1.in_layout == in_layout && moving.1.in_layout == in_layout,
        plain.1.out_layout == out_layout && moving.1.out_layout == out_layout,
        plain.1.matrix is Some <==> src.speakers is Mono && dst.speakers.channel_count() > 1,
        moving.1.matrix is Some <==> plain.1.matrix is Some,
        plain.1.matrix matches Some(row) ==> row@[0] && row@[1] && forall|i: int|
            dst.speakers.channel_count() <= i < row@.len() ==> !#[trigger] row@[i],
        moving.1.matrix matches Some(row) ==> row@[0] && row@[1],
        plain.0.size() == 0 && moving.0.size() == 0,
        plain.0.correction() == 0 && moving.0.correction() == 0,
{
    let channels = dst.speakers.channel_count() as int;
    if let Some(row) = plain.1.matrix {
        assert(row@[0] == hears_mono(channels, 0));
        assert(row@[1] == hears_mono(channels, 1));
        assert forall|i: int| channels <= i < row@.len() implies !#[trigger] row@[i] by {
            assert(row@[i] == hears_mono(channels, i));
        }
    }
    if let Some(row) = moving.1.matrix {
        assert(row@[0] == hears_mono(channels, 0));
        assert(row@[1] == hears_mono(channels, 1));
    }
}

/// Mono is heard on every speaker but the one for low frequencies of 2.1, 4.1
/// and 7.1, and on no channel that there is not.
pub proof fn law_mono_is_heard_on_every_speaker(channels: usize, row: Vec<bool>, i: int)
    requires
        call_ensures(mono_upmix, (channels,), row),
        1 <= channels <= 8,
        0 <= i < 8,
    ensures
        row@.len() == 8,
        i >= channels ==> !row@[i],
        i < channels && i != 2 && i != 3 ==> row@[i],
        channels > 2 ==> (row@[2] <==> channels != 3),
        channels > 3 ==> (row@[3] <==> channels == 4 || channels == 6),
{
    assert(row@[i] == hears_mono(channels as int, i));
    assert(row@[2] == hears_mono(channels as int, 2));
    assert(row@[3] == hears_mono(channels as int, 3));
}

/// There is always room for what comes out: the frames that wait and the new
/// ones, at the output's rate. Room that was made is kept, and at equal rates
/// no more is made than frames come in.
pub proof fn law_there_is_room_for_what_comes_out(
    swr: &mut Resampler,
    delay: u32,
    frames: u32,
    r: usize,
)
    requires
        old(swr).wf(),
        old(swr).input_rate() > 0,
        call_ensures(Resampler::resample, (swr, delay, frames), r),
    ensures
        r * old(swr).input_rate() >= (delay + frames) * old(swr).spec().rate,
        r >= old(swr).size(),
        r == final(swr).size(),
        r > old(swr).size() ==> (r - 1) * old(swr).input_rate() < (delay + frames)
            * old(swr).spec().rate,
        final(swr).spec() == old(swr).spec(),
        final(swr).input_rate() == old(swr).input_rate(),
        final(swr).correction() == old(swr).correction(),
        r == old(swr).size() ==> final(swr).planes() == old(swr).planes(),
        forall|i: int|
            0 <= i < final(swr).planes().len() ==> (#[trigger] final(swr).planes()[i])@.len() == r
                * old(swr).spec().plane_bytes(),
{
    let n = (delay + frames) as int;
    let outf = old(swr).spec().rate as int;
    let inf = old(swr).input_rate();
    law_the_room_is_enough(n, outf, inf);
    let needed = room_needed(n, outf, inf);
    assert(r * inf >= needed * inf) by (nonlinear_arith)
        requires
            r >= needed,
            inf > 0,
    ;
    assert((needed - 1) * inf == needed * inf - inf) by (nonlinear_arith);
}

/// A conversion that failed made no frames; any other made those it says.
pub proof fn law_a_conversion_makes_what_it_says(swr: &Resampler, returned: i32, r: Option<u32>)
    requires
        call_ensures(Resampler::converted, (swr, returned), r),
    ensures
        returned < 0 ==> r is None,
        returned >= 0 ==> r is Some && r->0 == returned,
{
}

/// A correction is handed over once: after it was taken, the same one is not
/// handed over again and any other is. One that failed is tried again.
pub proof fn law_a_correction_is_handed_over_once(
    swr: &mut Resampler,
    delta: i32,
    wanted: bool,
    returned: i32,
    after: &Resampler,
    other: i32,
    again: bool,
)
    requires
        call_ensures(Resampler::set_drift, (old(swr), delta), wanted),
        call_ensures(Resampler::drift_set, (swr, delta, returned), ()),
        *after == *final(swr),
        call_ensures(Resampler::set_drift, (after, other), again),
    ensures
        returned >= 0 ==> (again <==> other != delta),
        returned < 0 && other == delta ==> (again <==> wanted),
        final(swr).planes() == old(swr).planes(),
        final(swr).size() == old(swr).size(),
        final(swr).spec() == old(swr).spec(),
        final(swr).input_rate() == old(swr).input_rate(),
{
}

/// A correction is spread over an hour of output, as far as that can be told.
pub proof fn law_a_correction_is_spread_over_an_hour(swr: &Resampler, r: u32)
    requires
        swr.wf(),
        call_ensures(Resampler::drift_distance, (swr,), r),
    ensures
        swr.spec().rate * 3_600 <= u32::MAX ==> r == swr.spec().rate * 3_600,
        swr.spec().rate * 3_600 > u32::MAX ==> r == u32::MAX,
{
}

/// What is written to a plane is what is read of it, from its start on; the
/// rest of it and the other planes stay.
pub proof fn law_a_plane_keeps_what_is_written(
    swr: &mut Resampler,
    i: usize,
    bytes: &Vec<u8>,
    after: &Resampler,
    k: usize,
    read: &Vec<u8>,
)
    requires
        old(swr).wf(),
        i < old(swr).planes().len(),
        k < old(swr).planes().len(),
        bytes@.len() <= old(swr).planes()[i as int]@.len(),
        call_ensures(Resampler::plane_mut, (swr, i, bytes), ()),
        *after == *final(swr),
        call_ensures(Resampler::plane, (after, k), read),
    ensures
        k != i ==> read@ == old(swr).planes()[k as int]@,
        k == i ==> read@.take(bytes@.len() as int) == bytes@ && read@.skip(bytes@.len() as int)
            == old(swr).planes()[i as int]@.skip(bytes@.len() as int),
        final(swr).spec() == old(swr).spec(),
        final(swr).input_rate() == old(swr).input_rate(),
        final(swr).correction() == old(swr).correction(),
        final(swr).size() == old(swr).size(),
{
    if k == i {
        assert(read@.take(bytes@.len() as int) =~= bytes@);
        assert(read@.skip(bytes@.len() as int) =~= old(swr).planes()[i as int]@.skip(
            bytes@.len() as int,
        ));
    }
}

/// A resampler has as many planes as its output has.
pub proof fn law_a_resampler_has_the_planes_of_its_output(swr: &Resampler, n: usize)
    requires
        swr.wf(),
        call_ensures(Resampler::plane_count, (swr,), n),
    ensures
        swr.spec().format.planar() ==> n == swr.spec().speakers.channel_count(),
        !swr.spec().format.planar() ==> n == 1,
{
}

} // verus!
