//! Audio formats: channel layouts, sample formats and the size of a frame.

use vstd::prelude::*;

verus! {

/// The common format every source is converted to before monitoring:
/// 48 kHz, stereo, 32-bit float planar.
pub const OBS_SAMPLE_RATE: u32 = 48_000;

pub const OBS_SPEAKERS: Speakers = Speakers::Stereo;

pub const OBS_FORMAT: SampleFormat = SampleFormat::FloatPlanar;

pub const OBS_CHANNELS: usize = 2;

pub const MAX_AUDIO_CHANNELS: usize = 8;

/// A channel layout.
#[derive(Debug, Clone, Copy, PartialEq, Eq, Structural)]
pub enum Speakers {
    Unknown,
    Mono,
    Stereo,
    TwoPointOne,
    FourPointZero,
    FourPointOne,
    FivePointOne,
    SevenPointOne,
}

impl Speakers {
    /// How many channels the layout has.
    pub open spec fn channel_count(self) -> nat {
        match self {
            Speakers::Unknown => 0,
            Speakers::Mono => 1,
            Speakers::Stereo => 2,
            Speakers::TwoPointOne => 3,
            Speakers::FourPointZero => 4,
            Speakers::FourPointOne => 5,
            Speakers::FivePointOne => 6,
            Speakers::SevenPointOne => 8,
        }
    }

    /// The layout a bare channel count stands for.
    pub open spec fn of_count(channels: int) -> Speakers {
        if channels == 1 {
            Speakers::Mono
        } else if channels == 2 {
            Speakers::Stereo
        } else if channels == 3 {
            Speakers::TwoPointOne
        } else if channels == 4 {
            Speakers::FourPointZero
        } else if channels == 5 {
            Speakers::FourPointOne
        } else if channels == 6 {
            Speakers::FivePointOne
        } else if channels == 8 {
            Speakers::SevenPointOne
        } else {
            Speakers::Unknown
        }
    }

    pub fn channels(self) -> (n: usize)
        ensures
            n == self.channel_count(),
            n <= MAX_AUDIO_CHANNELS,
    {
        match self {
            Speakers::Unknown => 0,
            Speakers::Mono => 1,
            Speakers::Stereo => 2,
            Speakers::TwoPointOne => 3,
            Speakers::FourPointZero => 4,
            Speakers::FourPointOne => 5,
            Speakers::FivePointOne => 6,
            Speakers::SevenPointOne => 8,
        }
    }

    /// Layout for a bare channel count.
    pub fn from_channels(channels: usize) -> (s: Speakers)
        ensures
            s == Speakers::of_count(channels as int),
    {
        match channels {
            1 => Speakers::Mono,
            2 => Speakers::Stereo,
            3 => Speakers::TwoPointOne,
            4 => Speakers::FourPointZero,
            5 => Speakers::FourPointOne,
            6 => Speakers::FivePointOne,
            8 => Speakers::SevenPointOne,
            _ => Speakers::Unknown,
        }
    }
}

/// The layout of a channel count has that many channels, for every count a
/// layout exists for; and the count of a known layout leads back to it.
pub proof fn law_channel_counts_round_trip(channels: int, speakers: Speakers)
    ensures
        Speakers::of_count(channels) != Speakers::Unknown ==> Speakers::of_count(
            channels,
        ).channel_count() == channels,
        Speakers::of_count(speakers.channel_count() as int) == speakers,
        Speakers::of_count(channels) == Speakers::Unknown <==> !(1 <= channels <= 6 || channels
            == 8),
{
}

/// How one sample is stored.
#[derive(Debug, Clone, Copy, PartialEq, Eq, Structural)]
pub enum SampleFormat {
    U8,
    S16,
    S32,
    Float,
    U8Planar,
    S16Planar,
    S32Planar,
    FloatPlanar,
}

impl SampleFormat {
    /// Whether each channel is stored on its own.
    pub open spec fn planar(self) -> bool {
        self is U8Planar || self is S16Planar || self is S32Planar || self is FloatPlanar
    }

    /// The bytes of one sample.
    pub open spec fn sample_bytes(self) -> nat {
        match self {
            SampleFormat::U8 | SampleFormat::U8Planar => 1,
            SampleFormat::S16 | SampleFormat::S16Planar => 2,
            _ => 4,
        }
    }

    pub fn is_planar(self) -> (r: bool)
        ensures
            r == self.planar(),
    {
        match self {
            SampleFormat::U8Planar => true,
            SampleFormat::S16Planar => true,
            SampleFormat::S32Planar => true,
            SampleFormat::FloatPlanar => true,
            _ => false,
        }
    }

    pub fn bytes_per_sample(self) -> (n: usize)
        ensures
            n == self.sample_bytes(),
            1 <= n <= 4,
    {
        match self {
            SampleFormat::U8 => 1,
            SampleFormat::U8Planar => 1,
            SampleFormat::S16 => 2,
            SampleFormat::S16Planar => 2,
            _ => 4,
        }
    }
}

#[derive(Debug, Clone, Copy, PartialEq, Eq, Structural)]
pub struct AudioSpec {
    pub rate: u32,
    pub speakers: Speakers,
    pub format: SampleFormat,
}

impl AudioSpec {
    /// How many planes the audio is stored in.
    pub open spec fn plane_count(&self) -> nat {
        if self.format.planar() {
            self.speakers.channel_count()
        } else {
            1
        }
    }

    /// Bytes of one frame in one plane.
    pub open spec fn plane_bytes(&self) -> nat {
        if self.format.planar() {
            self.format.sample_bytes()
        } else {
            self.speakers.channel_count() * self.format.sample_bytes()
        }
    }

    pub fn planes(&self) -> (n: usize)
        ensures
            n == self.plane_count(),
            n <= MAX_AUDIO_CHANNELS,
    {
        if self.format.is_planar() {
            self.speakers.channels()
        } else {
            1
        }
    }

    /// Bytes of one frame in one plane.
    pub fn plane_frame_bytes(&self) -> (n: usize)
        ensures
            n == self.plane_bytes(),
            n <= 32,
    {
        let per_plane: usize = if self.format.is_planar() {
            1
        } else {
            self.speakers.channels()
        };
        let bytes: usize = self.format.bytes_per_sample();
        assert(per_plane * bytes <= 32) by (nonlinear_arith)
            requires
                per_plane <= 8,
                bytes <= 4,
        ;
        per_plane * bytes
    }
}

/// However the samples are laid out, a frame takes the same room: one sample
/// of every channel.
pub proof fn law_frame_size_does_not_depend_on_the_layout(spec: AudioSpec)
    ensures
        spec.plane_count() * spec.plane_bytes() == spec.speakers.channel_count()
            * spec.format.sample_bytes(),
{
    assert(1 * spec.plane_bytes() == spec.plane_bytes());
}

/// The common format as a specification.
pub open spec fn common_spec() -> AudioSpec {
    AudioSpec { rate: OBS_SAMPLE_RATE, speakers: OBS_SPEAKERS, format: OBS_FORMAT }
}

/// Raw audio handed to a source.
pub struct SourceAudio<'a> {
    /// One slice per plane (a single slice for interleaved formats).
    pub planes: &'a [&'a [u8]],
    pub frames: u32,
    pub spec: AudioSpec,
}

/// Audio in the common format, handed to monitors: the patterns of one
/// channel's samples in each plane.
pub struct ObsAudio<'a> {
    pub planes: [&'a [u32]; 2],
    pub frames: u32,
}

/// The order in which the bytes of a number are stored.
#[derive(Debug, Clone, Copy, PartialEq, Eq, Structural)]
pub enum ByteOrder {
    Little,
    Big,
}

/// The number that four stored bytes stand for.
pub open spec fn word(order: ByteOrder, b: Seq<u8>) -> int {
    match order {
        ByteOrder::Little => b[0] + b[1] * 0x100 + b[2] * 0x1_0000 + b[3] * 0x100_0000,
        ByteOrder::Big => b[3] + b[2] * 0x100 + b[1] * 0x1_0000 + b[0] * 0x100_0000,
    }
}

/// The number that two stored bytes stand for.
pub open spec fn short_word(order: ByteOrder, b: Seq<u8>) -> int {
    match order {
        ByteOrder::Little => b[0] + b[1] * 0x100,
        ByteOrder::Big => b[1] + b[0] * 0x100,
    }
}

/// The samples stored in a byte plane; bytes past the last whole sample are
/// left out.
pub open spec fn samples_in(order: ByteOrder, bytes: Seq<u8>) -> Seq<u32> {
    Seq::new(
        bytes.len() / 4,
        |i: int| word(order, bytes.subrange(4 * i, 4 * i + 4)) as u32,
    )
}

/// Calls `u16::to_ne_bytes` on one: the two bytes of the number in the order
/// this machine stores them, the low byte either first or last.
#[verifier::external_body]
fn native_one() -> (r: [u8; 2])
    ensures
        r@ == seq![1u8, 0u8] || r@ == seq![0u8, 1u8],
{
    1u16.to_ne_bytes()
}

/// Reads a byte plane stored in the given order as `f32` patterns.
pub fn samples_from(order: ByteOrder, bytes: &[u8]) -> (r: Vec<u32>)
    ensures
        r@ == samples_in(order, bytes@),
{
    let n: usize = bytes.len() / 4;
    let mut out: Vec<u32> = Vec::new();
    let mut i: usize = 0;
    while i < n
        invariant
            i <= n,
            n == bytes@.len() / 4,
            bytes@.len() <= usize::MAX,
            out@ == samples_in(order, bytes@).take(i as int),
        decreases n - i,
    {
        let a: u32 = bytes[4 * i] as u32;
        let b: u32 = bytes[4 * i + 1] as u32;
        let c: u32 = bytes[4 * i + 2] as u32;
        let d: u32 = bytes[4 * i + 3] as u32;
        let value: u32 = match order {
            ByteOrder::Little => a + b * 0x100 + c * 0x1_0000 + d * 0x100_0000,
            ByteOrder::Big => d + c * 0x100 + b * 0x1_0000 + a * 0x100_0000,
        };
        assert(value == word(order, bytes@.subrange(4 * i, 4 * i + 4)));
        out.push(value);
        assert(out@ =~= samples_in(order, bytes@).take(i + 1));
        i += 1;
    }
    assert(samples_in(order, bytes@).take(n as int) =~= samples_in(order, bytes@));
    out
}

/// Reads a byte plane as `f32` patterns, in the order this machine stores
/// numbers.
pub fn as_f32(bytes: &[u8]) -> (r: Vec<u32>)
    ensures
        r@ == samples_in(ByteOrder::Little, bytes@) || r@ == samples_in(ByteOrder::Big, bytes@),
{
    samples_from(native_order(), bytes)
}

/// The order in which two bytes stand for one.
pub fn order_of(one: [u8; 2]) -> (r: ByteOrder)
    requires
        short_word(ByteOrder::Little, one@) == 1 || short_word(ByteOrder::Big, one@) == 1,
    ensures
        short_word(r, one@) == 1,
{
    if one[0] == 1 {
        ByteOrder::Little
    } else {
        ByteOrder::Big
    }
}

/// The order in which this machine stores numbers: that of its one, see
/// [`order_of`]. Which it is depends on the machine.
pub fn native_order() -> (r: ByteOrder) {
    order_of(native_one())
}

/// A layout has the channels that its name counts, and a count of channels has
/// the layout of that many, as far as there is one.
pub proof fn law_a_layout_has_its_channels(
    speakers: Speakers,
    n: usize,
    channels: usize,
    s: Speakers,
    back: Speakers,
)
    requires
        call_ensures(Speakers::channels, (speakers,), n),
        call_ensures(Speakers::from_channels, (channels,), s),
        call_ensures(Speakers::from_channels, (n,), back),
    ensures
        match speakers {
            Speakers::Unknown => n == 0,
            Speakers::Mono => n == 1,
            Speakers::Stereo => n == 2,
            Speakers::TwoPointOne => n == 3,
            Speakers::FourPointZero => n == 4,
            Speakers::FourPointOne => n == 5,
            Speakers::FivePointOne => n == 6,
            Speakers::SevenPointOne => n == 8,
        },
        back == speakers,
        1 <= channels <= 6 || channels == 8 ==> s.channel_count() == channels,
        s is Unknown <==> channels == 0 || channels == 7 || channels > 8,
{
}

/// A format takes the bytes that its samples have, and a planar one stores
/// each channel apart: as many planes as channels, of one sample each; any
/// other has a single plane with a sample of every channel.
pub proof fn law_a_frame_takes_the_room_of_its_samples(
    spec: &AudioSpec,
    planar: bool,
    bytes: usize,
    planes: usize,
    plane_bytes: usize,
    channels: usize,
)
    requires
        call_ensures(SampleFormat::is_planar, (spec.format,), planar),
        call_ensures(SampleFormat::bytes_per_sample, (spec.format,), bytes),
        call_ensures(AudioSpec::planes, (spec,), planes),
        call_ensures(AudioSpec::plane_frame_bytes, (spec,), plane_bytes),
        call_ensures(Speakers::channels, (spec.speakers,), channels),
    ensures
        planes * plane_bytes == channels * bytes,
        planar ==> planes == channels && plane_bytes == bytes,
        !planar ==> planes == 1,
        match spec.format {
            SampleFormat::U8 => !planar && bytes == 1,
            SampleFormat::S16 => !planar && bytes == 2,
            SampleFormat::S32 => !planar && bytes == 4,
            SampleFormat::Float => !planar && bytes == 4,
            SampleFormat::U8Planar => planar && bytes == 1,
            SampleFormat::S16Planar => planar && bytes == 2,
            SampleFormat::S32Planar => planar && bytes == 4,
            SampleFormat::FloatPlanar => planar && bytes == 4,
        },
{
    assert(1 * plane_bytes == plane_bytes);
}

/// The common format is 48 kHz stereo, in floats, each channel apart.
pub proof fn law_the_common_format()
    ensures
        common_spec().rate == 48_000,
        common_spec().speakers is Stereo,
        common_spec().format is FloatPlanar,
        MAX_AUDIO_CHANNELS == 8,
{
}

/// Each four bytes of a plane are one sample, in order, and no byte is read
/// twice: a sample has the number whose bytes they are, the low one first or
/// last as the order says. Reading the bytes backwards in the other order
/// gives the same sample.
pub proof fn law_samples_are_read_in_order(
    order: ByteOrder,
    bytes: &[u8],
    r: Vec<u32>,
    i: int,
)
    requires
        call_ensures(samples_from, (order, bytes), r),
        0 <= i < r@.len(),
    ensures
        r@.len() * 4 <= bytes@.len() < r@.len() * 4 + 4,
        ({
            let value = r@[i] as int;
            let low = if order is Little {
                bytes@[4 * i]
            } else {
                bytes@[4 * i + 3]
            };
            let second = if order is Little {
                bytes@[4 * i + 1]
            } else {
                bytes@[4 * i + 2]
            };
            let third = if order is Little {
                bytes@[4 * i + 2]
            } else {
                bytes@[4 * i + 1]
            };
            let high = if order is Little {
                bytes@[4 * i + 3]
            } else {
                bytes@[4 * i]
            };
            &&& value % 0x100 == low
            &&& value / 0x100 % 0x100 == second
            &&& value / 0x1_0000 % 0x100 == third
            &&& value / 0x100_0000 == high
        }),
{
    let four = bytes@.subrange(4 * i, 4 * i + 4);
    assert(four[0] == bytes@[4 * i] && four[1] == bytes@[4 * i + 1] && four[2] == bytes@[4 * i + 2]
        && four[3] == bytes@[4 * i + 3]);
    match order {
        ByteOrder::Little => lemma_bytes_of(four[0], four[1], four[2], four[3]),
        ByteOrder::Big => lemma_bytes_of(four[3], four[2], four[1], four[0]),
    }
}

/// The bytes that a number was put together from.
proof fn lemma_bytes_of(a: u8, b: u8, c: u8, d: u8)
    ensures
        ({
            let value = a + b * 0x100 + c * 0x1_0000 + d * 0x100_0000;
            &&& 0 <= value <= u32::MAX
            &&& value % 0x100 == a
            &&& value / 0x100 % 0x100 == b
            &&& value / 0x1_0000 % 0x100 == c
            &&& value / 0x100_0000 == d
        }),
{
    let value = a + b * 0x100 + c * 0x1_0000 + d * 0x100_0000;
    assert(value / 0x100 == b + c * 0x100 + d * 0x1_0000);
    assert(value / 0x1_0000 == c + d * 0x100);
}

/// This machine's order is the one in which its one is a one.
pub proof fn law_the_order_is_that_of_a_one(one: [u8; 2], r: ByteOrder)
    requires
        call_ensures(order_of, (one,), r),
        one@ == seq![1u8, 0u8] || one@ == seq![0u8, 1u8],
    ensures
        r is Little <==> one@[0] == 1,
{
}

/// A plane is read in one order throughout.
pub proof fn law_a_plane_is_read_in_one_order(
    bytes: &[u8],
    r: Vec<u32>,
    little: Vec<u32>,
    big: Vec<u32>,
)
    requires
        call_ensures(as_f32, (bytes,), r),
        call_ensures(samples_from, (ByteOrder::Little, bytes), little),
        call_ensures(samples_from, (ByteOrder::Big, bytes), big),
    ensures
        r@ == little@ || r@ == big@,
{
}

} // verus!
