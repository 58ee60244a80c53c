//! Real-time audio processing, independent of any device.
//!
//! Each output gets a queue of captured samples, a converter to the device's
//! own format, and a prefill before playback starts. What is kept here is the
//! bookkeeping: which samples are queued, dropped, handed to the converter
//! and written out. Samples are patterns of single-precision numbers; mixing,
//! scaling and resampling them is not done here.

use crate::audio::volume::volume_of;
use crate::float::{AtomicF32, ZERO};
use crate::ring::{
    drop_samples, look_for_room, look_for_samples, new_ring, queued, read_samples, room,
    write_samples, written,
};
use rtrb::{Consumer, Producer};
use std::sync::atomic::{AtomicBool, AtomicU64, AtomicU8, Ordering};
use vstd::prelude::*;

verus! {

/// Fixed block size produced by the resampler.
pub const CHUNK_FRAMES: usize = 128;

/// The ratio of the resampler is looked at once in that many packets.
pub const DRIFT_TICKS: u32 = 8;

/// Playback state of an output, read by the UI.
#[derive(Debug, Clone, Copy, PartialEq, Eq, Structural)]
pub enum PlayState {
    Buffering,
    Playing,
}

impl PlayState {
    /// The number that stands for the state.
    pub open spec fn number(self) -> u8 {
        match self {
            PlayState::Buffering => 0,
            PlayState::Playing => 1,
        }
    }

    /// The state a number stands for.
    pub open spec fn of_number(n: u8) -> PlayState {
        if n == 1 {
            PlayState::Playing
        } else {
            PlayState::Buffering
        }
    }

    pub fn code(self) -> (n: u8)
        ensures
            n == self.number(),
            PlayState::of_number(n) == self,
    {
        match self {
            PlayState::Buffering => 0,
            PlayState::Playing => 1,
        }
    }

    pub fn from_code(n: u8) -> (s: PlayState)
        ensures
            s == PlayState::of_number(n),
    {
        if n == 1 {
            PlayState::Playing
        } else {
            PlayState::Buffering
        }
    }
}

/// Values shared between an output's audio thread and the rest of the app.
/// Any thread may change them at any time, so no contract speaks of them.
#[derive(Debug)]
pub struct OutputShared {
    /// Target linear gain.
    pub gain: AtomicF32,
    pub muted: AtomicBool,
    /// Peak since the last read, after volume.
    pub peak: AtomicF32,
    pub underruns: AtomicU64,
    pub state: AtomicU8,
}

impl OutputShared {
    pub fn new(gain: u32, muted: bool) -> Self {
        OutputShared {
            gain: AtomicF32::new(gain),
            muted: AtomicBool::new(muted),
            peak: AtomicF32::new(ZERO),
            underruns: AtomicU64::new(0),
            state: AtomicU8::new(PlayState::Buffering.code()),
        }
    }

    /// The state the audio thread last left: see [`PlayState::from_code`].
    pub fn play_state(&self) -> PlayState {
        PlayState::from_code(self.state.load(Ordering::Relaxed))
    }

    pub fn set_play_state(&self, state: PlayState) {
        self.state.store(state.code(), Ordering::Relaxed);
    }

    /// Counts a packet in which the queue ran dry.
    pub fn note_underrun(&self) {
        let _ = self.underruns.fetch_add(1, Ordering::Relaxed);
    }

    /// Volume for this packet, silence while muted: see [`volume_of`].
    pub fn target_gain(&self) -> u32 {
        let muted = self.muted.load(Ordering::Relaxed);
        let gain: u32 = self.gain.load();
        volume_of(gain, muted)
    }
}

/// How many samples go into a queue with `room` free slots: whole frames, as
/// many as there are and as fit.
pub open spec fn pushable(room: nat, len: nat, channels: nat) -> nat {
    let fits = room / channels * channels;
    let there = len / channels * channels;
    if fits <= there {
        fits
    } else {
        there
    }
}

/// [`pushable`], computed.
pub fn samples_to_push(room: usize, len: usize, channels: usize) -> (n: usize)
    requires
        channels > 0,
    ensures
        n == pushable(room as nat, len as nat, channels as nat),
        n <= room,
        n <= len,
        n % channels == 0,
{
    assert(room / channels * channels <= room) by (nonlinear_arith)
        requires
            channels > 0,
    ;
    assert(len / channels * channels <= len) by (nonlinear_arith)
        requires
            channels > 0,
    ;
    let fits: usize = room / channels * channels;
    let there: usize = len / channels * channels;
    proof {
        vstd::arithmetic::div_mod::lemma_mod_multiples_basic(
            (room / channels) as int,
            channels as int,
        );
        vstd::arithmetic::div_mod::lemma_mod_multiples_basic(
            (len / channels) as int,
            channels as int,
        );
    }
    if fits <= there {
        fits
    } else {
        there
    }
}

/// Pushes captured samples into a queue. Never blocks: when the queue is full
/// (stalled output), extra frames are dropped. Returns the number of frames
/// pushed.
pub fn push_frames(p: &mut Producer<u32>, samples: &[u32], channels: usize) -> (frames: usize)
    requires
        channels > 0,
    ensures
        written(*final(p)) == written(*old(p)) + samples@.take(frames * channels),
        frames * channels <= samples@.len(),
        exists|seen: nat|
            room(*old(p)) <= seen && frames * channels == #[trigger] pushable(
                seen,
                samples@.len(),
                channels as nat,
            ) && room(*final(p)) == seen - frames * channels,
{
    let seen: usize = look_for_room(p);
    let n: usize = samples_to_push(seen, samples.len(), channels);
    let frames: usize = n / channels;
    proof {
        vstd::arithmetic::div_mod::lemma_fundamental_div_mod(n as int, channels as int);
        assert(channels * frames == frames * channels) by (nonlinear_arith);
        assert(pushable(seen as nat, samples@.len(), channels as nat) == n);
    }
    if n == 0 {
        assert(written(*p) =~= written(*old(p)) + samples@.take(0));
        return 0;
    }
    let part = vstd::slice::slice_subrange(samples, 0, n);
    let _ = write_samples(p, part);
    frames
}

/// Whether going from one channel count to another takes mixing channels
/// together, rather than only moving them.
pub open spec fn mixes(in_ch: nat, out_ch: nat) -> bool {
    in_ch != out_ch && in_ch != 1 && (out_ch == 1 || out_ch == 2)
}

/// The sample of channel `c` in frame `f` after going from `in_ch` to
/// `out_ch` channels. Layouts follow WAVE/SMPTE order: L, R, C, LFE, ...
/// A single channel goes to all of them, two go to the front left and right
/// only, others keep their place, and what is left stays silent. Where
/// channels have to be mixed, `mixed` holds the result.
pub open spec fn remapped(
    src: Seq<u32>,
    in_ch: nat,
    mixed: Seq<u32>,
    out_ch: nat,
    f: int,
    c: int,
) -> u32 {
    if in_ch == out_ch {
        src[f * in_ch + c]
    } else if in_ch == 1 {
        src[f]
    } else if out_ch == 1 || out_ch == 2 {
        mixed[f * out_ch + c]
    } else if c < in_ch {
        src[f * in_ch + c]
    } else {
        ZERO
    }
}

proof fn lemma_sample_in_range(f: int, c: int, frames: int, ch: int, len: int)
    requires
        0 <= f < frames,
        0 <= c < ch,
        frames <= len / ch,
    ensures
        0 <= f * ch + c < frames * ch,
        frames * ch <= len,
        f * ch <= (f + 1) * ch <= frames * ch,
{
    assert(frames * ch <= len) by (nonlinear_arith)
        requires
            frames <= len / ch,
            ch > 0,
    ;
    assert(0 <= f * ch && f * ch + ch <= frames * ch && (f + 1) * ch == f * ch + ch)
        by (nonlinear_arith)
        requires
            0 <= f,
            f + 1 <= frames,
            ch > 0,
    ;
}

/// The frames that fit both sides.
pub open spec fn common_frames(src: nat, in_ch: nat, dst: nat, out_ch: nat) -> nat {
    if src / in_ch <= dst / out_ch {
        src / in_ch
    } else {
        dst / out_ch
    }
}

/// Channels that are not mixed are never changed: the same count keeps every
/// sample, one channel is heard on all, and two go to the front alone.
pub proof fn law_moved_channels_are_kept(
    src: Seq<u32>,
    in_ch: nat,
    mixed: Seq<u32>,
    out_ch: nat,
    f: int,
    c: int,
)
    requires
        0 <= f,
        0 <= c < out_ch,
        !mixes(in_ch, out_ch),
    ensures
        in_ch == out_ch ==> remapped(src, in_ch, mixed, out_ch, f, c) == src[f * out_ch + c],
        in_ch == 1 ==> remapped(src, in_ch, mixed, out_ch, f, c) == src[f],
        in_ch == 2 && out_ch > 2 ==> remapped(src, in_ch, mixed, out_ch, f, c) == if c < 2 {
            src[f * 2 + c]
        } else {
            ZERO
        },
{
    if in_ch == 1 && out_ch == 1 {
        assert(f * in_ch + c == f) by (nonlinear_arith)
            requires
                in_ch == 1,
                c == 0,
        ;
    }
}

/// Whether going from `in_ch` to `out_ch` channels takes mixing.
pub fn needs_mix(in_ch: usize, out_ch: usize) -> (r: bool)
    ensures
        r == mixes(in_ch as nat, out_ch as nat),
{
    in_ch != out_ch && in_ch != 1 && (out_ch == 1 || out_ch == 2)
}

/// Copies `src` (interleaved, `in_ch` channels) to the front of `dst`
/// (interleaved, `out_ch` channels). Where channels have to be mixed, the
/// mixed frames are taken from `mixed`.
pub fn remap_channels(
    src: &[u32],
    in_ch: usize,
    mixed: &[u32],
    dst: &mut Vec<u32>,
    out_ch: usize,
)
    requires
        in_ch > 0,
        out_ch > 0,
        mixes(in_ch as nat, out_ch as nat) ==> mixed@.len() >= common_frames(
            src@.len(),
            in_ch as nat,
            old(dst)@.len(),
            out_ch as nat,
        ) * out_ch,
    ensures
        final(dst)@.len() == old(dst)@.len(),
        ({
            let frames = common_frames(
                src@.len(),
                in_ch as nat,
                old(dst)@.len(),
                out_ch as nat,
            ) as int;
            &&& forall|f: int, c: int|
                0 <= f < frames && 0 <= c < out_ch ==> final(dst)@[#[trigger] (f * out_ch + c)]
                    == remapped(src@, in_ch as nat, mixed@, out_ch as nat, f, c)
            &&& forall|k: int|
                frames * out_ch <= k < old(dst)@.len() ==> final(dst)@[k] == old(dst)@[k]
        }),
{
    let in_frames: usize = src.len() / in_ch;
    let out_frames: usize = dst.len() / out_ch;
    let frames: usize = if in_frames <= out_frames {
        in_frames
    } else {
        out_frames
    };
    let mut f: usize = 0;
    while f < frames
        invariant
            in_ch > 0,
            out_ch > 0,
            f <= frames,
            frames <= src@.len() / in_ch as nat,
            frames <= dst@.len() / out_ch as nat,
            src@.len() <= usize::MAX,
            dst@.len() <= usize::MAX,
            dst@.len() == old(dst)@.len(),
            mixes(in_ch as nat, out_ch as nat) ==> mixed@.len() >= frames * out_ch,
            forall|g: int, c: int|
                0 <= g < f && 0 <= c < out_ch ==> dst@[#[trigger] (g * out_ch + c)] == remapped(
                    src@,
                    in_ch as nat,
                    mixed@,
                    out_ch as nat,
                    g,
                    c,
                ),
            forall|k: int| f * out_ch <= k < old(dst)@.len() ==> dst@[k] == old(dst)@[k],
        decreases frames - f,
    {
        let mut c: usize = 0;
        proof {
            lemma_sample_in_range(f as int, 0, frames as int, in_ch as int, src@.len() as int);
            lemma_sample_in_range(f as int, 0, frames as int, out_ch as int, dst@.len() as int);
        }
        let from: usize = f * in_ch;
        let to: usize = f * out_ch;
        while c < out_ch
            invariant
                in_ch > 0,
                out_ch > 0,
                c <= out_ch,
                f < frames,
                from == f * in_ch,
                to == f * out_ch,
                frames <= src@.len() / in_ch as nat,
                frames <= dst@.len() / out_ch as nat,
                src@.len() <= usize::MAX,
                dst@.len() <= usize::MAX,
                dst@.len() == old(dst)@.len(),
                mixes(in_ch as nat, out_ch as nat) ==> mixed@.len() >= frames * out_ch,
                forall|g: int, d: int|
                    0 <= g < f && 0 <= d < out_ch ==> dst@[#[trigger] (g * out_ch + d)]
                        == remapped(src@, in_ch as nat, mixed@, out_ch as nat, g, d),
                forall|d: int|
                    0 <= d < c ==> dst@[#[trigger] (f * out_ch + d)] == remapped(
                        src@,
                        in_ch as nat,
                        mixed@,
                        out_ch as nat,
                        f as int,
                        d,
                    ),
                forall|k: int|
                    f * out_ch + c <= k < old(dst)@.len() ==> dst@[k] == old(dst)@[k],
            decreases out_ch - c,
        {
            proof {
                lemma_sample_in_range(
                    f as int,
                    c as int,
                    frames as int,
                    out_ch as int,
                    dst@.len() as int,
                );
                if c < in_ch {
                    lemma_sample_in_range(
                        f as int,
                        c as int,
                        frames as int,
                        in_ch as int,
                        src@.len() as int,
                    );
                }
                assert(in_ch == 1 ==> f * in_ch == f) by (nonlinear_arith);
                lemma_sample_in_range(
                    f as int,
                    0,
                    frames as int,
                    in_ch as int,
                    src@.len() as int,
                );
            }
            let value: u32 = if in_ch == out_ch {
                src[from + c]
            } else if in_ch == 1 {
                src[from]
            } else if out_ch == 1 || out_ch == 2 {
                mixed[to + c]
            } else if c < in_ch {
                src[from + c]
            } else {
                ZERO
            };
            let ghost before = dst@;
            dst[to + c] = value;
            proof {
                assert forall|g: int, d: int| 0 <= g < f && 0 <= d < out_ch implies dst@[
                #[trigger] (g * out_ch + d)] == remapped(
                    src@,
                    in_ch as nat,
                    mixed@,
                    out_ch as nat,
                    g,
                    d,
                ) by {
                    assert(f <= (f * out_ch) / (out_ch as int)) by (nonlinear_arith)
                        requires
                            out_ch > 0,
                            f >= 0,
                    ;
                    lemma_sample_in_range(g, d, f as int, out_ch as int, f * out_ch);
                    assert(before[g * out_ch + d] == dst@[g * out_ch + d]);
                }
            }
            c += 1;
        }
        proof {
            assert((f + 1) * out_ch == f * out_ch + out_ch) by (nonlinear_arith);
            assert forall|g: int, d: int| 0 <= g < f + 1 && 0 <= d < out_ch implies dst@[
            #[trigger] (g * out_ch + d)] == remapped(
                src@,
                in_ch as nat,
                mixed@,
                out_ch as nat,
                g,
                d,
            ) by {
            }
        }
        f += 1;
    }
}

/// Parameters of a source to output queue.
#[derive(Debug, Clone, Copy, PartialEq, Eq, Structural)]
pub struct PipeFormat {
    pub in_rate: u32,
    pub in_channels: usize,
    pub out_rate: u32,
    pub out_channels: usize,
    /// Target latency kept in the queue, in source frames.
    pub target_frames: usize,
}

impl PipeFormat {
    /// The frames a queue holds: one second, and at least eight times the
    /// target.
    pub open spec fn ring_frames(&self) -> nat {
        if self.in_rate >= self.target_frames * 8 {
            self.in_rate as nat
        } else {
            (self.target_frames * 8) as nat
        }
    }

    /// Queue capacity: one second, and at least eight times the target.
    pub fn ring_capacity(&self) -> (n: usize)
        requires
            self.ring_frames() <= usize::MAX,
            self.ring_frames() * self.in_channels <= usize::MAX,
        ensures
            n == self.ring_frames() * self.in_channels,
    {
        let second: usize = self.in_rate as usize;
        let eight: usize = self.target_frames * 8;
        let frames: usize = if second >= eight {
            second
        } else {
            eight
        };
        frames * self.in_channels
    }

    /// An empty queue of that capacity: its writing and its reading end.
    pub fn queue(&self) -> (r: (Producer<u32>, Consumer<u32>))
        requires
            self.ring_frames() <= usize::MAX,
            self.ring_frames() * self.in_channels <= isize::MAX / 4,
        ensures
            room(r.0) == self.ring_frames() * self.in_channels,
            written(r.0) == Seq::<u32>::empty(),
            queued(r.1) == Seq::<u32>::empty(),
    {
        new_ring(self.ring_capacity())
    }

    /// There are channels on both sides, and the target leaves room to count
    /// what is queued above it.
    pub open spec fn wf(&self) -> bool {
        &&& self.in_channels > 0
        &&& self.out_channels > 0
        &&& self.target_frames * 4 + CHUNK_FRAMES * 2 <= usize::MAX
    }
}

/// The frames to drop when `queued` are waiting: once the queue is well above
/// the target, everything over the target goes.
pub open spec fn excess(queued: nat, target: nat) -> nat {
    if queued > target * 4 + CHUNK_FRAMES * 2 {
        (queued - target) as nat
    } else {
        0
    }
}

/// [`excess`], computed.
pub fn excess_frames(queued: usize, target: usize) -> (n: usize)
    requires
        target * 4 + CHUNK_FRAMES * 2 <= usize::MAX,
    ensures
        n == excess(queued as nat, target as nat),
        n <= queued,
{
    if queued > target * 4 + CHUNK_FRAMES * 2 {
        queued - target
    } else {
        0
    }
}

/// How a packet begins.
#[derive(Debug, Clone, Copy, PartialEq, Eq, Structural)]
pub enum Start {
    /// The queue has not reached the target latency: the packet is silent.
    Silence,
    /// The packet is played; `started` tells whether playback just began, and
    /// `trimmed` whether frames were dropped from the queue.
    Play { started: bool, trimmed: bool },
}

/// How a packet begins with `queued` frames waiting.
pub open spec fn start_of(buffering: bool, queued: nat, target: nat) -> Start {
    if buffering && queued < target {
        Start::Silence
    } else {
        Start::Play { started: buffering, trimmed: excess(queued, target) > 0 }
    }
}

/// What comes next while a packet is played.
#[derive(Debug, Clone, Copy, PartialEq, Eq, Structural)]
pub enum Render {
    /// The packet is full.
    Finished,
    /// Another block has to be converted.
    Refill,
    /// So many samples were written out.
    Wrote(usize),
}

/// Nothing is played before the queue has reached the target latency, and
/// once it plays it goes on until the queue runs dry.
pub proof fn law_playing_waits_for_the_target(queued: nat, target: nat)
    ensures
        start_of(true, queued, target) is Silence <==> queued < target,
        start_of(false, queued, target) !is Silence,
        start_of(true, queued, target) matches Start::Play { started, .. } ==> started,
{
}

/// However much is queued, no more than four times the target and two blocks
/// stays, and what is not far above the target is left alone.
pub proof fn law_latency_stays_bounded(queued: nat, target: nat)
    ensures
        excess(queued, target) <= queued,
        queued - excess(queued, target) <= target * 4 + CHUNK_FRAMES * 2,
        queued <= target * 4 ==> excess(queued, target) == 0,
        queued >= target ==> queued - excess(queued, target) >= target,
{
}

/// Output side reader: pulls the queue, hands blocks to the converter and
/// writes out what comes back.
pub struct Pipe {
    pub fmt: PipeFormat,
    pub consumer: Consumer<u32>,
    /// The block for the converter.
    pub in_buf: Vec<u32>,
    /// Converted samples, of which those from `pending_pos` up to
    /// `pending_len` are still to be written out.
    pub pending: Vec<u32>,
    pub pending_pos: usize,
    pub pending_len: usize,
    pub buffering: bool,
    pub drift_tick: u32,
    /// The packets in which the queue ran dry.
    pub underruns: u64,
}

proof fn lemma_trimmed(len: int, frames: int, target: int, ch: int)
    requires
        ch > 0,
        frames == len / ch,
        0 <= target <= frames,
    ensures
        0 <= (frames - target) * ch <= len,
        (len - (frames - target) * ch) / ch == target,
{
    let rest = len % ch;
    assert(len == frames * ch + rest && 0 <= rest < ch) by (nonlinear_arith)
        requires
            ch > 0,
            frames == len / ch,
            rest == len % ch,
    ;
    assert((frames - target) * ch == frames * ch - target * ch) by (nonlinear_arith);
    assert(0 <= (frames - target) * ch) by (nonlinear_arith)
        requires
            0 <= target <= frames,
            ch > 0,
    ;
    assert(0 <= target * ch) by (nonlinear_arith)
        requires
            0 <= target,
            ch > 0,
    ;
    assert((target * ch + rest) / ch == target) by (nonlinear_arith)
        requires
            ch > 0,
            0 <= rest < ch,
    ;
}

impl Pipe {
    /// The queued frames this end knows of.
    pub open spec fn frames(&self) -> nat {
        queued(self.consumer).len() / self.fmt.in_channels as nat
    }

    /// The samples still to be written out.
    pub open spec fn left(&self) -> Seq<u32> {
        self.pending@.subrange(self.pending_pos as int, self.pending_len as int)
    }

    pub open spec fn wf(&self) -> bool {
        &&& self.fmt.wf()
        &&& self.pending_pos <= self.pending_len <= self.pending@.len()
        &&& self.drift_tick < DRIFT_TICKS
    }

    /// A pipe that has not played anything. `block_frames` is the most the
    /// converter produces at once.
    pub fn new(fmt: PipeFormat, consumer: Consumer<u32>, block_frames: usize) -> (p: Self)
        requires
            fmt.wf(),
            block_frames * fmt.out_channels <= usize::MAX,
        ensures
            p.wf(),
            p.fmt == fmt,
            p.consumer == consumer,
            p.buffering,
            p.left().len() == 0,
            p.pending@.len() == block_frames * fmt.out_channels,
            p.in_buf@.len() == 0,
            p.drift_tick == 0,
            p.underruns == 0,
    {
        Pipe {
            fmt,
            consumer,
            in_buf: Vec::new(),
            pending: vec![ZERO;block_frames * fmt.out_channels],
            pending_pos: 0,
            pending_len: 0,
            buffering: true,
            drift_tick: 0,
            underruns: 0,
        }
    }

    /// The state that is shown of the output.
    pub open spec fn shown(&self) -> PlayState {
        if self.buffering {
            PlayState::Buffering
        } else {
            PlayState::Playing
        }
    }

    pub fn play_state(&self) -> (r: PlayState)
        ensures
            r == self.shown(),
    {
        if self.buffering {
            PlayState::Buffering
        } else {
            PlayState::Playing
        }
    }

    /// How many frames are queued by now.
    pub fn queued_frames(&mut self) -> (n: usize)
        requires
            old(self).wf(),
        ensures
            final(self).wf(),
            n == final(self).frames(),
            queued(final(self).consumer).len() <= usize::MAX,
            queued(old(self).consumer).is_prefix_of(queued(final(self).consumer)),
            *final(self) == (Pipe { consumer: final(self).consumer, ..*old(self) }),
    {
        look_for_samples(&mut self.consumer) / self.fmt.in_channels
    }

    /// Begins a packet: waits for the queue to reach the target latency, and
    /// drops what is queued far above it. Where playback just began, its state
    /// is shared.
    pub fn begin(&mut self, shared: &OutputShared) -> (r: Start)
        requires
            old(self).wf(),
        ensures
            final(self).wf(),
            *final(self) == (Pipe {
                consumer: final(self).consumer,
                buffering: r is Silence,
                ..*old(self)
            }),
            exists|seen: Seq<u32>|
                {
                    let frames = seen.len() / old(self).fmt.in_channels as nat;
                    let target = old(self).fmt.target_frames as nat;
                    &&& #[trigger] queued(old(self).consumer).is_prefix_of(seen)
                    &&& r == start_of(old(self).buffering, frames, target)
                    &&& queued(final(self).consumer) == if r is Silence {
                        seen
                    } else {
                        seen.skip(excess(frames, target) * old(self).fmt.in_channels)
                    }
                },
            (r matches Start::Play { trimmed, .. } && trimmed) ==> final(self).frames()
                == old(self).fmt.target_frames,
    {
        let target: usize = self.fmt.target_frames;
        let ghost start = queued(self.consumer);
        let started = self.buffering;
        if self.buffering {
            if self.queued_frames() < target {
                assert(start.is_prefix_of(queued(self.consumer)));
                return Start::Silence;
            }
            self.buffering = false;
            shared.set_play_state(self.play_state());
        }
        let ghost first = queued(self.consumer);
        let frames: usize = self.queued_frames();
        let ghost seen = queued(self.consumer);
        proof {
            assert(start.is_prefix_of(seen)) by {
                assert(first.is_prefix_of(seen));
                assert(start.is_prefix_of(first));
                assert(start =~= seen.subrange(0, start.len() as int));
            }
            assert(first.len() / self.fmt.in_channels as nat <= frames)
                by (nonlinear_arith)
                requires
                    first.len() <= seen.len(),
                    frames == seen.len() / self.fmt.in_channels as nat,
                    self.fmt.in_channels > 0,
            ;
        }
        let extra: usize = excess_frames(frames, target);
        if extra > 0 {
            proof {
                lemma_trimmed(
                    seen.len() as int,
                    frames as int,
                    target as int,
                    self.fmt.in_channels as int,
                );
            }
            let _ = drop_samples(&mut self.consumer, extra * self.fmt.in_channels);
        } else {
            assert(0 * self.fmt.in_channels == 0) by (nonlinear_arith);
            assert(seen.skip(0) =~= seen);
        }
        Start::Play { started, trimmed: extra > 0 }
    }

    /// Whether everything converted so far has been written out.
    pub fn wants_block(&self) -> (r: bool)
        requires
            self.wf(),
        ensures
            r == (self.left().len() == 0),
    {
        self.pending_pos >= self.pending_len
    }

    /// Takes the next block for the converter off the queue, `need` frames of
    /// it. False when fewer are waiting: the queue ran dry.
    pub fn next_block(&mut self, need: usize) -> (r: bool)
        requires
            old(self).wf(),
        ensures
            final(self).wf(),
            *final(self) == (Pipe {
                consumer: final(self).consumer,
                in_buf: final(self).in_buf,
                ..*old(self)
            }),
            exists|seen: Seq<u32>|
                {
                    let samples = need * old(self).fmt.in_channels;
                    &&& #[trigger] queued(old(self).consumer).is_prefix_of(seen)
                    &&& r == (seen.len() / old(self).fmt.in_channels as nat >= need)
                    &&& r ==> final(self).in_buf@ == seen.take(samples) && queued(
                        final(self).consumer,
                    ) == seen.skip(samples)
                    &&& !r ==> final(self).in_buf == old(self).in_buf && queued(
                        final(self).consumer,
                    ) == seen
                },
    {
        let frames: usize = self.queued_frames();
        let ghost seen = queued(self.consumer);
        assert(queued(old(self).consumer).is_prefix_of(seen));
        if frames < need {
            return false;
        }
        assert(need * self.fmt.in_channels <= seen.len()) by (nonlinear_arith)
            requires
                need <= frames,
                frames == seen.len() / self.fmt.in_channels as nat,
                self.fmt.in_channels > 0,
        ;
        let _ = read_samples(&mut self.consumer, need * self.fmt.in_channels, &mut self.in_buf);
        true
    }

    /// Takes a block of `resampled` frames back from the converter, with the
    /// source's channels, and gives it the output's channels. Where channels
    /// have to be mixed, the mixed frames are in `mixed`.
    pub fn block_ready(&mut self, resampled: &Vec<u32>, mixed: &Vec<u32>)
        requires
            old(self).wf(),
            resampled@.len() / old(self).fmt.in_channels as nat * old(self).fmt.out_channels
                <= old(self).pending@.len(),
            mixes(old(self).fmt.in_channels as nat, old(self).fmt.out_channels as nat)
                ==> mixed@.len() >= resampled@.len() / old(self).fmt.in_channels as nat
                * old(self).fmt.out_channels,
        ensures
            final(self).wf(),
            *final(self) == (Pipe {
                pending: final(self).pending,
                pending_pos: 0,
                pending_len: final(self).pending_len,
                ..*old(self)
            }),
            ({
                let fmt = old(self).fmt;
                let frames = resampled@.len() / fmt.in_channels as nat;
                &&& final(self).left().len() == frames * fmt.out_channels
                &&& forall|f: int, c: int|
                    0 <= f < frames && 0 <= c < fmt.out_channels ==> final(self).left()[
                    #[trigger] (f * fmt.out_channels + c)] == remapped(
                        resampled@,
                        fmt.in_channels as nat,
                        mixed@,
                        fmt.out_channels as nat,
                        f,
                        c,
                    )
            }),
            final(self).pending@.len() == old(self).pending@.len(),
    {
        let ich: usize = self.fmt.in_channels;
        let och: usize = self.fmt.out_channels;
        let frames: usize = resampled.len() / ich;
        let most: usize = self.pending.len();
        proof {
            let room = most as nat;
            assert(frames <= room / och as nat) by (nonlinear_arith)
                requires
                    frames * och <= room,
                    och > 0,
            ;
        }
        remap_channels(resampled.as_slice(), ich, mixed.as_slice(), &mut self.pending, och);
        self.pending_pos = 0;
        self.pending_len = frames * och;
        proof {
            assert forall|f: int, c: int| 0 <= f < frames && 0 <= c < och implies self.left()[
            #[trigger] (f * och + c)] == remapped(
                resampled@,
                ich as nat,
                mixed@,
                och as nat,
                f,
                c,
            ) by {
                lemma_sample_in_range(
                    f,
                    c,
                    frames as int,
                    och as int,
                    self.pending@.len() as int,
                );
            }
        }
    }

    /// Writes out what is pending, from the sample `at` of the packet on, as
    /// far as either goes. Returns how many samples that is.
    pub fn write_pending(&mut self, out: &mut Vec<u32>, at: usize) -> (n: usize)
        requires
            old(self).wf(),
            at <= old(out)@.len(),
        ensures
            final(self).wf(),
            *final(self) == (Pipe { pending_pos: final(self).pending_pos, ..*old(self) }),
            n == if old(self).left().len() <= old(out)@.len() - at {
                old(self).left().len() as int
            } else {
                old(out)@.len() - at
            },
            final(self).left() == old(self).left().skip(n as int),
            final(out)@ == old(out)@.take(at as int) + old(self).left().take(n as int) + old(out)@.skip(at + n),
    {
        let ready: usize = self.pending_len - self.pending_pos;
        let free: usize = out.len() - at;
        let n: usize = if ready <= free {
            ready
        } else {
            free
        };
        let mut i: usize = 0;
        while i < n
            invariant
                i <= n,
                self.wf(),
                *self == *old(self),
                n <= self.left().len(),
                out@.len() == old(out)@.len(),
                at + n <= out@.len(),
                out@.len() <= usize::MAX,
                out@ == old(out)@.take(at as int) + self.left().take(i as int) + old(out)@.skip(
                    at + i,
                ),
            decreases n - i,
        {
            out[at + i] = self.pending[self.pending_pos + i];
            assert(out@ =~= old(out)@.take(at as int) + self.left().take(i + 1) + old(out)@.skip(
                at + i + 1,
            ));
            i += 1;
        }
        self.pending_pos = self.pending_pos + n;
        assert(self.left() =~= old(self).left().skip(n as int));
        n
    }

    /// Goes on with a packet, of which `at` samples are written: writes out
    /// what is pending, or asks for a block where nothing is.
    pub fn render(&mut self, out: &mut Vec<u32>, at: usize) -> (r: Render)
        requires
            old(self).wf(),
            at <= old(out)@.len(),
        ensures
            final(self).wf(),
            *final(self) == (Pipe { pending_pos: final(self).pending_pos, ..*old(self) }),
            match r {
                Render::Finished => at == old(out)@.len() && final(out)@ == old(out)@
                    && *final(self) == *old(self),
                Render::Refill => {
                    &&& at < old(out)@.len()
                    &&& old(self).left().len() == 0
                    &&& final(out)@ == old(out)@
                    &&& *final(self) == *old(self)
                },
                Render::Wrote(n) => {
                    &&& 0 < n <= old(out)@.len() - at
                    &&& n <= old(self).left().len()
                    &&& n == old(self).left().len() || at + n == old(out)@.len()
                    &&& final(self).left() == old(self).left().skip(n as int)
                    &&& final(out)@ == old(out)@.take(at as int) + old(self).left().take(n as int)
                        + old(out)@.skip(at + n)
                },
            },
    {
        if at == out.len() {
            return Render::Finished;
        }
        if self.wants_block() {
            return Render::Refill;
        }
        let n: usize = self.write_pending(out, at);
        Render::Wrote(n)
    }

    /// Once the queue ran dry: that is counted, and the target has to be
    /// reached again.
    pub open spec fn after_dry(self) -> Pipe {
        Pipe {
            buffering: true,
            underruns: if self.underruns < u64::MAX {
                (self.underruns + 1) as u64
            } else {
                0
            },
            ..self
        }
    }

    /// Nothing is left to read: the rest of the packet is silent, and the
    /// queue has to reach the target again. The underrun and the state are
    /// shared.
    pub fn run_dry(&mut self, out: &mut Vec<u32>, at: usize, shared: &OutputShared)
        requires
            old(self).wf(),
            at <= old(out)@.len(),
        ensures
            final(self).wf(),
            *final(self) == old(self).after_dry(),
            final(self).shown() == PlayState::Buffering,
            final(out)@ == old(out)@.take(at as int) + Seq::new(
                (old(out)@.len() - at) as nat,
                |i: int| ZERO,
            ),
    {
        silence(out, at);
        self.buffering = true;
        self.underruns = if self.underruns < u64::MAX {
            self.underruns + 1
        } else {
            0
        };
        shared.note_underrun();
        shared.set_play_state(self.play_state());
    }

    /// Counts packets: once in a while it is time to look at the ratio of the
    /// resampler.
    pub fn drift_due(&mut self) -> (r: bool)
        requires
            old(self).wf(),
        ensures
            final(self).wf(),
            r == (old(self).drift_tick + 1 >= DRIFT_TICKS),
            *final(self) == (Pipe {
                drift_tick: if r {
                    0
                } else {
                    (old(self).drift_tick + 1) as u32
                },
                ..*old(self)
            }),
    {
        self.drift_tick = self.drift_tick + 1;
        if self.drift_tick < DRIFT_TICKS {
            return false;
        }
        self.drift_tick = 0;
        true
    }
}

/// A packet in which the queue runs dry holds what was left, at the place
/// that it had come to, and silence behind it. That counts as one underrun and
/// is shown, and nothing more is played before the target is reached again.
/// `written` is the packet once what was left has been written to it, and
/// `packet` what it is in the end.
pub proof fn law_a_dry_pipe_plays_what_was_left(
    out: Seq<u32>,
    at: int,
    left: Seq<u32>,
    written: Seq<u32>,
    packet: Seq<u32>,
    pipe: Pipe,
    queued: nat,
)
    requires
        0 <= at,
        at + left.len() <= out.len(),
        written == out.take(at) + left.take(left.len() as int) + out.skip(at + left.len()),
        packet == written.take(at + left.len()) + Seq::new(
            (written.len() - at - left.len()) as nat,
            |i: int| ZERO,
        ),
    ensures
        packet == out.take(at) + left + Seq::new(
            (out.len() - at - left.len()) as nat,
            |i: int| ZERO,
        ),
        pipe.underruns < u64::MAX ==> pipe.after_dry().underruns == pipe.underruns + 1,
        pipe.after_dry().shown() == PlayState::Buffering,
        start_of(
            pipe.after_dry().buffering,
            queued,
            pipe.fmt.target_frames as nat,
        ) is Silence <==> queued < pipe.fmt.target_frames,
{
    assert(left.take(left.len() as int) =~= left);
    assert(written.len() == out.len());
    assert(written.take(at + left.len()) =~= out.take(at) + left);
}

/// Makes a packet silent from the sample `at` on.
pub fn silence(out: &mut Vec<u32>, at: usize)
    requires
        at <= old(out)@.len(),
    ensures
        final(out)@ == old(out)@.take(at as int) + Seq::new(
            (old(out)@.len() - at) as nat,
            |i: int| ZERO,
        ),
{
    let ghost rest = Seq::new((out@.len() - at) as nat, |i: int| ZERO);
    let mut i: usize = at;
    while i < out.len()
        invariant
            at <= i <= out@.len(),
            out@.len() == old(out)@.len(),
            rest == Seq::new((old(out)@.len() - at) as nat, |i: int| ZERO),
            out@ == old(out)@.take(at as int) + rest.take(i - at) + old(out)@.skip(i as int),
        decreases out@.len() - i,
    {
        out[i] = ZERO;
        assert(out@ =~= old(out)@.take(at as int) + rest.take(i + 1 - at) + old(out)@.skip(i + 1));
        i += 1;
    }
    assert(out@ =~= old(out)@.take(at as int) + rest);
}

/// Whole frames are pushed, as many as there are and as fit: one more would be
/// more than there are or than there is room for.
pub proof fn lemma_pushable(room: nat, len: nat, channels: nat)
    requires
        channels > 0,
    ensures
        ({
            let n = pushable(room, len, channels);
            &&& n <= room && n <= len
            &&& n % channels == 0
            &&& n + channels > room || n + channels > len
            &&& room >= len && len % channels == 0 ==> n == len
        }),
{
    let a = room as int;
    let b = len as int;
    let c = channels as int;
    assert(a / c * c <= a < a / c * c + c) by (nonlinear_arith)
        requires
            c > 0,
    ;
    assert(b / c * c <= b < b / c * c + c) by (nonlinear_arith)
        requires
            c > 0,
    ;
    vstd::arithmetic::div_mod::lemma_mod_multiples_basic(a / c, c);
    vstd::arithmetic::div_mod::lemma_mod_multiples_basic(b / c, c);
    vstd::arithmetic::div_mod::lemma_fundamental_div_mod(b, c);
    assert(c * (b / c) == b / c * c) by (nonlinear_arith);
    if room >= len && len % channels == 0 {
        assert(a / c * c >= b / c * c) by (nonlinear_arith)
            requires
                a >= b,
                c > 0,
        ;
    }
}

/// As many whole frames are pushed as there are and as fit, and no more fit.
pub proof fn law_as_many_frames_are_pushed_as_fit(
    room: usize,
    len: usize,
    channels: usize,
    n: usize,
)
    requires
        channels > 0,
        call_ensures(samples_to_push, (room, len, channels), n),
    ensures
        n <= room && n <= len && n % channels == 0,
        n + channels > room || n + channels > len,
{
    lemma_pushable(room as nat, len as nat, channels as nat);
}

/// What is pushed are the first of the samples, in whole frames, behind what was
/// pushed before; all of them where the queue is known to have room.
pub proof fn law_samples_are_pushed_in_order(
    p: &mut Producer<u32>,
    samples: &[u32],
    channels: usize,
    frames: usize,
)
    requires
        channels > 0,
        call_ensures(push_frames, (p, samples, channels), frames),
    ensures
        written(*final(p)) == written(*old(p)) + samples@.take(frames * channels),
        frames * channels <= samples@.len(),
        room(*old(p)) >= samples@.len() && samples@.len() % channels as nat == 0 ==> written(
            *final(p),
        ) == written(*old(p)) + samples@,
{
    let seen = choose|seen: nat|
        room(*old(p)) <= seen && frames * channels == #[trigger] pushable(
            seen,
            samples@.len(),
            channels as nat,
        ) && room(*final(p)) == seen - frames * channels;
    lemma_pushable(seen, samples@.len(), channels as nat);
    assert(samples@.take(samples@.len() as int) =~= samples@);
}

/// A state is read as it was stored.
pub proof fn law_a_state_is_read_as_it_was_stored(s: PlayState, n: u8, r: PlayState, m: u8, t: PlayState)
    requires
        call_ensures(PlayState::code, (s,), n),
        call_ensures(PlayState::from_code, (n,), r),
        call_ensures(PlayState::from_code, (m,), t),
    ensures
        r == s,
        t is Playing <==> m == 1,
{
}

/// Channels are mixed only where there are fewer speakers than channels: onto
/// one or two, from more than one.
pub proof fn law_channels_are_mixed_onto_fewer(in_ch: usize, out_ch: usize, r: bool)
    requires
        call_ensures(needs_mix, (in_ch, out_ch), r),
        in_ch > 0 && out_ch > 0,
    ensures
        in_ch == out_ch ==> !r,
        in_ch == 1 ==> !r,
        out_ch > 2 ==> !r,
        in_ch > out_ch && out_ch <= 2 ==> r,
        in_ch == 2 && out_ch == 1 ==> r,
{
}

/// Each frame keeps its place. Where nothing is mixed the same channels keep
/// every sample, a single channel is heard on all, and others stay in their
/// place, with silence on what is left; where channels are mixed, the mixed
/// frames are taken.
pub proof fn law_channels_keep_their_place(
    src: &[u32],
    in_ch: usize,
    mixed: &[u32],
    dst: &mut Vec<u32>,
    out_ch: usize,
    mixing: bool,
    f: int,
    c: int,
)
    requires
        in_ch > 0 && out_ch > 0,
        call_ensures(remap_channels, (src, in_ch, mixed, dst, out_ch), ()),
        call_ensures(needs_mix, (in_ch, out_ch), mixing),
        0 <= f < src@.len() / in_ch as nat,
        f < old(dst)@.len() / out_ch as nat,
        0 <= c < out_ch,
    ensures
        final(dst)@.len() == old(dst)@.len(),
        mixing ==> final(dst)@[f * out_ch + c] == mixed@[f * out_ch + c],
        !mixing && in_ch == 1 ==> final(dst)@[f * out_ch + c] == src@[f],
        !mixing && in_ch > 1 && c < in_ch ==> final(dst)@[f * out_ch + c] == src@[f * in_ch + c],
        !mixing && in_ch > 1 && c >= in_ch ==> final(dst)@[f * out_ch + c] == 0,
        forall|k: int|
            src@.len() / in_ch as nat * out_ch <= k < old(dst)@.len() ==> #[trigger] final(dst)@[k]
                == old(dst)@[k],
{
    let whole = src@.len() / in_ch as nat;
    let frames = common_frames(src@.len(), in_ch as nat, old(dst)@.len(), out_ch as nat);
    assert(frames * out_ch <= whole * out_ch) by (nonlinear_arith)
        requires
            frames <= whole,
            out_ch > 0,
    ;
    if in_ch == 1 {
        assert(f * in_ch + c == f + c) by (nonlinear_arith)
            requires
                in_ch == 1,
        ;
    }
}

/// A queue holds a second of the source and eight times the latency, and no
/// more than the greater of them.
pub proof fn law_a_queue_holds_a_second(
    fmt: &PipeFormat,
    n: usize,
    r: (Producer<u32>, Consumer<u32>),
)
    requires
        fmt.in_channels > 0,
        call_ensures(PipeFormat::ring_capacity, (fmt,), n),
        call_ensures(PipeFormat::queue, (fmt,), r),
    ensures
        n >= fmt.in_rate * fmt.in_channels,
        n >= fmt.target_frames * 8 * fmt.in_channels,
        n == fmt.in_rate * fmt.in_channels || n == fmt.target_frames * 8 * fmt.in_channels,
        room(r.0) == n,
        queued(r.1).len() == 0,
        written(r.0).len() == 0,
{
    let a = fmt.in_rate as int;
    let b = fmt.target_frames * 8;
    let c = fmt.in_channels as int;
    assert(a >= b ==> a * c >= b * c) by (nonlinear_arith)
        requires
            c > 0,
    ;
    assert(b >= a ==> b * c >= a * c) by (nonlinear_arith)
        requires
            c > 0,
    ;
}

/// What is queued above the target is dropped once it is four times the target
/// and two blocks; then the target is left. What is not is left alone.
pub proof fn law_a_long_queue_is_cut_to_its_target(queued_now: usize, target: usize, n: usize)
    requires
        call_ensures(excess_frames, (queued_now, target), n),
    ensures
        n > 0 ==> queued_now - n == target && queued_now > target * 4,
        n == 0 ==> queued_now <= target * 4 + CHUNK_FRAMES * 2,
        queued_now <= target * 4 + CHUNK_FRAMES * 2 ==> n == 0,
{
}

/// Nothing is played until the target is queued, and then everything from the
/// oldest sample on; where far too much is queued the oldest goes, and as much
/// as the target stays.
pub proof fn law_a_packet_waits_for_the_target(pipe: &mut Pipe, shared: &OutputShared, r: Start)
    requires
        old(pipe).wf(),
        call_ensures(Pipe::begin, (pipe, shared), r),
    ensures
        r is Silence ==> old(pipe).buffering && final(pipe).buffering && final(pipe).frames()
            < old(pipe).fmt.target_frames,
        !(r is Silence) ==> !final(pipe).buffering,
        !old(pipe).buffering ==> !(r is Silence),
        old(pipe).frames() >= old(pipe).fmt.target_frames ==> !(r is Silence),
        r is Silence ==> queued(old(pipe).consumer).is_prefix_of(queued(final(pipe).consumer)),
        r matches Start::Play { started, trimmed } ==> {
            &&& started <==> old(pipe).buffering
            &&& !trimmed ==> queued(old(pipe).consumer).is_prefix_of(queued(final(pipe).consumer))
            &&& trimmed ==> final(pipe).frames() == old(pipe).fmt.target_frames
            &&& final(pipe).frames() <= old(pipe).fmt.target_frames * 4 + CHUNK_FRAMES * 2
        },
        final(pipe).pending == old(pipe).pending,
        final(pipe).pending_pos == old(pipe).pending_pos,
        final(pipe).pending_len == old(pipe).pending_len,
        final(pipe).underruns == old(pipe).underruns,
{
    let target = old(pipe).fmt.target_frames as nat;
    let ch = old(pipe).fmt.in_channels as nat;
    let seen = choose|seen: Seq<u32>|
        {
            let frames = seen.len() / ch;
            &&& #[trigger] queued(old(pipe).consumer).is_prefix_of(seen)
            &&& r == start_of(old(pipe).buffering, frames, target)
            &&& queued(final(pipe).consumer) == if r is Silence {
                seen
            } else {
                seen.skip(excess(frames, target) * old(pipe).fmt.in_channels)
            }
        };
    let frames = seen.len() / ch;
    let before = queued(old(pipe).consumer).len();
    assert(before / ch <= frames) by (nonlinear_arith)
        requires
            before <= seen.len(),
            frames == seen.len() / ch,
            ch > 0,
    ;
    if excess(frames, target) == 0 {
        assert(0 * ch == 0) by (nonlinear_arith);
        assert(seen.skip(0) =~= seen);
    }
}

/// A block is taken off the front of the queue exactly where so much is queued,
/// and nothing is taken where it is not.
pub proof fn law_a_block_is_taken_off_the_queue(pipe: &mut Pipe, need: usize, r: bool)
    requires
        old(pipe).wf(),
        call_ensures(Pipe::next_block, (pipe, need), r),
    ensures
        old(pipe).frames() >= need ==> r,
        r ==> final(pipe).in_buf@.len() == need * old(pipe).fmt.in_channels,
        r ==> queued(old(pipe).consumer).is_prefix_of(
            final(pipe).in_buf@ + queued(final(pipe).consumer),
        ),
        !r ==> queued(old(pipe).consumer).is_prefix_of(queued(final(pipe).consumer)) && final(pipe).in_buf == old(pipe).in_buf,
        final(pipe).pending == old(pipe).pending,
        final(pipe).buffering == old(pipe).buffering,
{
    let ch = old(pipe).fmt.in_channels as nat;
    let samples = need * old(pipe).fmt.in_channels;
    let seen = choose|seen: Seq<u32>|
        {
            &&& #[trigger] queued(old(pipe).consumer).is_prefix_of(seen)
            &&& r == (seen.len() / ch >= need)
            &&& r ==> final(pipe).in_buf@ == seen.take(samples) && queued(final(pipe).consumer)
                == seen.skip(samples)
            &&& !r ==> final(pipe).in_buf == old(pipe).in_buf && queued(final(pipe).consumer)
                == seen
        };
    let before = queued(old(pipe).consumer).len();
    assert(before / ch <= seen.len() / ch) by (nonlinear_arith)
        requires
            before <= seen.len(),
            ch > 0,
    ;
    if r {
        assert(0 <= samples <= seen.len()) by (nonlinear_arith)
            requires
                samples == need * ch,
                need <= seen.len() / ch,
                ch > 0,
        ;
        assert(seen.take(samples) + seen.skip(samples) =~= seen);
    }
}

/// A packet is filled from the sample on that it has come to, with what is
/// pending in its order; what does not fit stays for the next. A block is asked
/// for only where nothing is pending, and a full packet is finished.
pub proof fn law_a_packet_is_filled_in_order(
    pipe: &mut Pipe,
    out: &mut Vec<u32>,
    at: usize,
    r: Render,
)
    requires
        old(pipe).wf(),
        at <= old(out)@.len(),
        call_ensures(Pipe::render, (pipe, out, at), r),
    ensures
        r is Finished <==> at == old(out)@.len(),
        r is Refill <==> at < old(out)@.len() && old(pipe).left().len() == 0,
        final(out)@.len() == old(out)@.len(),
        final(out)@.take(at as int) == old(out)@.take(at as int),
        r matches Render::Wrote(n) ==> {
            &&& 0 < n && at + n <= old(out)@.len()
            &&& final(out)@.subrange(at as int, at + n) + final(pipe).left() == old(pipe).left()
            &&& final(pipe).left().len() == 0 || at + n == old(out)@.len()
        },
        !(r is Wrote) ==> final(pipe).left() == old(pipe).left(),
{
    match r {
        Render::Wrote(n) => {
            let left = old(pipe).left();
            assert(final(out)@.subrange(at as int, at + n) =~= left.take(n as int));
            assert(left.take(n as int) + left.skip(n as int) =~= left);
            assert(final(out)@.take(at as int) =~= old(out)@.take(at as int));
        },
        _ => {},
    }
}

/// Once the queue runs dry the rest of the packet is silent, what was written
/// stays, the output is shown as buffering, and the next packet waits for the
/// target again. That is counted.
pub proof fn law_a_dry_queue_is_silent(
    pipe: &mut Pipe,
    out: &mut Vec<u32>,
    at: usize,
    shared: &OutputShared,
    after: &Pipe,
    shown: PlayState,
    i: int,
)
    requires
        old(pipe).wf(),
        at <= old(out)@.len(),
        call_ensures(Pipe::run_dry, (pipe, out, at, shared), ()),
        *after == *final(pipe),
        call_ensures(Pipe::play_state, (after,), shown),
        0 <= i < old(out)@.len(),
    ensures
        final(out)@.len() == old(out)@.len(),
        i < at ==> final(out)@[i] == old(out)@[i],
        i >= at ==> final(out)@[i] == 0,
        shown is Buffering,
        final(pipe).buffering,
        old(pipe).underruns < u64::MAX ==> final(pipe).underruns == old(pipe).underruns + 1,
        old(pipe).underruns == u64::MAX ==> final(pipe).underruns == 0,
        final(pipe).consumer == old(pipe).consumer,
{
}

/// An output is shown as it is; every eighth packet it is time to look at the
/// ratio; a new pipe waits, and has nothing pending.
pub proof fn law_a_new_pipe_waits(
    fmt: PipeFormat,
    consumer: Consumer<u32>,
    block: usize,
    pipe: Pipe,
    any: &Pipe,
    shown: PlayState,
    ticking: &mut Pipe,
    due: bool,
    idle: bool,
)
    requires
        call_ensures(Pipe::new, (fmt, consumer, block), pipe),
        call_ensures(Pipe::play_state, (any,), shown),
        old(ticking).wf(),
        call_ensures(Pipe::drift_due, (ticking,), due),
        call_ensures(Pipe::wants_block, (any,), idle),
    ensures
        pipe.buffering && pipe.left().len() == 0 && pipe.fmt == fmt && pipe.consumer == consumer,
        pipe.underruns == 0 && pipe.in_buf@.len() == 0 && pipe.drift_tick == 0,
        pipe.pending@.len() == block * fmt.out_channels,
        shown is Buffering <==> any.buffering,
        idle <==> any.left().len() == 0,
        due <==> old(ticking).drift_tick == 7,
        due ==> final(ticking).drift_tick == 0,
        !due ==> final(ticking).drift_tick == old(ticking).drift_tick + 1,
        final(ticking).buffering == old(ticking).buffering,
{
}

/// What comes back from the converter is pending from its first frame on, with
/// the output's channels.
pub proof fn law_a_converted_block_is_pending(
    pipe: &mut Pipe,
    resampled: &Vec<u32>,
    mixed: &Vec<u32>,
    mixing: bool,
    f: int,
    c: int,
)
    requires
        old(pipe).wf(),
        call_ensures(Pipe::block_ready, (pipe, resampled, mixed), ()),
        call_ensures(needs_mix, (old(pipe).fmt.in_channels, old(pipe).fmt.out_channels), mixing),
        0 <= f < resampled@.len() / old(pipe).fmt.in_channels as nat,
        0 <= c < old(pipe).fmt.out_channels,
    ensures
        ({
            let ich = old(pipe).fmt.in_channels;
            let och = old(pipe).fmt.out_channels;
            let left = final(pipe).left();
            &&& left.len() == resampled@.len() / ich as nat * och
            &&& mixing ==> left[f * och + c] == mixed@[f * och + c]
            &&& !mixing && ich == 1 ==> left[f * och + c] == resampled@[f]
            &&& !mixing && ich > 1 && c < ich ==> left[f * och + c] == resampled@[f * ich + c]
            &&& !mixing && ich > 1 && c >= ich ==> left[f * och + c] == 0
        }),
        final(pipe).consumer == old(pipe).consumer,
        final(pipe).buffering == old(pipe).buffering,
{
    let ich = old(pipe).fmt.in_channels;
    if ich == 1 {
        assert(f * ich + c == f + c) by (nonlinear_arith)
            requires
                ich == 1,
        ;
    }
}

/// A packet that is silent from a sample on keeps what stands before it.
pub proof fn law_silence_begins_where_it_is_asked(out: &mut Vec<u32>, at: usize, i: int)
    requires
        at <= old(out)@.len(),
        call_ensures(silence, (out, at), ()),
        0 <= i < old(out)@.len(),
    ensures
        final(out)@.len() == old(out)@.len(),
        i < at ==> final(out)@[i] == old(out)@[i],
        i >= at ==> final(out)@[i] == 0,
{
}

/// What is pending is written from its first sample on, as far as the packet
/// goes, and the rest of the packet stays; what was not written is still pending.
pub proof fn law_what_is_pending_is_written_in_order(
    pipe: &mut Pipe,
    out: &mut Vec<u32>,
    at: usize,
    n: usize,
)
    requires
        old(pipe).wf(),
        at <= old(out)@.len(),
        call_ensures(Pipe::write_pending, (pipe, out, at), n),
    ensures
        at + n <= old(out)@.len(),
        n == old(pipe).left().len() || at + n == old(out)@.len(),
        final(out)@.subrange(at as int, at + n) + final(pipe).left() == old(pipe).left(),
        final(out)@.take(at as int) == old(out)@.take(at as int),
        final(out)@.skip(at + n) == old(out)@.skip(at + n),
{
    let left = old(pipe).left();
    assert(final(out)@.subrange(at as int, at + n) =~= left.take(n as int));
    assert(left.take(n as int) + left.skip(n as int) =~= left);
    assert(final(out)@.take(at as int) =~= old(out)@.take(at as int));
    assert(final(out)@.skip(at + n) =~= old(out)@.skip(at + n));
}

/// Looking at the queue takes nothing off it, and tells how many whole frames
/// wait.
pub proof fn law_looking_at_the_queue_takes_nothing(pipe: &mut Pipe, n: usize)
    requires
        old(pipe).wf(),
        call_ensures(Pipe::queued_frames, (pipe,), n),
    ensures
        queued(old(pipe).consumer).is_prefix_of(queued(final(pipe).consumer)),
        n * old(pipe).fmt.in_channels <= queued(final(pipe).consumer).len() < (n + 1)
            * old(pipe).fmt.in_channels,
        final(pipe).pending == old(pipe).pending && final(pipe).buffering == old(pipe).buffering,
{
    let len = queued(final(pipe).consumer).len();
    let ch = old(pipe).fmt.in_channels as nat;
    assert(len / ch * ch <= len < (len / ch + 1) * ch) by (nonlinear_arith)
        requires
            ch > 0,
    ;
}

} // verus!
