//! The source side: incoming audio is brought to the common format and
//! handed to every registered callback, newest first. Monitors are those
//! callbacks.

use crate::audio::format::{
    common_spec, native_order, samples_from, samples_in, AudioSpec, ByteOrder, ObsAudio,
    SourceAudio, OBS_FORMAT, OBS_SAMPLE_RATE, OBS_SPEAKERS,
};
use crate::float::{greater, peak, peak_of, raised, INFINITY, ZERO};
use vstd::prelude::*;

verus! {

/// Whoever wants the audio of a source.
pub trait AudioCallback: Send + Sync {
    fn on_audio(&self, audio: &ObsAudio);
}

pub type CallbackId = u64;

/// What has to happen to a packet before it can be handed on.
#[derive(Debug, Clone, Copy, PartialEq, Eq, Structural)]
pub enum Route {
    /// The format is new: a converter from it has to be made first.
    CreateResampler,
    /// No converter could be made for this format.
    Drop,
    /// The packet goes through the converter.
    Resample,
    /// The packet is in the common format already.
    PassThrough,
}

/// The conversion of one source.
pub struct ProcessState {
    /// The format of the packets that came last.
    pub sample_info: Option<AudioSpec>,
    /// Whether there is a converter for that format.
    pub resampler: bool,
    pub audio_failed: bool,
    /// The converted samples, one buffer for each of the two channels.
    pub storage: (Vec<u32>, Vec<u32>),
}

/// A buffer after `n` samples were copied to its front: it never shrinks.
pub open spec fn copied(buffer: Seq<u32>, samples: Seq<u32>) -> Seq<u32> {
    if buffer.len() <= samples.len() {
        samples
    } else {
        samples + buffer.skip(samples.len() as int)
    }
}

/// The common format.
pub fn obs_spec() -> (r: AudioSpec)
    ensures
        r == common_spec(),
{
    AudioSpec { rate: OBS_SAMPLE_RATE, speakers: OBS_SPEAKERS, format: OBS_FORMAT }
}

/// Copies samples to the front of a buffer, which grows where it has to.
fn copy_plane(dst: &mut Vec<u32>, src: &Vec<u32>, n: usize)
    requires
        n <= src@.len(),
    ensures
        final(dst)@ == copied(old(dst)@, src@.take(n as int)),
{
    if dst.len() < n {
        dst.resize(n, ZERO);
    }
    let ghost before = dst@;
    let mut i: usize = 0;
    while i < n
        invariant
            i <= n <= src@.len(),
            n <= dst@.len(),
            dst@.len() == before.len(),
            dst@ == src@.take(i as int) + before.skip(i as int),
        decreases n - i,
    {
        dst[i] = src[i];
        assert(dst@ =~= src@.take(i + 1) + before.skip(i + 1));
        i += 1;
    }
    assert(dst@ =~= copied(old(dst)@, src@.take(n as int)));
}

impl ProcessState {
    pub fn new() -> (s: Self)
        ensures
            s.sample_info is None,
            !s.resampler,
            !s.audio_failed,
            s.storage.0@.len() == 0,
            s.storage.1@.len() == 0,
    {
        ProcessState {
            sample_info: None,
            resampler: false,
            audio_failed: false,
            storage: (Vec::new(), Vec::new()),
        }
    }

    /// A format that is neither converted nor refused is the common one.
    pub open spec fn wf(&self) -> bool {
        self.sample_info is Some && !self.resampler && !self.audio_failed ==> self.sample_info
            == Some(common_spec())
    }

    /// Whether the format and its converter are the same in both.
    pub open spec fn same_route(&self, other: &ProcessState) -> bool {
        &&& self.sample_info == other.sample_info
        &&& self.resampler == other.resampler
        &&& self.audio_failed == other.audio_failed
    }

    /// The route of a packet in the format `spec`.
    pub open spec fn route_of(&self, spec: AudioSpec) -> Route {
        if self.sample_info != Some(spec) {
            if spec == common_spec() {
                Route::PassThrough
            } else {
                Route::CreateResampler
            }
        } else if self.audio_failed {
            Route::Drop
        } else if self.resampler {
            Route::Resample
        } else {
            Route::PassThrough
        }
    }

    /// Takes note of the format of the next packet. A new format forgets the
    /// converter of the one before, and the common format needs none.
    pub fn route(&mut self, spec: AudioSpec) -> (r: Route)
        ensures
            r == old(self).route_of(spec),
            final(self).storage == old(self).storage,
            old(self).sample_info == Some(spec) ==> *final(self) == *old(self),
            old(self).sample_info != Some(spec) ==> {
                &&& final(self).sample_info == Some(spec)
                &&& !final(self).resampler
                &&& final(self).audio_failed == (spec != common_spec())
            },
    {
        let known = match self.sample_info {
            Some(last) => last == spec,
            None => false,
        };
        if !known {
            self.sample_info = Some(spec);
            self.resampler = false;
            if spec == obs_spec() {
                self.audio_failed = false;
                return Route::PassThrough;
            }
            self.audio_failed = true;
            return Route::CreateResampler;
        }
        if self.audio_failed {
            Route::Drop
        } else if self.resampler {
            Route::Resample
        } else {
            Route::PassThrough
        }
    }

    /// The converter asked for was made, or could not be.
    pub fn resampler_created(&mut self, made: bool) -> (r: Route)
        ensures
            final(self).resampler == made,
            final(self).audio_failed == !made,
            final(self).sample_info == old(self).sample_info,
            final(self).storage == old(self).storage,
            r == if made {
                Route::Resample
            } else {
                Route::Drop
            },
    {
        self.resampler = made;
        self.audio_failed = !made;
        if made {
            Route::Resample
        } else {
            Route::Drop
        }
    }

    /// Stores what the converter made of a packet: `n` frames of the two
    /// planes.
    pub fn store(&mut self, left: &Vec<u32>, right: &Vec<u32>, n: usize)
        requires
            n <= left@.len(),
            n <= right@.len(),
        ensures
            final(self).storage.0@ == copied(old(self).storage.0@, left@.take(n as int)),
            final(self).storage.1@ == copied(old(self).storage.1@, right@.take(n as int)),
            final(self).sample_info == old(self).sample_info,
            final(self).resampler == old(self).resampler,
            final(self).audio_failed == old(self).audio_failed,
    {
        copy_plane(&mut self.storage.0, left, n);
        copy_plane(&mut self.storage.1, right, n);
    }

    /// Whether a packet in the common format holds what it owes: one plane
    /// for each channel with `frames` samples in it.
    pub open spec fn is_whole(audio: &SourceAudio) -> bool {
        &&& audio.planes@.len() >= 2
        &&& audio.planes@[0]@.len() / 4 >= audio.frames
        &&& audio.planes@[1]@.len() / 4 >= audio.frames
    }

    /// Whether `after` is what a packet in the common format leads to, its
    /// numbers stored in the given order: its samples are at the front of the
    /// buffers, as far as they are there.
    pub open spec fn takes(
        &self,
        order: ByteOrder,
        audio: &SourceAudio,
        after: &ProcessState,
    ) -> bool {
        &&& after.same_route(self)
        &&& after.storage.0@ == if audio.planes@.len() >= 2 && audio.planes@[0]@.len() / 4
            >= audio.frames {
            copied(
                self.storage.0@,
                samples_in(order, audio.planes@[0]@).take(audio.frames as int),
            )
        } else {
            self.storage.0@
        }
        &&& after.storage.1@ == if Self::is_whole(audio) {
            copied(
                self.storage.1@,
                samples_in(order, audio.planes@[1]@).take(audio.frames as int),
            )
        } else {
            self.storage.1@
        }
    }

    /// Stores a packet that is in the common format already. A packet that
    /// does not hold what it owes is dropped: `None`.
    pub fn pass_through(&mut self, order: ByteOrder, audio: &SourceAudio) -> (r: Option<usize>)
        ensures
            r == if Self::is_whole(audio) {
                Some(audio.frames as usize)
            } else {
                None
            },
            old(self).takes(order, audio, final(self)),
    {
        let n: usize = audio.frames as usize;
        if audio.planes.len() < 2 {
            return None;
        }
        let left = samples_from(order, audio.planes[0]);
        if left.len() < n {
            return None;
        }
        copy_plane(&mut self.storage.0, &left, n);
        let right = samples_from(order, audio.planes[1]);
        if right.len() < n {
            return None;
        }
        copy_plane(&mut self.storage.1, &right, n);
        Some(n)
    }
}

/// The louder of two levels.
pub open spec fn louder_of(a: u32, b: u32) -> u32 {
    if a >= b {
        a
    } else {
        b
    }
}

/// A source: its conversion, its callbacks and its peak.
pub struct SourceHub<C> {
    process: ProcessState,
    callbacks: Vec<(CallbackId, C)>,
    next_id: CallbackId,
    /// Peak of the converted audio since the last read, as a pattern.
    peak: u32,
}

impl<C> SourceHub<C> {
    /// The registered callbacks, oldest first.
    pub closed spec fn registered(&self) -> Seq<(CallbackId, C)> {
        self.callbacks@
    }

    /// The number the next callback gets.
    pub closed spec fn upcoming(&self) -> CallbackId {
        self.next_id
    }

    /// The loudest sample since the peak was last taken.
    pub closed spec fn level(&self) -> u32 {
        self.peak
    }

    /// The conversion of the source.
    pub closed spec fn conversion(&self) -> ProcessState {
        self.process
    }

    /// Every callback has a number of its own, below the next one, only the
    /// common format goes without a converter, and the level is a number.
    pub open spec fn wf(&self) -> bool {
        let list = self.registered();
        &&& self.conversion().wf()
        &&& self.level() <= INFINITY
        &&& forall|i: int| 0 <= i < list.len() ==> (#[trigger] list[i]).0 < self.upcoming()
        &&& forall|i: int, j: int|
            0 <= i < j < list.len() ==> (#[trigger] list[i]).0 < (#[trigger] list[j]).0
    }

    pub fn new() -> (hub: Self)
        ensures
            hub.wf(),
            hub.registered().len() == 0,
            hub.upcoming() == 1,
            hub.level() == ZERO,
            hub.conversion().sample_info is None,
            !hub.conversion().resampler,
            !hub.conversion().audio_failed,
            hub.conversion().storage.0@.len() == 0,
            hub.conversion().storage.1@.len() == 0,
    {
        SourceHub { process: ProcessState::new(), callbacks: Vec::new(), next_id: 1, peak: ZERO }
    }

    /// Whether another callback can get a number.
    pub fn has_number(&self) -> (r: bool)
        ensures
            r == (self.upcoming() < CallbackId::MAX),
    {
        self.next_id < CallbackId::MAX
    }

    /// Registers a callback and gives it a number.
    pub fn add_callback(&mut self, cb: C) -> (id: CallbackId)
        requires
            old(self).wf(),
            old(self).upcoming() < CallbackId::MAX,
        ensures
            final(self).wf(),
            id == old(self).upcoming(),
            final(self).registered() == old(self).registered().push((id, cb)),
            final(self).upcoming() == old(self).upcoming() + 1,
            final(self).level() == old(self).level(),
            final(self).conversion() == old(self).conversion(),
    {
        let id: CallbackId = self.next_id;
        self.next_id = id + 1;
        self.callbacks.push((id, cb));
        proof {
            let list = old(self).registered();
            assert(self.registered() == list.push((id, cb)));
            assert forall|i: int| 0 <= i < self.registered().len() implies (
            #[trigger] self.registered()[i]).0 < self.upcoming() by {
                if i < list.len() {
                    assert(list[i].0 < id);
                }
            }
            assert forall|i: int, j: int| 0 <= i < j < self.registered().len() implies (
            #[trigger] self.registered()[i]).0 < (#[trigger] self.registered()[j]).0 by {
                assert(list[i].0 < id);
                if j < list.len() {
                    assert(list[i].0 < list[j].0);
                }
            }
        }
        id
    }

    /// Takes a callback out. A number nobody has changes nothing.
    pub fn remove_callback(&mut self, id: CallbackId)
        requires
            old(self).wf(),
        ensures
            final(self).wf(),
            final(self).registered() == without(old(self).registered(), id),
            final(self).upcoming() == old(self).upcoming(),
            final(self).level() == old(self).level(),
            final(self).conversion() == old(self).conversion(),
    {
        let ghost list = self.callbacks@;
        let mut i: usize = 0;
        while i < self.callbacks.len()
            invariant
                i <= self.callbacks@.len(),
                self.callbacks@ == list,
                *self == *old(self),
                old(self).wf(),
                list == old(self).registered(),
                forall|k: int| 0 <= k < i ==> list[k].0 != id,
            decreases self.callbacks@.len() - i,
        {
            if self.callbacks[i].0 == id {
                self.callbacks.remove(i);
                proof {
                    lemma_without(list, id, i as int);
                }
                return;
            }
            i += 1;
        }
        proof {
            lemma_without_absent(list, id);
        }
    }

    /// Reads the peak and starts over from silence.
    pub fn take_peak(&mut self) -> (r: u32)
        ensures
            r == old(self).level(),
            old(self).wf() ==> r <= INFINITY,
            final(self).level() == ZERO,
            final(self).registered() == old(self).registered(),
            final(self).upcoming() == old(self).upcoming(),
            final(self).conversion() == old(self).conversion(),
            old(self).wf() ==> final(self).wf(),
    {
        let r: u32 = self.peak;
        self.peak = ZERO;
        assert(self.registered() == old(self).registered());
        r
    }

    /// Takes note of the format of the next packet and says what has to
    /// happen to it.
    pub fn route(&mut self, spec: AudioSpec) -> (r: Route)
        ensures
            r == old(self).conversion().route_of(spec),
            final(self).registered() == old(self).registered(),
            final(self).upcoming() == old(self).upcoming(),
            final(self).level() == old(self).level(),
            final(self).conversion().sample_info == Some(spec),
            final(self).conversion().storage == old(self).conversion().storage,
            old(self).conversion().sample_info == Some(spec) ==> final(self).conversion()
                == old(self).conversion(),
            old(self).conversion().sample_info != Some(spec) ==> {
                &&& !final(self).conversion().resampler
                &&& final(self).conversion().audio_failed == (spec != common_spec())
            },
            old(self).wf() ==> final(self).wf(),
            r is PassThrough && old(self).wf() ==> spec == common_spec(),
    {
        let r = self.process.route(spec);
        assert(self.registered() == old(self).registered());
        r
    }

    /// The converter asked for was made, or could not be.
    pub fn resampler_created(&mut self, made: bool) -> (r: Route)
        ensures
            r == if made {
                Route::Resample
            } else {
                Route::Drop
            },
            final(self).conversion().resampler == made,
            final(self).conversion().audio_failed == !made,
            final(self).conversion().sample_info == old(self).conversion().sample_info,
            final(self).conversion().storage == old(self).conversion().storage,
            final(self).registered() == old(self).registered(),
            final(self).upcoming() == old(self).upcoming(),
            final(self).level() == old(self).level(),
            old(self).wf() ==> final(self).wf(),
    {
        let r = self.process.resampler_created(made);
        assert(self.registered() == old(self).registered());
        r
    }

    /// The level of the first `n` samples of both channels.
    pub open spec fn packet_level(&self, n: int) -> u32 {
        louder_of(
            peak_of(self.conversion().storage.0@.take(n)),
            peak_of(self.conversion().storage.1@.take(n)),
        )
    }

    /// The level after a packet of `n` frames, `before` being the level so
    /// far.
    pub open spec fn level_after(&self, before: u32, n: int) -> u32 {
        if greater(self.packet_level(n), before) {
            self.packet_level(n)
        } else {
            before
        }
    }

    fn measure(&mut self, n: usize)
        requires
            n <= old(self).conversion().storage.0@.len(),
            n <= old(self).conversion().storage.1@.len(),
        ensures
            final(self).registered() == old(self).registered(),
            final(self).upcoming() == old(self).upcoming(),
            final(self).conversion() == old(self).conversion(),
            final(self).level() == old(self).level_after(old(self).level(), n as int),
            old(self).level() <= INFINITY ==> final(self).level() <= INFINITY,
    {
        let left: u32 = peak(vstd::slice::slice_subrange(self.process.storage.0.as_slice(), 0, n));
        let right: u32 = peak(vstd::slice::slice_subrange(self.process.storage.1.as_slice(), 0, n));
        let packet: u32 = if left >= right {
            left
        } else {
            right
        };
        self.peak = raised(self.peak, packet);
    }

    /// Takes a packet in the common format: its samples are stored and
    /// measured. `None` where the packet does not hold what it owes, or is in
    /// another format, which a converter has to bring to the common one first:
    /// see [`SourceHub::route`].
    pub fn output_audio(&mut self, audio: &SourceAudio) -> (r: Option<usize>)
        ensures
            old(self).wf() ==> final(self).wf(),
            r == if audio.spec == common_spec() && ProcessState::is_whole(audio) {
                Some(audio.frames as usize)
            } else {
                None
            },
            final(self).registered() == old(self).registered(),
            final(self).upcoming() == old(self).upcoming(),
            r is None ==> final(self).level() == old(self).level(),
            r matches Some(n) ==> {
                &&& n <= final(self).conversion().storage.0@.len()
                &&& n <= final(self).conversion().storage.1@.len()
                &&& final(self).level() == final(self).level_after(old(self).level(), n as int)
            },
            audio.spec != common_spec() ==> final(self).conversion() == old(self).conversion(),
            audio.spec == common_spec() ==> exists|order: ByteOrder|
                #[trigger] old(self).conversion().takes(order, audio, &final(self).conversion()),
    {
        self.output_audio_in(native_order(), audio)
    }

    /// [`SourceHub::output_audio`] for numbers stored in the given order.
    pub fn output_audio_in(&mut self, order: ByteOrder, audio: &SourceAudio) -> (r: Option<usize>)
        ensures
            old(self).wf() ==> final(self).wf(),
            r == if audio.spec == common_spec() && ProcessState::is_whole(audio) {
                Some(audio.frames as usize)
            } else {
                None
            },
            final(self).registered() == old(self).registered(),
            final(self).upcoming() == old(self).upcoming(),
            r is None ==> final(self).level() == old(self).level(),
            r matches Some(n) ==> {
                &&& n <= final(self).conversion().storage.0@.len()
                &&& n <= final(self).conversion().storage.1@.len()
                &&& final(self).level() == final(self).level_after(old(self).level(), n as int)
            },
            audio.spec != common_spec() ==> final(self).conversion() == old(self).conversion(),
            audio.spec == common_spec() ==> old(self).conversion().takes(
                order,
                audio,
                &final(self).conversion(),
            ),
    {
        if audio.spec != obs_spec() {
            return None;
        }
        let taken = self.process.pass_through(order, audio);
        if let Some(n) = taken {
            self.measure(n);
        }
        assert(self.registered() == old(self).registered());
        taken
    }

    /// Takes what the converter made of a packet: `n` frames of the two
    /// planes are stored and measured.
    pub fn output_converted(&mut self, left: &Vec<u32>, right: &Vec<u32>, n: usize)
        requires
            n <= left@.len(),
            n <= right@.len(),
        ensures
            final(self).conversion().same_route(&old(self).conversion()),
            old(self).wf() ==> final(self).wf(),
            final(self).registered() == old(self).registered(),
            final(self).upcoming() == old(self).upcoming(),
            final(self).level() == final(self).level_after(old(self).level(), n as int),
            final(self).conversion().storage.0@ == copied(
                old(self).conversion().storage.0@,
                left@.take(n as int),
            ),
            final(self).conversion().storage.1@ == copied(
                old(self).conversion().storage.1@,
                right@.take(n as int),
            ),
    {
        self.process.store(left, right, n);
        self.measure(n);
        assert(self.registered() == old(self).registered());
    }

    /// The first `frames` stored samples of both channels.
    pub fn audio(&self, frames: u32) -> (r: ObsAudio<'_>)
        requires
            frames <= self.conversion().storage.0@.len(),
            frames <= self.conversion().storage.1@.len(),
        ensures
            r.frames == frames,
            r.planes@[0]@ == self.conversion().storage.0@.take(frames as int),
            r.planes@[1]@ == self.conversion().storage.1@.take(frames as int),
    {
        let n: usize = frames as usize;
        let left = vstd::slice::slice_subrange(self.process.storage.0.as_slice(), 0, n);
        let right = vstd::slice::slice_subrange(self.process.storage.1.as_slice(), 0, n);
        ObsAudio { planes: [left, right], frames }
    }

    /// How many callbacks are registered.
    pub fn callback_count(&self) -> (n: usize)
        ensures
            n == self.registered().len(),
    {
        self.callbacks.len()
    }

    /// The callback whose turn it is after `turn` others: the newest comes
    /// first.
    pub fn callback_at(&self, turn: usize) -> (r: &C)
        requires
            turn < self.registered().len(),
        ensures
            *r == self.registered()[self.registered().len() - 1 - turn].1,
    {
        &self.callbacks[self.callbacks.len() - 1 - turn].1
    }
}

/// A list without the callback of that number.
pub open spec fn without<C>(list: Seq<(CallbackId, C)>, id: CallbackId) -> Seq<(CallbackId, C)> {
    list.filter(|entry: (CallbackId, C)| entry.0 != id)
}

proof fn lemma_without_absent<C>(list: Seq<(CallbackId, C)>, id: CallbackId)
    requires
        forall|k: int| 0 <= k < list.len() ==> (#[trigger] list[k]).0 != id,
    ensures
        without(list, id) == list,
    decreases list.len(),
{
    reveal(Seq::filter);
    if list.len() > 0 {
        assert forall|k: int| 0 <= k < list.drop_last().len() implies (
        #[trigger] list.drop_last()[k]).0 != id by {
            assert(list[k].0 != id);
        }
        lemma_without_absent(list.drop_last(), id);
        assert(list[list.len() - 1].0 != id);
        assert(list.drop_last().push(list.last()) =~= list);
    }
}

proof fn lemma_without<C>(list: Seq<(CallbackId, C)>, id: CallbackId, at: int)
    requires
        0 <= at < list.len(),
        list[at].0 == id,
        forall|k: int| 0 <= k < list.len() && k != at ==> (#[trigger] list[k]).0 != id,
    ensures
        without(list, id) == list.remove(at),
    decreases list.len(),
{
    reveal(Seq::filter);
    let front = list.drop_last();
    if at == list.len() - 1 {
        assert forall|k: int| 0 <= k < front.len() implies (#[trigger] front[k]).0 != id by {
            assert(list[k].0 != id);
        }
        lemma_without_absent(front, id);
        assert(list.remove(at) =~= front);
    } else {
        assert forall|k: int| 0 <= k < front.len() && k != at implies (#[trigger] front[k]).0
            != id by {
            assert(list[k].0 != id);
        }
        lemma_without(front, id, at);
        assert(list[list.len() - 1].0 != id);
        assert(list.remove(at) =~= front.remove(at).push(list.last()));
    }
}

/// Whatever packets are stored in between, the next one of the same format
/// takes the same way: through the converter that was made for it, or nowhere
/// where none could be made. Another format starts over.
pub proof fn law_a_format_keeps_its_converter(
    before: ProcessState,
    after: ProcessState,
    spec: AudioSpec,
    other: AudioSpec,
)
    requires
        before.wf(),
        before.sample_info == Some(spec),
        after.same_route(&before),
        other != spec,
    ensures
        after.wf(),
        after.route_of(spec) == before.route_of(spec),
        before.audio_failed ==> after.route_of(spec) is Drop,
        !before.audio_failed && before.resampler ==> after.route_of(spec) is Resample,
        after.route_of(spec) is PassThrough ==> spec == common_spec(),
        after.route_of(other) == if other == common_spec() {
            Route::PassThrough
        } else {
            Route::CreateResampler
        },
{
}

/// Taking a callback out again leaves the list as it was before it was
/// registered.
pub proof fn law_removing_undoes_adding<C>(list: Seq<(CallbackId, C)>, id: CallbackId, cb: C)
    requires
        forall|i: int| 0 <= i < list.len() ==> (#[trigger] list[i]).0 < id,
    ensures
        without(list.push((id, cb)), id) == list,
{
    reveal(Seq::filter);
    let longer = list.push((id, cb));
    lemma_without_absent(list, id);
    assert(longer.drop_last() =~= list);
}

/// A format that is not the common one is converted: a converter is asked for
/// once, when the format is new. Where it was made every packet goes through
/// it, where it was not every packet is dropped, and the common format needs
/// none.
pub proof fn law_a_new_format_is_converted<C>(
    hub: &mut SourceHub<C>,
    spec: AudioSpec,
    first: Route,
    making: &mut SourceHub<C>,
    made: bool,
    second: Route,
    going: &mut SourceHub<C>,
    next: AudioSpec,
    third: Route,
)
    requires
        old(hub).wf(),
        call_ensures(SourceHub::<C>::route, (hub, spec), first),
        *old(making) == *final(hub),
        call_ensures(SourceHub::<C>::resampler_created, (making, made), second),
        *old(going) == *final(making),
        call_ensures(SourceHub::<C>::route, (going, next), third),
    ensures
        ({
            let common = spec.rate == 48_000 && spec.speakers is Stereo && spec.format
                is FloatPlanar;
            let next_common = next.rate == 48_000 && next.speakers is Stereo && next.format
                is FloatPlanar;
            let known = old(hub).conversion().sample_info == Some(spec);
            &&& first is PassThrough ==> common
            &&& common && !known ==> first is PassThrough
            &&& first is CreateResampler <==> !common && !known
            &&& second is Resample <==> made
            &&& second is Drop <==> !made
            &&& next == spec ==> third == second
            &&& next != spec ==> (third is PassThrough <==> next_common)
            &&& next != spec ==> (third is CreateResampler <==> !next_common)
        }),
        final(going).level() == old(hub).level(),
        final(going).registered() == old(hub).registered(),
        final(going).conversion().storage == old(hub).conversion().storage,
        final(going).upcoming() == old(hub).upcoming(),
        old(hub).conversion().sample_info == Some(spec) ==> final(hub).conversion() == old(hub).conversion(),
{
}

/// A new hub has no callback, no level and no format.
pub proof fn law_a_new_hub_is_empty<C>(hub: SourceHub<C>)
    requires
        call_ensures(SourceHub::<C>::new, (), hub),
    ensures
        hub.registered().len() == 0,
        hub.level() == 0,
        hub.conversion().sample_info is None,
{
}

/// A callback that is added gets a number nobody has and is the first to be
/// called from then on; the others follow in their order. Taking it out again
/// leaves them as they were.
pub proof fn law_a_new_callback_comes_first<C>(
    hub: &mut SourceHub<C>,
    cb: C,
    id: CallbackId,
    after: &SourceHub<C>,
    count: usize,
    turn: usize,
    called: &C,
    removing: &mut SourceHub<C>,
)
    requires
        old(hub).wf(),
        call_ensures(SourceHub::<C>::add_callback, (hub, cb), id),
        *after == *final(hub),
        call_ensures(SourceHub::<C>::callback_count, (after,), count),
        turn < count,
        call_ensures(SourceHub::<C>::callback_at, (after, turn), called),
        *old(removing) == *final(hub),
        call_ensures(SourceHub::<C>::remove_callback, (removing, id), ()),
    ensures
        count == old(hub).registered().len() + 1,
        forall|i: int|
            0 <= i < old(hub).registered().len() ==> (#[trigger] old(hub).registered()[i]).0 != id,
        turn == 0 ==> *called == cb,
        turn > 0 ==> *called == old(hub).registered()[old(hub).registered().len() - turn].1,
        final(removing).registered() == old(hub).registered(),
        final(removing).level() == old(hub).level(),
        final(removing).conversion() == old(hub).conversion(),
{
    let list = old(hub).registered();
    law_removing_undoes_adding(list, id, cb);
}

/// Taking a callback out takes out that one alone; a number that nobody has
/// changes nothing.
pub proof fn law_only_the_named_callback_goes<C>(
    hub: &mut SourceHub<C>,
    id: CallbackId,
    i: int,
)
    requires
        old(hub).wf(),
        call_ensures(SourceHub::<C>::remove_callback, (hub, id), ()),
    ensures
        0 <= i < old(hub).registered().len() && old(hub).registered()[i].0 == id ==> final(hub).registered() == old(hub).registered().remove(i),
        (forall|k: int|
            0 <= k < old(hub).registered().len() ==> (#[trigger] old(hub).registered()[k]).0 != id)
            ==> final(hub).registered() == old(hub).registered(),
        final(hub).level() == old(hub).level(),
        final(hub).upcoming() == old(hub).upcoming(),
{
    let list = old(hub).registered();
    if 0 <= i < list.len() && list[i].0 == id {
        assert forall|k: int| 0 <= k < list.len() && k != i implies (#[trigger] list[k]).0
            != id by {
            if k < i {
                assert(list[k].0 < list[i].0);
            } else {
                assert(list[i].0 < list[k].0);
            }
        }
        lemma_without(list, id, i);
    }
    if forall|k: int| 0 <= k < list.len() ==> (#[trigger] list[k]).0 != id {
        lemma_without_absent(list, id);
    }
}

/// Reading the peak gives the level so far and starts over from silence.
pub proof fn law_a_peak_is_taken_once<C>(
    hub: &mut SourceHub<C>,
    first: u32,
    next: &mut SourceHub<C>,
    second: u32,
)
    requires
        call_ensures(SourceHub::<C>::take_peak, (hub,), first),
        *old(next) == *final(hub),
        call_ensures(SourceHub::<C>::take_peak, (next,), second),
    ensures
        first == old(hub).level(),
        second == 0,
        final(hub).registered() == old(hub).registered(),
        final(hub).conversion() == old(hub).conversion(),
        final(hub).upcoming() == old(hub).upcoming(),
{
}

proof fn lemma_copied(buffer: Seq<u32>, samples: Seq<u32>)
    ensures
        copied(buffer, samples).len() >= samples.len(),
        copied(buffer, samples).take(samples.len() as int) == samples,
{
    assert(copied(buffer, samples).take(samples.len() as int) =~= samples);
}

/// Whether a level is that of `n` frames of two channels on top of the one so
/// far: no sample that is a number is louder, and it is the one so far or that
/// of a sample.
pub open spec fn tells_level(before: u32, left: Seq<u32>, right: Seq<u32>, level: u32) -> bool {
    &&& level >= before
    &&& forall|i: int|
        0 <= i < left.len() && !crate::float::is_nan(#[trigger] left[i])
            ==> crate::float::magnitude(left[i]) <= level
    &&& forall|i: int|
        0 <= i < right.len() && !crate::float::is_nan(#[trigger] right[i])
            ==> crate::float::magnitude(right[i]) <= level
    &&& level > before ==> (exists|i: int|
        0 <= i < left.len() && crate::float::magnitude(#[trigger] left[i]) == level) || (exists|
        i: int,
    |
        0 <= i < right.len() && crate::float::magnitude(#[trigger] right[i]) == level)
}

proof fn lemma_peak_is_a_number(samples: Seq<u32>)
    ensures
        peak_of(samples) <= INFINITY,
    decreases samples.len(),
{
    if samples.len() > 0 {
        lemma_peak_is_a_number(samples.drop_last());
    }
}

proof fn lemma_tells_level<C>(hub: SourceHub<C>, before: u32, n: int)
    requires
        before <= INFINITY,
    ensures
        tells_level(
            before,
            hub.conversion().storage.0@.take(n),
            hub.conversion().storage.1@.take(n),
            hub.level_after(before, n),
        ),
{
    let left = hub.conversion().storage.0@.take(n);
    let right = hub.conversion().storage.1@.take(n);
    crate::float::law_peak_is_the_loudest_sample(left);
    crate::float::law_peak_is_the_loudest_sample(right);
    lemma_peak_is_a_number(left);
    lemma_peak_is_a_number(right);
}

/// What a converter made is what the callbacks get, and it is heard in the
/// level.
pub proof fn law_converted_audio_is_handed_on<C>(
    hub: &mut SourceHub<C>,
    left: &Vec<u32>,
    right: &Vec<u32>,
    n: usize,
    after: &SourceHub<C>,
    frames: u32,
    audio: ObsAudio<'_>,
)
    requires
        old(hub).wf(),
        n <= left@.len() && n <= right@.len(),
        call_ensures(SourceHub::<C>::output_converted, (hub, left, right, n), ()),
        *after == *final(hub),
        frames == n,
        call_ensures(SourceHub::<C>::audio, (after, frames), audio),
    ensures
        audio.frames == n,
        audio.planes@[0]@ == left@.take(n as int),
        audio.planes@[1]@ == right@.take(n as int),
        tells_level(
            old(hub).level(),
            left@.take(n as int),
            right@.take(n as int),
            final(hub).level(),
        ),
        final(hub).registered() == old(hub).registered(),
        final(hub).conversion().sample_info == old(hub).conversion().sample_info,
        final(hub).conversion().resampler == old(hub).conversion().resampler,
        final(hub).conversion().audio_failed == old(hub).conversion().audio_failed,
        final(hub).upcoming() == old(hub).upcoming(),
{
    lemma_copied(old(hub).conversion().storage.0@, left@.take(n as int));
    lemma_copied(old(hub).conversion().storage.1@, right@.take(n as int));
    lemma_tells_level(*final(hub), old(hub).level(), n as int);
}

/// A packet in the common format that holds what it owes is handed on as it
/// came, and is heard in the level; any other is not, and changes no level.
pub proof fn law_common_audio_is_handed_on<C>(
    hub: &mut SourceHub<C>,
    order: ByteOrder,
    packet: &SourceAudio,
    r: Option<usize>,
    after: &SourceHub<C>,
    audio: ObsAudio<'_>,
)
    requires
        old(hub).wf(),
        call_ensures(SourceHub::<C>::output_audio_in, (hub, order, packet), r),
        *after == *final(hub),
        call_ensures(SourceHub::<C>::audio, (after, packet.frames), audio),
    ensures
        r is Some <==> packet.spec.rate == 48_000 && packet.spec.speakers is Stereo
            && packet.spec.format is FloatPlanar && packet.planes@.len() >= 2
            && packet.planes@[0]@.len() >= packet.frames * 4 && packet.planes@[1]@.len()
            >= packet.frames * 4,
        r matches Some(n) ==> {
            let left = samples_in(order, packet.planes@[0]@).take(n as int);
            let right = samples_in(order, packet.planes@[1]@).take(n as int);
            &&& n == packet.frames
            &&& audio.planes@[0]@ == left
            &&& audio.planes@[1]@ == right
            &&& tells_level(old(hub).level(), left, right, final(hub).level())
        },
        r is None ==> final(hub).level() == old(hub).level(),
        final(hub).registered() == old(hub).registered(),
{
    if let Some(n) = r {
        let before = old(hub).conversion().storage;
        lemma_copied(before.0@, samples_in(order, packet.planes@[0]@).take(n as int));
        lemma_copied(before.1@, samples_in(order, packet.planes@[1]@).take(n as int));
        lemma_tells_level(*final(hub), old(hub).level(), n as int);
    }
}

/// The format that everything is brought to.
pub proof fn law_everything_is_brought_to_one_format(r: AudioSpec)
    requires
        call_ensures(obs_spec, (), r),
    ensures
        r.rate == 48_000,
        r.speakers is Stereo,
        r.format is FloatPlanar,
{
}

/// The conversion of a source remembers the format of its packets and whether
/// there is a converter for it; what is stored stays until other audio comes.
pub proof fn law_a_conversion_remembers_its_format(
    state: &mut ProcessState,
    spec: AudioSpec,
    first: Route,
    making: &mut ProcessState,
    made: bool,
    second: Route,
    going: &mut ProcessState,
    third: Route,
    fresh: ProcessState,
)
    requires
        call_ensures(ProcessState::route, (state, spec), first),
        *old(making) == *final(state),
        call_ensures(ProcessState::resampler_created, (making, made), second),
        *old(going) == *final(making),
        call_ensures(ProcessState::route, (going, spec), third),
        call_ensures(ProcessState::new, (), fresh),
    ensures
        third == second,
        second is Resample <==> made,
        second is Drop <==> !made,
        old(state).sample_info != Some(spec) && first is CreateResampler <==> old(state).sample_info != Some(spec) && !(spec.rate == 48_000 && spec.speakers is Stereo
            && spec.format is FloatPlanar),
        final(going).storage == old(state).storage,
        fresh.sample_info is None && !fresh.resampler && !fresh.audio_failed,
{
}

/// What is stored stands at the front of the buffers.
pub proof fn law_a_conversion_keeps_what_is_stored(
    state: &mut ProcessState,
    left: &Vec<u32>,
    right: &Vec<u32>,
    n: usize,
    passing: &mut ProcessState,
    order: ByteOrder,
    packet: &SourceAudio,
    r: Option<usize>,
)
    requires
        n <= left@.len() && n <= right@.len(),
        call_ensures(ProcessState::store, (state, left, right, n), ()),
        call_ensures(ProcessState::pass_through, (passing, order, packet), r),
    ensures
        final(state).storage.0@.take(n as int) == left@.take(n as int),
        final(state).storage.1@.take(n as int) == right@.take(n as int),
        final(state).sample_info == old(state).sample_info,
        final(state).resampler == old(state).resampler,
        final(state).audio_failed == old(state).audio_failed,
        r is Some <==> packet.planes@.len() >= 2 && packet.planes@[0]@.len() >= packet.frames * 4
            && packet.planes@[1]@.len() >= packet.frames * 4,
        r matches Some(k) ==> k == packet.frames && final(passing).storage.0@.take(k as int)
            == samples_in(order, packet.planes@[0]@).take(k as int) && final(passing).storage.1@.take(k as int) == samples_in(order, packet.planes@[1]@).take(k as int),
{
    lemma_copied(old(state).storage.0@, left@.take(n as int));
    lemma_copied(old(state).storage.1@, right@.take(n as int));
    if let Some(k) = r {
        lemma_copied(
            old(passing).storage.0@,
            samples_in(order, packet.planes@[0]@).take(k as int),
        );
        lemma_copied(
            old(passing).storage.1@,
            samples_in(order, packet.planes@[1]@).take(k as int),
        );
    }
}

/// A packet in the common format is handed on in one of the two orders in which
/// numbers are stored, the machine's own; what is said of the level and of
/// packets that are refused holds either way. Another callback can get a number
/// as long as one is left.
pub proof fn law_audio_is_handed_on_in_one_order<C>(
    hub: &mut SourceHub<C>,
    packet: &SourceAudio,
    r: Option<usize>,
    after: &SourceHub<C>,
    audio: ObsAudio<'_>,
    more: bool,
)
    requires
        old(hub).wf(),
        call_ensures(SourceHub::<C>::output_audio, (hub, packet), r),
        *after == *final(hub),
        call_ensures(SourceHub::<C>::audio, (after, packet.frames), audio),
        call_ensures(SourceHub::<C>::has_number, (after,), more),
    ensures
        r is Some <==> packet.spec.rate == 48_000 && packet.spec.speakers is Stereo
            && packet.spec.format is FloatPlanar && packet.planes@.len() >= 2
            && packet.planes@[0]@.len() >= packet.frames * 4 && packet.planes@[1]@.len()
            >= packet.frames * 4,
        r matches Some(n) ==> n == packet.frames && ((audio.planes@[0]@ == samples_in(
            ByteOrder::Little,
            packet.planes@[0]@,
        ).take(n as int) && audio.planes@[1]@ == samples_in(
            ByteOrder::Little,
            packet.planes@[1]@,
        ).take(n as int)) || (audio.planes@[0]@ == samples_in(
            ByteOrder::Big,
            packet.planes@[0]@,
        ).take(n as int) && audio.planes@[1]@ == samples_in(
            ByteOrder::Big,
            packet.planes@[1]@,
        ).take(n as int))),
        r is Some ==> tells_level(
            old(hub).level(),
            audio.planes@[0]@,
            audio.planes@[1]@,
            final(hub).level(),
        ),
        r is None ==> final(hub).level() == old(hub).level(),
        final(hub).registered() == old(hub).registered(),
        more <==> final(hub).upcoming() < u64::MAX,
{
    if let Some(n) = r {
        let order = choose|order: ByteOrder|
            #[trigger] old(hub).conversion().takes(order, packet, &final(hub).conversion());
        let before = old(hub).conversion().storage;
        lemma_copied(before.0@, samples_in(order, packet.planes@[0]@).take(n as int));
        lemma_copied(before.1@, samples_in(order, packet.planes@[1]@).take(n as int));
        lemma_tells_level(*final(hub), old(hub).level(), n as int);
        assert(order is Little || order is Big);
    }
}

} // verus!
