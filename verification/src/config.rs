//! What the user chose: the source and, per output, whether it is on, its
//! volume and its mute state. Everything else is decided by the app.

use crate::audio::OutputSpec;
use crate::devices::DESKTOP;
use crate::engine::EngineConfig;
use crate::float;
use crate::text::same;
use vstd::prelude::*;

verus! {

/// Queue latency. Safe on every backend while staying well under lip-sync
/// tolerance for a live stream.
pub const LATENCY_MS: u32 = 40;

/// The file in which the settings are kept.
pub const CONFIG_FILE: &'static str = "config.json";

#[derive(Debug, PartialEq, Eq)]
pub struct OutputConfig {
    pub id: String,
    /// Last known name, to show an unplugged device.
    pub name: String,
    pub enabled: bool,
    /// Slider position from 0 to 1, as a pattern.
    pub fader: u32,
    pub muted: bool,
}

/// What an [`OutputConfig`] holds.
pub ghost struct OutputView {
    pub id: Seq<char>,
    pub name: Seq<char>,
    pub enabled: bool,
    pub fader: u32,
    pub muted: bool,
}

impl View for OutputConfig {
    type V = OutputView;

    open spec fn view(&self) -> OutputView {
        OutputView {
            id: self.id@,
            name: self.name@,
            enabled: self.enabled,
            fader: self.fader,
            muted: self.muted,
        }
    }
}

/// An output that was never touched: off, at full volume.
pub open spec fn untouched(id: Seq<char>) -> OutputView {
    OutputView { id, name: ""@, enabled: false, fader: float::ONE, muted: false }
}

impl Default for OutputConfig {
    fn default() -> (r: Self)
        ensures
            r@ == untouched(""@),
    {
        OutputConfig {
            id: "".to_owned(),
            name: "".to_owned(),
            enabled: false,
            fader: float::ONE,
            muted: false,
        }
    }
}

#[derive(Debug, PartialEq, Eq)]
pub struct AppConfig {
    pub source: String,
    pub outputs: Vec<OutputConfig>,
    /// Set once the first launch has enabled start at login.
    pub onboarded: bool,
}

/// What an [`AppConfig`] holds.
#[verifier::ext_equal]
pub ghost struct ConfigView {
    pub source: Seq<char>,
    pub outputs: Seq<OutputView>,
    pub onboarded: bool,
}

impl View for AppConfig {
    type V = ConfigView;

    open spec fn view(&self) -> ConfigView {
        ConfigView {
            source: self.source@,
            outputs: self.outputs@.map_values(|o: OutputConfig| o@),
            onboarded: self.onboarded,
        }
    }
}

impl Default for AppConfig {
    fn default() -> (r: Self)
        ensures
            r@ == (ConfigView { source: DESKTOP@, outputs: seq![], onboarded: false }),
    {
        AppConfig { source: DESKTOP.to_owned(), outputs: Vec::new(), onboarded: false }
    }
}

/// The outputs that have an id, each with its slider kept between 0 and 1.
pub open spec fn sane_outputs(outputs: Seq<OutputView>) -> Seq<OutputView>
    decreases outputs.len(),
{
    if outputs.len() == 0 {
        seq![]
    } else {
        let front = sane_outputs(outputs.drop_last());
        let last = outputs.last();
        if last.id.len() == 0 {
            front
        } else {
            front.push(OutputView { fader: float::unit_of(last.fader), ..last })
        }
    }
}

/// Where the output of that id stands: the first one, or past the end.
pub open spec fn place_of(outputs: Seq<OutputView>, id: Seq<char>) -> int
    decreases outputs.len(),
{
    if outputs.len() == 0 {
        0
    } else {
        let before = place_of(outputs.drop_last(), id);
        if before < outputs.len() - 1 || outputs.last().id == id {
            before
        } else {
            outputs.len() as int
        }
    }
}

/// The outputs but those of that id.
pub open spec fn without(outputs: Seq<OutputView>, id: Seq<char>) -> Seq<OutputView>
    decreases outputs.len(),
{
    if outputs.len() == 0 {
        seq![]
    } else if outputs.last().id == id {
        without(outputs.drop_last(), id)
    } else {
        without(outputs.drop_last(), id).push(outputs.last())
    }
}

/// How many outputs are on.
pub open spec fn count_enabled(outputs: Seq<OutputView>) -> nat
    decreases outputs.len(),
{
    if outputs.len() == 0 {
        0
    } else {
        count_enabled(outputs.drop_last()) + if outputs.last().enabled {
            1nat
        } else {
            0
        }
    }
}

/// Whether `specs` are the outputs that are on, in order, each with its gain.
pub open spec fn are_enabled(
    specs: Seq<OutputSpec>,
    outputs: Seq<OutputView>,
    gains: Seq<u32>,
) -> bool
    decreases outputs.len(),
{
    if outputs.len() == 0 {
        specs.len() == 0
    } else if outputs.last().enabled {
        &&& specs.len() > 0
        &&& specs.last().id@ == outputs.last().id
        &&& specs.last().gain == gains[outputs.len() - 1]
        &&& specs.last().muted == outputs.last().muted
        &&& are_enabled(specs.drop_last(), outputs.drop_last(), gains)
    } else {
        are_enabled(specs, outputs.drop_last(), gains)
    }
}

impl OutputView {
    /// It has an id, and its slider is a number between 0 and 1.
    pub open spec fn in_order(self) -> bool {
        &&& self.id.len() > 0
        &&& float::is_finite(self.fader)
        &&& 0 <= float::place(self.fader) <= float::place(float::ONE)
    }
}

impl ConfigView {
    /// There is a source, and every output is in order.
    pub open spec fn in_order(self) -> bool {
        &&& self.source.len() > 0
        &&& forall|i: int| 0 <= i < self.outputs.len() ==> (#[trigger] self.outputs[i]).in_order()
    }

    /// The settings that what was stored leads to, none where nothing could
    /// be read.
    pub open spec fn loaded(stored: Option<ConfigView>) -> ConfigView {
        match stored {
            Some(cfg) => cfg.sane(),
            None => ConfigView { source: DESKTOP@, outputs: seq![], onboarded: false },
        }
    }

    /// Settings as they may be used: there is a source, and every output has
    /// an id and a slider between 0 and 1.
    pub open spec fn sane(self) -> ConfigView {
        ConfigView {
            source: if self.source.len() == 0 {
                DESKTOP@
            } else {
                self.source
            },
            outputs: sane_outputs(self.outputs),
            ..self
        }
    }

    /// The settings of an output: its own, or those of one never touched. A
    /// name that is known replaces the last one.
    pub open spec fn entry(self, id: Seq<char>, name: Seq<char>) -> OutputView {
        let i = place_of(self.outputs, id);
        let found = if i < self.outputs.len() {
            self.outputs[i]
        } else {
            untouched(id)
        };
        OutputView {
            name: if name.len() == 0 {
                found.name
            } else {
                name
            },
            ..found
        }
    }

    /// The settings with those of one output replaced, or added at the end.
    pub open spec fn with_entry(self, id: Seq<char>, o: OutputView) -> ConfigView {
        let i = place_of(self.outputs, id);
        ConfigView {
            outputs: if i < self.outputs.len() {
                self.outputs.update(i, o)
            } else {
                self.outputs.push(o)
            },
            ..self
        }
    }

    /// No output is listed twice.
    pub open spec fn ids_are_distinct(self) -> bool {
        forall|i: int, j: int|
            0 <= i < j < self.outputs.len() ==> (#[trigger] self.outputs[i]).id != (
            #[trigger] self.outputs[j]).id
    }
}

impl AppConfig {
    /// Takes the settings that were read from disk; where they could not be,
    /// all is as on a first launch.
    pub fn load(stored: Option<AppConfig>) -> (r: Self)
        ensures
            r@ == ConfigView::loaded(
                match stored {
                    Some(cfg) => Some(cfg@),
                    None => None,
                },
            ),
    {
        match stored {
            Some(cfg) => cfg.sanitize(),
            None => AppConfig::default(),
        }
    }

    /// Mends settings that were read from disk.
    pub fn sanitize(self) -> (r: Self)
        ensures
            r@ == self@.sane(),
    {
        let ghost given = self@;
        let AppConfig { source, outputs: listed, onboarded } = self;
        let mut source = source;
        if source.as_str().is_empty() {
            source = DESKTOP.to_owned();
        }
        let ghost all = listed@;
        let ghost views = all.map_values(|o: OutputConfig| o@);
        let mut outputs: Vec<OutputConfig> = Vec::new();
        let mut i: usize = 0;
        while i < listed.len()
            invariant
                listed@ == all,
                views == all.map_values(|o: OutputConfig| o@),
                i <= all.len(),
                outputs@.map_values(|o: OutputConfig| o@) == sane_outputs(views.take(i as int)),
            decreases listed@.len() - i,
        {
            assert(views.take(i + 1).drop_last() =~= views.take(i as int));
            let ghost before = outputs@;
            let o = &listed[i];
            if !o.id.as_str().is_empty() {
                let kept = OutputConfig {
                    id: o.id.clone(),
                    name: o.name.clone(),
                    enabled: o.enabled,
                    fader: float::unit(o.fader),
                    muted: o.muted,
                };
                outputs.push(kept);
                assert(outputs@.map_values(|o: OutputConfig| o@) =~= before.map_values(
                    |o: OutputConfig| o@,
                ).push(kept@));
            }
            i += 1;
        }
        assert(views.take(i as int) =~= views);
        assert(given.outputs == views);
        AppConfig { source, outputs, onboarded }
    }

    /// Where the output of that id stands.
    fn position(&self, id: &str) -> (r: usize)
        ensures
            r == place_of(self@.outputs, id@),
            r <= self@.outputs.len(),
            r < self@.outputs.len() ==> self@.outputs[r as int].id == id@,
    {
        let ghost views = self@.outputs;
        let mut i: usize = 0;
        while i < self.outputs.len()
            invariant
                views == self@.outputs,
                i <= self.outputs@.len(),
                place_of(views.take(i as int), id@) == i,
            decreases self.outputs@.len() - i,
        {
            assert(views.take(i + 1).drop_last() =~= views.take(i as int));
            if same(self.outputs[i].id.as_str(), id) {
                proof {
                    lemma_place_stays(views, id@, i as int);
                }
                return i;
            }
            i += 1;
        }
        assert(views.take(i as int) =~= views);
        i
    }

    /// The settings of an output, which are added where there are none yet.
    pub fn output_mut(&mut self, id: &str, name: &str) -> (o: &mut OutputConfig)
        ensures
            o@ == old(self)@.entry(id@, name@),
            final(self)@ == old(self)@.with_entry(id@, final(o)@),
    {
        let ghost before = self@;
        let i: usize = self.position(id);
        if i == self.outputs.len() {
            self.outputs.push(
                OutputConfig {
                    id: id.to_owned(),
                    name: "".to_owned(),
                    enabled: false,
                    fader: float::ONE,
                    muted: false,
                },
            );
        }
        if !name.is_empty() {
            self.outputs[i].name = name.to_owned();
        }
        &mut self.outputs[i]
    }

    /// How many outputs are on.
    pub fn enabled_count(&self) -> (n: usize)
        ensures
            n == count_enabled(self@.outputs),
    {
        let ghost views = self@.outputs;
        let mut n: usize = 0;
        let mut i: usize = 0;
        while i < self.outputs.len()
            invariant
                views == self@.outputs,
                n <= i <= self.outputs@.len(),
                n == count_enabled(views.take(i as int)),
            decreases self.outputs@.len() - i,
        {
            assert(views.take(i + 1).drop_last() =~= views.take(i as int));
            if self.outputs[i].enabled {
                n += 1;
            }
            i += 1;
        }
        assert(views.take(i as int) =~= views);
        n
    }

    /// What the engine is asked for: the source and the outputs that are on.
    /// `gains` holds the linear gain of each output's slider.
    pub fn engine_config(&self, gains: &Vec<u32>) -> (cfg: EngineConfig)
        requires
            gains@.len() == self.outputs@.len(),
        ensures
            cfg.source == self.source,
            cfg.latency_ms == LATENCY_MS,
            are_enabled(cfg.outputs@, self@.outputs, gains@),
    {
        let ghost views = self@.outputs;
        let mut outputs: Vec<OutputSpec> = Vec::new();
        let mut i: usize = 0;
        while i < self.outputs.len()
            invariant
                views == self@.outputs,
                gains@.len() == self.outputs@.len(),
                i <= self.outputs@.len(),
                are_enabled(outputs@, views.take(i as int), gains@),
            decreases self.outputs@.len() - i,
        {
            assert(views.take(i + 1).drop_last() =~= views.take(i as int));
            let ghost before = outputs@;
            let o = &self.outputs[i];
            if o.enabled {
                outputs.push(OutputSpec { id: o.id.clone(), gain: gains[i], muted: o.muted });
                assert(outputs@.drop_last() =~= before);
            }
            i += 1;
        }
        assert(views.take(i as int) =~= views);
        EngineConfig { source: self.source.clone(), latency_ms: LATENCY_MS, outputs }
    }

    /// Chooses the source.
    pub fn set_source(&mut self, id: String)
        ensures
            final(self)@ == (ConfigView { source: id@, ..old(self)@ }),
    {
        self.source = id;
    }

    /// Switches an output on or off.
    pub fn set_output_enabled(&mut self, id: &str, name: &str, enabled: bool)
        ensures
            final(self)@ == old(self)@.with_entry(
                id@,
                OutputView { enabled, ..old(self)@.entry(id@, name@) },
            ),
    {
        let o = self.output_mut(id, name);
        o.enabled = enabled;
    }

    /// Moves an output's slider, and returns where it stands.
    pub fn set_output_volume(&mut self, id: &str, name: &str, fader: u32) -> (r: u32)
        ensures
            r == float::unit_of(fader),
            final(self)@ == old(self)@.with_entry(
                id@,
                OutputView { fader: float::unit_of(fader), ..old(self)@.entry(id@, name@) },
            ),
    {
        let kept: u32 = float::unit(fader);
        let o = self.output_mut(id, name);
        o.fader = kept;
        kept
    }

    /// Mutes an output, or not.
    pub fn set_output_muted(&mut self, id: &str, name: &str, muted: bool)
        ensures
            final(self)@ == old(self)@.with_entry(
                id@,
                OutputView { muted, ..old(self)@.entry(id@, name@) },
            ),
    {
        let o = self.output_mut(id, name);
        o.muted = muted;
    }

    /// Forgets an output.
    pub fn forget_output(&mut self, id: &str)
        ensures
            final(self)@ == (ConfigView {
                outputs: without(old(self)@.outputs, id@),
                ..old(self)@
            }),
    {
        let ghost views = self@.outputs;
        let mut outputs: Vec<OutputConfig> = Vec::new();
        let mut i: usize = 0;
        while i < self.outputs.len()
            invariant
                *self == *old(self),
                views == self@.outputs,
                i <= self.outputs@.len(),
                outputs@.map_values(|o: OutputConfig| o@) == without(views.take(i as int), id@),
            decreases self.outputs@.len() - i,
        {
            assert(views.take(i + 1).drop_last() =~= views.take(i as int));
            let ghost before = outputs@;
            let o = &self.outputs[i];
            if !same(o.id.as_str(), id) {
                let kept = OutputConfig {
                    id: o.id.clone(),
                    name: o.name.clone(),
                    enabled: o.enabled,
                    fader: o.fader,
                    muted: o.muted,
                };
                outputs.push(kept);
                assert(outputs@.map_values(|o: OutputConfig| o@) =~= before.map_values(
                    |o: OutputConfig| o@,
                ).push(kept@));
            }
            i += 1;
        }
        assert(views.take(i as int) =~= views);
        self.outputs = outputs;
    }
}

/// The place of an output is the same in a list that goes on behind it.
proof fn lemma_place_stays(outputs: Seq<OutputView>, id: Seq<char>, i: int)
    requires
        0 <= i < outputs.len(),
        place_of(outputs.take(i), id) == i,
        outputs[i].id == id,
    ensures
        place_of(outputs, id) == i,
    decreases outputs.len(),
{
    if i == outputs.len() - 1 {
        assert(outputs.drop_last() =~= outputs.take(i));
    } else {
        let front = outputs.drop_last();
        assert(front.take(i) =~= outputs.take(i));
        lemma_place_stays(front, id, i);
    }
}

/// Where an output stands, none of that id stands before it, and past the end
/// there is none at all.
proof fn lemma_place(outputs: Seq<OutputView>, id: Seq<char>)
    ensures
        0 <= place_of(outputs, id) <= outputs.len(),
        forall|i: int|
            0 <= i < place_of(outputs, id) ==> (#[trigger] outputs[i]).id != id,
        place_of(outputs, id) < outputs.len() ==> outputs[place_of(outputs, id)].id == id,
    decreases outputs.len(),
{
    if outputs.len() > 0 {
        let front = outputs.drop_last();
        lemma_place(front, id);
        assert forall|i: int| 0 <= i < place_of(outputs, id) implies (#[trigger] outputs[i]).id
            != id by {
            if i < front.len() {
                assert(front[i] == outputs[i]);
            }
        }
    }
}

/// Settings that are in order are read as they were stored, and settings that
/// were mended are in order: mending twice is mending once.
pub proof fn law_sane_settings_stay(cfg: ConfigView)
    ensures
        cfg.in_order() ==> cfg.sane() == cfg && ConfigView::loaded(Some(cfg)) == cfg,
        cfg.sane().in_order(),
        cfg.sane().sane() == cfg.sane(),
{
    reveal_strlit("desktop");
    lemma_sane_outputs(cfg.outputs);
    if cfg.in_order() {
        lemma_in_order(cfg.outputs);
    }
    lemma_mended(cfg.outputs);
}

/// Outputs that are in order stay as they are.
proof fn lemma_in_order(outputs: Seq<OutputView>)
    requires
        forall|i: int| 0 <= i < outputs.len() ==> (#[trigger] outputs[i]).in_order(),
    ensures
        sane_outputs(outputs) == outputs,
    decreases outputs.len(),
{
    if outputs.len() > 0 {
        let front = outputs.drop_last();
        assert forall|i: int| 0 <= i < front.len() implies (#[trigger] front[i]).in_order() by {
            assert(outputs[i].in_order());
        }
        lemma_in_order(front);
        assert(outputs[outputs.len() - 1].in_order());
        assert(front.push(outputs.last()) =~= outputs);
    }
}

/// Mended outputs are in order.
proof fn lemma_mended(outputs: Seq<OutputView>)
    ensures
        forall|i: int|
            0 <= i < sane_outputs(outputs).len() ==> (#[trigger] sane_outputs(
                outputs,
            )[i]).in_order(),
    decreases outputs.len(),
{
    if outputs.len() > 0 {
        let front = sane_outputs(outputs.drop_last());
        let all = sane_outputs(outputs);
        lemma_mended(outputs.drop_last());
        float::law_unit_is_stable(outputs.last().fader);
        assert forall|i: int| 0 <= i < all.len() implies (#[trigger] all[i]).in_order() by {
            if i < front.len() {
                assert(all[i] == front[i]);
            }
        }
    }
}

proof fn lemma_sane_outputs(outputs: Seq<OutputView>)
    ensures
        sane_outputs(sane_outputs(outputs)) == sane_outputs(outputs),
    decreases outputs.len(),
{
    if outputs.len() > 0 {
        lemma_sane_outputs(outputs.drop_last());
        let front = sane_outputs(outputs.drop_last());
        if outputs.last().id.len() > 0 {
            let mended = OutputView {
                fader: float::unit_of(outputs.last().fader),
                ..outputs.last()
            };
            assert(front.push(mended).drop_last() =~= front);
            float::law_unit_is_stable(outputs.last().fader);
        }
    }
}

/// The engine gets one output for each that is on.
pub proof fn law_the_engine_gets_what_is_on(
    specs: Seq<OutputSpec>,
    outputs: Seq<OutputView>,
    gains: Seq<u32>,
)
    requires
        are_enabled(specs, outputs, gains),
    ensures
        specs.len() == count_enabled(outputs),
    decreases outputs.len(),
{
    if outputs.len() > 0 {
        if outputs.last().enabled {
            law_the_engine_gets_what_is_on(specs.drop_last(), outputs.drop_last(), gains);
        } else {
            law_the_engine_gets_what_is_on(specs, outputs.drop_last(), gains);
        }
    }
}

/// Changing an output lists it once, leaves every other one as it was, and is
/// found again under its id.
pub proof fn law_a_change_touches_one_output(
    cfg: ConfigView,
    id: Seq<char>,
    name: Seq<char>,
    o: OutputView,
)
    requires
        cfg.ids_are_distinct(),
        o.id == cfg.entry(id, name).id,
    ensures
        ({
            let changed = cfg.with_entry(id, o);
            &&& changed.ids_are_distinct()
            &&& changed.entry(id, ""@) == o
            &&& forall|other: Seq<char>|
                other != id ==> #[trigger] changed.entry(other, ""@) == cfg.entry(other, ""@)
        }),
{
    reveal_strlit("");
    let changed = cfg.with_entry(id, o);
    lemma_place(cfg.outputs, id);
    let i = place_of(cfg.outputs, id);
    assert(o.id == id);
    lemma_place(changed.outputs, id);
    assert(changed.outputs[i] == o);
    let p = place_of(changed.outputs, id);
    assert(p == i) by {
        if p < i {
            assert(changed.outputs[p] == cfg.outputs[p]);
        }
    }
    assert forall|other: Seq<char>| other != id implies #[trigger] changed.entry(other, ""@)
        == cfg.entry(other, ""@) by {
        lemma_place(cfg.outputs, other);
        lemma_place(changed.outputs, other);
        let a = place_of(cfg.outputs, other);
        let b = place_of(changed.outputs, other);
        if a < cfg.outputs.len() {
            assert(changed.outputs[a] == cfg.outputs[a]);
            if b < a {
                assert(changed.outputs[b] == cfg.outputs[b]);
            }
        } else if b < changed.outputs.len() {
            assert(changed.outputs[b] == cfg.outputs[b]);
        }
    }
}

/// A forgotten output is gone, and every other one is still there.
pub proof fn law_a_forgotten_output_is_gone(outputs: Seq<OutputView>, id: Seq<char>)
    ensures
        forall|i: int|
            0 <= i < without(outputs, id).len() ==> (#[trigger] without(outputs, id)[i]).id != id,
        forall|o: OutputView|
            o.id != id ==> (#[trigger] without(outputs, id).contains(o) <==> outputs.contains(o)),
    decreases outputs.len(),
{
    if outputs.len() > 0 {
        let front = outputs.drop_last();
        law_a_forgotten_output_is_gone(front, id);
        assert(outputs =~= front.push(outputs.last()));
        assert forall|i: int| 0 <= i < without(outputs, id).len() implies (
        #[trigger] without(outputs, id)[i]).id != id by {
            if i < without(front, id).len() {
                assert(without(outputs, id)[i] == without(front, id)[i]);
            }
        }
        assert forall|o: OutputView| o.id != id implies (#[trigger] without(outputs, id).contains(o)
            <==> outputs.contains(o)) by {
            lemma_contains_push(front, outputs.last(), o);
            lemma_contains_push(without(front, id), outputs.last(), o);
        }
    }
}

proof fn lemma_contains_push(s: Seq<OutputView>, last: OutputView, o: OutputView)
    ensures
        s.push(last).contains(o) <==> s.contains(o) || o == last,
{
    if s.contains(o) {
        let i = choose|i: int| 0 <= i < s.len() && s[i] == o;
        assert(s.push(last)[i] == o);
    }
    if o == last {
        assert(s.push(last)[s.len() as int] == o);
    }
    if s.push(last).contains(o) {
        let i = choose|i: int| 0 <= i < s.push(last).len() && s.push(last)[i] == o;
        if i < s.len() {
            assert(s[i] == o);
        }
    }
}

/// Whether an output of the engine is an output of the settings: of the same
/// id, with the gain of its slider, and muted where it is.
pub open spec fn carries(spec: OutputSpec, o: OutputConfig, gain: u32) -> bool {
    &&& spec.id@ == o.id@
    &&& spec.gain == gain
    &&& spec.muted == o.muted
}

/// The engine gets the chosen source and exactly the outputs that are on: each
/// one with its own id, gain and mute, in the order of the settings, and no
/// other.
pub proof fn law_the_engine_gets_each_output_as_it_is_set(
    cfg: &AppConfig,
    gains: &Vec<u32>,
    engine: EngineConfig,
)
    requires
        gains@.len() == cfg.outputs@.len(),
        call_ensures(AppConfig::engine_config, (cfg, gains), engine),
    ensures
        engine.source@ == cfg.source@,
        0 < engine.latency_ms <= 100,
        forall|i: int|
            0 <= i < cfg.outputs@.len() && (#[trigger] cfg.outputs@[i]).enabled ==> exists|k: int|
                0 <= k < engine.outputs@.len() && carries(
                    #[trigger] engine.outputs@[k],
                    cfg.outputs@[i],
                    gains@[i],
                ),
        exists|from: Seq<int>|
            {
                &&& #[trigger] from.len() == engine.outputs@.len()
                &&& forall|k: int|
                    0 <= k < from.len() ==> 0 <= #[trigger] from[k] < cfg.outputs@.len()
                        && cfg.outputs@[from[k]].enabled && carries(
                        engine.outputs@[k],
                        cfg.outputs@[from[k]],
                        gains@[from[k]],
                    )
                &&& forall|j: int, k: int|
                    0 <= j < k < from.len() ==> #[trigger] from[j] < #[trigger] from[k]
            },
        engine.outputs@.len() == cfg.outputs@.filter(|o: OutputConfig| o.enabled).len(),
{
    lemma_enabled(engine.outputs@, cfg.outputs@, gains@);
    let from = enabled_places(cfg.outputs@);
    lemma_enabled_places(engine.outputs@, cfg.outputs@, gains@);
    assert(from.len() == engine.outputs@.len());
}

spec fn views(outputs: Seq<OutputConfig>) -> Seq<OutputView> {
    outputs.map_values(|o: OutputConfig| o@)
}

/// The places of the outputs that are on.
spec fn enabled_places(outputs: Seq<OutputConfig>) -> Seq<int>
    decreases outputs.len(),
{
    if outputs.len() == 0 {
        seq![]
    } else if outputs.last().enabled {
        enabled_places(outputs.drop_last()).push(outputs.len() - 1)
    } else {
        enabled_places(outputs.drop_last())
    }
}

proof fn lemma_enabled_places(
    specs: Seq<OutputSpec>,
    outputs: Seq<OutputConfig>,
    gains: Seq<u32>,
)
    requires
        are_enabled(specs, views(outputs), gains),
    ensures
        ({
            let from = enabled_places(outputs);
            &&& from.len() == specs.len()
            &&& forall|k: int|
                0 <= k < from.len() ==> 0 <= #[trigger] from[k] < outputs.len()
                    && outputs[from[k]].enabled && carries(
                    specs[k],
                    outputs[from[k]],
                    gains[from[k]],
                )
            &&& forall|j: int, k: int|
                0 <= j < k < from.len() ==> #[trigger] from[j] < #[trigger] from[k]
        }),
        specs.len() == outputs.filter(|o: OutputConfig| o.enabled).len(),
    decreases outputs.len(),
{
    let test = |o: OutputConfig| o.enabled;
    reveal(Seq::filter);
    if outputs.len() > 0 {
        let front = outputs.drop_last();
        assert(views(outputs).drop_last() =~= views(front));
        assert(views(outputs).last() == outputs.last()@);
        let rest = if outputs.last().enabled {
            specs.drop_last()
        } else {
            specs
        };
        lemma_enabled_places(rest, front, gains);
        let before = enabled_places(front);
        let from = enabled_places(outputs);
        assert forall|k: int| 0 <= k < from.len() implies 0 <= #[trigger] from[k] < outputs.len()
            && outputs[from[k]].enabled && carries(
            specs[k],
            outputs[from[k]],
            gains[from[k]],
        ) by {
            if k < before.len() {
                assert(from[k] == before[k]);
                assert(front[before[k]] == outputs[before[k]]);
                assert(rest[k] == specs[k]);
            }
        }
        assert forall|j: int, k: int| 0 <= j < k < from.len() implies #[trigger] from[j]
            < #[trigger] from[k] by {
            assert(from[j] == before[j]);
            assert(0 <= before[j] < front.len());
            if k < before.len() {
                assert(from[k] == before[k]);
            }
        }
    }
}

proof fn lemma_enabled(specs: Seq<OutputSpec>, outputs: Seq<OutputConfig>, gains: Seq<u32>)
    requires
        are_enabled(specs, views(outputs), gains),
    ensures
        forall|i: int|
            0 <= i < outputs.len() && (#[trigger] outputs[i]).enabled ==> exists|k: int|
                0 <= k < specs.len() && carries(#[trigger] specs[k], outputs[i], gains[i]),
    decreases outputs.len(),
{
    if outputs.len() > 0 {
        let front = outputs.drop_last();
        assert(views(outputs).drop_last() =~= views(front));
        assert(views(outputs).last() == outputs.last()@);
        let rest = if outputs.last().enabled {
            specs.drop_last()
        } else {
            specs
        };
        lemma_enabled(rest, front, gains);
        assert forall|i: int| 0 <= i < outputs.len() && (#[trigger] outputs[i]).enabled implies
            exists|k: int|
            0 <= k < specs.len() && carries(#[trigger] specs[k], outputs[i], gains[i]) by {
            if i < front.len() {
                assert(front[i] == outputs[i]);
                let k = choose|k: int|
                    0 <= k < rest.len() && carries(#[trigger] rest[k], front[i], gains[i]);
                assert(specs[k] == rest[k]);
            } else {
                assert(carries(specs[specs.len() - 1], outputs[i], gains[i]));
            }
        }
    }
}

/// Whether `after` is `before` but for the output of that id, which there is
/// one of now at `i`: where it stood before, or new at the end.
pub open spec fn differs_at(before: ConfigView, after: ConfigView, id: Seq<char>, i: int) -> bool {
    &&& after.source == before.source
    &&& after.onboarded == before.onboarded
    &&& 0 <= i < after.outputs.len()
    &&& after.outputs[i].id == id
    &&& after.outputs.len() == before.outputs.len() || (i == before.outputs.len()
        && after.outputs.len() == i + 1)
    &&& forall|k: int|
        0 <= k < before.outputs.len() && k != i ==> after.outputs[k] == #[trigger] before.outputs[k]
    &&& i < before.outputs.len() ==> before.outputs[i].id == id
    &&& i == before.outputs.len() ==> forall|k: int|
        0 <= k < before.outputs.len() ==> (#[trigger] before.outputs[k]).id != id
}

/// A setting is kept as it was made and touches nothing else: not the other
/// settings of the output, nor any other output, nor the source. An output that
/// was never touched starts out off, unmuted and at full volume.
pub proof fn law_a_setting_is_kept(
    on: &mut AppConfig,
    muting: &mut AppConfig,
    moving: &mut AppConfig,
    id: &str,
    name: &str,
    enabled: bool,
    muted: bool,
    fader: u32,
    stands: u32,
)
    requires
        call_ensures(AppConfig::set_output_enabled, (on, id, name, enabled), ()),
        call_ensures(AppConfig::set_output_muted, (muting, id, name, muted), ()),
        call_ensures(AppConfig::set_output_volume, (moving, id, name, fader), stands),
    ensures
        exists|i: int|
            {
                &&& #[trigger] differs_at(old(on)@, final(on)@, id@, i)
                &&& final(on)@.outputs[i].enabled == enabled
                &&& i < old(on)@.outputs.len()
                    ==> final(on)@.outputs[i].muted == old(on)@.outputs[i].muted
                    && final(on)@.outputs[i].fader == old(on)@.outputs[i].fader
                &&& i == old(on)@.outputs.len()
                    ==> !final(on)@.outputs[i].muted && final(on)@.outputs[i].fader
                    == float::ONE
                &&& name@.len() > 0 ==> final(on)@.outputs[i].name == name@
                &&& name@.len() == 0 && i < old(on)@.outputs.len() ==> final(on)@.outputs[i].name
                    == old(on)@.outputs[i].name
            },
        exists|i: int|
            {
                &&& #[trigger] differs_at(old(muting)@, final(muting)@, id@, i)
                &&& final(muting)@.outputs[i].muted == muted
                &&& i < old(muting)@.outputs.len()
                    ==> final(muting)@.outputs[i].enabled == old(muting)@.outputs[i].enabled
                    && final(muting)@.outputs[i].fader == old(muting)@.outputs[i].fader
                &&& i == old(muting)@.outputs.len()
                    ==> !final(muting)@.outputs[i].enabled && final(muting)@.outputs[i].fader
                    == float::ONE
                &&& name@.len() > 0 ==> final(muting)@.outputs[i].name == name@
                &&& name@.len() == 0 && i < old(muting)@.outputs.len() ==> final(muting)@.outputs[i].name
                    == old(muting)@.outputs[i].name
            },
        exists|i: int|
            {
                &&& #[trigger] differs_at(old(moving)@, final(moving)@, id@, i)
                &&& final(moving)@.outputs[i].fader == stands
                &&& i < old(moving)@.outputs.len()
                    ==> final(moving)@.outputs[i].enabled == old(moving)@.outputs[i].enabled
                    && final(moving)@.outputs[i].muted == old(moving)@.outputs[i].muted
                &&& i == old(moving)@.outputs.len()
                    ==> !final(moving)@.outputs[i].enabled && !final(moving)@.outputs[i].muted
                &&& name@.len() > 0 ==> final(moving)@.outputs[i].name == name@
                &&& name@.len() == 0 && i < old(moving)@.outputs.len() ==> final(moving)@.outputs[i].name
                    == old(moving)@.outputs[i].name
            },
        float::is_finite(stands),
        0 <= float::place(stands) <= float::place(float::ONE),
        float::is_finite(fader) && 0 <= float::place(fader) <= float::place(float::ONE) ==> stands
            == fader,
        float::is_finite(fader) && float::place(fader) < 0 ==> stands == float::ZERO,
        float::is_finite(fader) && float::place(fader) > float::place(float::ONE) ==> stands
            == float::ONE,
{
    float::law_unit_is_stable(fader);
    lemma_place(old(on)@.outputs, id@);
    lemma_place(old(muting)@.outputs, id@);
    lemma_place(old(moving)@.outputs, id@);
    let i = place_of(old(on)@.outputs, id@);
    assert(differs_at(old(on)@, final(on)@, id@, i));
    let j = place_of(old(muting)@.outputs, id@);
    assert(differs_at(old(muting)@, final(muting)@, id@, j));
    let k = place_of(old(moving)@.outputs, id@);
    assert(differs_at(old(moving)@, final(moving)@, id@, k));
}

/// A mute that is set reaches the engine: after it, the engine's output of that
/// id is muted where the output is on, and one that was let be heard is not.
pub proof fn law_a_mute_reaches_the_engine(
    cfg: &mut AppConfig,
    id: &str,
    name: &str,
    muted: bool,
    after: &AppConfig,
    gains: &Vec<u32>,
    engine: EngineConfig,
)
    requires
        old(cfg)@.ids_are_distinct(),
        call_ensures(AppConfig::set_output_muted, (cfg, id, name, muted), ()),
        *after == *final(cfg),
        gains@.len() == after.outputs@.len(),
        call_ensures(AppConfig::engine_config, (after, gains), engine),
    ensures
        forall|k: int|
            0 <= k < engine.outputs@.len() && (#[trigger] engine.outputs@[k]).id@ == id@
                ==> engine.outputs@[k].muted == muted,
        (exists|i: int|
            0 <= i < old(cfg).outputs@.len() && (#[trigger] old(cfg).outputs@[i]).id@ == id@
                && old(cfg).outputs@[i].enabled) ==> exists|k: int|
            0 <= k < engine.outputs@.len() && (#[trigger] engine.outputs@[k]).id@ == id@
                && engine.outputs@[k].muted == muted,
{
    let b = old(cfg)@;
    let a = final(cfg)@;
    lemma_place(b.outputs, id@);
    let p = place_of(b.outputs, id@);
    assert(differs_at(b, a, id@, p));
    lemma_enabled(engine.outputs@, after.outputs@, gains@);
    lemma_enabled_places(engine.outputs@, after.outputs@, gains@);
    assert(after@.outputs =~= views(after.outputs@));
    assert forall|i: int| 0 <= i < after.outputs@.len() && (#[trigger] after.outputs@[i]).id@
        == id@ implies after.outputs@[i].muted == muted by {
        assert(a.outputs[i] == after.outputs@[i]@);
        if i != p {
            assert(a.outputs[i] == b.outputs[i]);
            if p < b.outputs.len() {
                assert(b.outputs[i].id != b.outputs[p].id);
            }
        } else {
            assert(a.outputs[p].muted == muted);
        }
    }
    let from = enabled_places(after.outputs@);
    assert forall|k: int| 0 <= k < engine.outputs@.len() && (#[trigger] engine.outputs@[k]).id@
        == id@ implies engine.outputs@[k].muted == muted by {
        assert(0 <= from[k] < after.outputs@.len());
        assert(after.outputs@[from[k]].id@ == id@);
    }
    if exists|i: int|
        0 <= i < old(cfg).outputs@.len() && (#[trigger] old(cfg).outputs@[i]).id@ == id@ && old(
            cfg,
        ).outputs@[i].enabled {
        let i = choose|i: int|
            0 <= i < old(cfg).outputs@.len() && (#[trigger] old(cfg).outputs@[i]).id@ == id@
                && old(cfg).outputs@[i].enabled;
        assert(b.outputs[i] == old(cfg).outputs@[i]@);
        assert(p < b.outputs.len());
        assert(p == i) by {
            if p < i {
                assert(b.outputs[p].id != b.outputs[i].id);
            }
        }
        assert(a.outputs[p].enabled);
        assert(a.outputs[p] == after.outputs@[p]@);
        assert(after.outputs@[p].enabled);
        let k = choose|k: int|
            0 <= k < engine.outputs@.len() && carries(
                #[trigger] engine.outputs@[k],
                after.outputs@[p],
                gains@[p],
            );
        assert(engine.outputs@[k].id@ == id@);
    }
}

/// Settings that cannot be read are those of a first launch: desktop audio, and
/// nothing is on. Settings that can be are kept: an output goes only where it
/// has no id, and every other one keeps its id, name, switch and mute.
pub proof fn law_stored_settings_are_kept(
    stored: Option<AppConfig>,
    loaded: AppConfig,
    i: int,
    count: usize,
)
    requires
        call_ensures(AppConfig::load, (stored,), loaded),
        call_ensures(AppConfig::enabled_count, (&loaded,), count),
    ensures
        loaded.source@.len() > 0,
        stored is None ==> loaded.source@ == "desktop"@ && loaded.outputs@.len() == 0
            && !loaded.onboarded && count == 0,
        stored matches Some(cfg) ==> {
            &&& loaded.onboarded == cfg.onboarded
            &&& cfg.source@.len() > 0 ==> loaded.source@ == cfg.source@
            &&& cfg.source@.len() == 0 ==> loaded.source@ == "desktop"@
            &&& 0 <= i < cfg.outputs@.len() && cfg.outputs@[i].id@.len() > 0 ==> exists|k: int|
                0 <= k < loaded.outputs@.len() && {
                    let o = #[trigger] loaded.outputs@[k];
                    &&& o.id@ == cfg.outputs@[i].id@
                    &&& o.name@ == cfg.outputs@[i].name@
                    &&& o.enabled == cfg.outputs@[i].enabled
                    &&& o.muted == cfg.outputs@[i].muted
                    &&& float::is_finite(o.fader)
                    &&& 0 <= float::place(o.fader) <= float::place(float::ONE)
                }
            &&& loaded.outputs@.len() <= cfg.outputs@.len()
        },
        count > 0 <==> exists|k: int|
            0 <= k < loaded.outputs@.len() && (#[trigger] loaded.outputs@[k]).enabled,
        count == loaded.outputs@.filter(|o: OutputConfig| o.enabled).len(),
{
    reveal_strlit("desktop");
    assert(loaded@.outputs =~= views(loaded.outputs@));
    lemma_count(loaded.outputs@);
    match stored {
        Some(cfg) => {
            assert(cfg@.outputs =~= views(cfg.outputs@));
            if 0 <= i < cfg.outputs@.len() && cfg.outputs@[i].id@.len() > 0 {
                lemma_sane_keeps(cfg@.outputs, i);
                float::law_unit_is_stable(cfg.outputs@[i].fader);
                let k = choose|k: int|
                    0 <= k < loaded@.outputs.len() && #[trigger] loaded@.outputs[k] == (
                    OutputView {
                        fader: float::unit_of(cfg@.outputs[i].fader),
                        ..cfg@.outputs[i]
                    });
                assert(loaded.outputs@[k]@ == loaded@.outputs[k]);
            }
            lemma_sane_shortens(cfg@.outputs);
        },
        None => {
            assert(loaded@.outputs.len() == 0);
            assert(loaded.outputs@.len() == 0);
        },
    }
}

proof fn lemma_sane_shortens(outputs: Seq<OutputView>)
    ensures
        sane_outputs(outputs).len() <= outputs.len(),
    decreases outputs.len(),
{
    if outputs.len() > 0 {
        lemma_sane_shortens(outputs.drop_last());
    }
}

proof fn lemma_sane_keeps(outputs: Seq<OutputView>, i: int)
    requires
        0 <= i < outputs.len(),
        outputs[i].id.len() > 0,
    ensures
        exists|k: int|
            0 <= k < sane_outputs(outputs).len() && #[trigger] sane_outputs(outputs)[k] == (
            OutputView { fader: float::unit_of(outputs[i].fader), ..outputs[i] }),
    decreases outputs.len(),
{
    let front = outputs.drop_last();
    let all = sane_outputs(outputs);
    if i < front.len() {
        lemma_sane_keeps(front, i);
        let k = choose|k: int|
            0 <= k < sane_outputs(front).len() && #[trigger] sane_outputs(front)[k] == (
            OutputView { fader: float::unit_of(front[i].fader), ..front[i] });
        assert(all[k] == sane_outputs(front)[k]);
    } else {
        assert(all[all.len() - 1].id == outputs[i].id);
    }
}

proof fn lemma_count(outputs: Seq<OutputConfig>)
    ensures
        count_enabled(views(outputs)) == outputs.filter(|o: OutputConfig| o.enabled).len(),
        count_enabled(views(outputs)) > 0 <==> exists|k: int|
            0 <= k < outputs.len() && (#[trigger] outputs[k]).enabled,
    decreases outputs.len(),
{
    reveal(Seq::filter);
    if outputs.len() > 0 {
        let front = outputs.drop_last();
        assert(views(outputs).drop_last() =~= views(front));
        assert(views(outputs).last() == outputs.last()@);
        lemma_count(front);
        if exists|k: int| 0 <= k < front.len() && (#[trigger] front[k]).enabled {
            let k = choose|k: int| 0 <= k < front.len() && (#[trigger] front[k]).enabled;
            assert(outputs[k].enabled);
        }
        if outputs.last().enabled {
            assert(outputs[outputs.len() - 1].enabled);
        }
        if exists|k: int| 0 <= k < outputs.len() && (#[trigger] outputs[k]).enabled {
            let k = choose|k: int| 0 <= k < outputs.len() && (#[trigger] outputs[k]).enabled;
            if k < front.len() {
                assert(front[k].enabled);
            }
        }
    }
}

/// Choosing a source changes nothing else, and forgetting an output forgets
/// that one alone.
pub proof fn law_other_settings_stay(
    choosing: &mut AppConfig,
    source: String,
    forgetting: &mut AppConfig,
    id: &str,
    o: OutputView,
)
    requires
        call_ensures(AppConfig::set_source, (choosing, source), ()),
        call_ensures(AppConfig::forget_output, (forgetting, id), ()),
    ensures
        final(choosing).source@ == source@,
        final(choosing)@.outputs == old(choosing)@.outputs,
        final(choosing).onboarded == old(choosing).onboarded,
        final(forgetting).source@ == old(forgetting).source@,
        final(forgetting).onboarded == old(forgetting).onboarded,
        final(forgetting)@.outputs.contains(o) <==> old(forgetting)@.outputs.contains(o) && o.id
            != id@,
{
    law_a_forgotten_output_is_gone(old(forgetting)@.outputs, id@);
    let left = final(forgetting)@.outputs;
    if left.contains(o) {
        let i = choose|i: int| 0 <= i < left.len() && left[i] == o;
        assert(left[i].id != id@);
    }
}

/// Mending settings keeps them: the source unless there is none, and every
/// output that has an id as it is, but for a slider that is out of bounds.
pub proof fn law_mending_keeps_what_is_sound(cfg: AppConfig, r: AppConfig, i: int)
    requires
        call_ensures(AppConfig::sanitize, (cfg,), r),
    ensures
        r.onboarded == cfg.onboarded,
        cfg.source@.len() > 0 ==> r.source@ == cfg.source@,
        cfg.source@.len() == 0 ==> r.source@ == "desktop"@,
        r.outputs@.len() <= cfg.outputs@.len(),
        0 <= i < cfg.outputs@.len() && cfg.outputs@[i].id@.len() > 0 ==> exists|k: int|
            0 <= k < r.outputs@.len() && {
                let o = #[trigger] r.outputs@[k];
                let given = cfg.outputs@[i];
                &&& o.id@ == given.id@ && o.name@ == given.name@
                &&& o.enabled == given.enabled && o.muted == given.muted
                &&& given.fader <= 0x3f80_0000 ==> o.fader == given.fader
                &&& 0x3f80_0000 < given.fader < 0x8000_0000 ==> o.fader == 0x3f80_0000
                &&& 0x8000_0000 < given.fader < 0xff80_0000 ==> o.fader == 0
            },
        0 <= i < r.outputs@.len() ==> r.outputs@[i].id@.len() > 0,
{
    assert(r@.outputs =~= views(r.outputs@));
    assert(cfg@.outputs =~= views(cfg.outputs@));
    lemma_sane_shortens(cfg@.outputs);
    if 0 <= i < cfg.outputs@.len() && cfg.outputs@[i].id@.len() > 0 {
        lemma_sane_keeps(cfg@.outputs, i);
        let k = choose|k: int|
            0 <= k < r@.outputs.len() && #[trigger] r@.outputs[k] == (OutputView {
                fader: float::unit_of(cfg@.outputs[i].fader),
                ..cfg@.outputs[i]
            });
        assert(r.outputs@[k]@ == r@.outputs[k]);
    }
    if 0 <= i < r.outputs@.len() {
        lemma_sane_ids(cfg@.outputs, i);
        assert(r.outputs@[i]@ == r@.outputs[i]);
    }
}

proof fn lemma_sane_ids(outputs: Seq<OutputView>, i: int)
    requires
        0 <= i < sane_outputs(outputs).len(),
    ensures
        sane_outputs(outputs)[i].id.len() > 0,
    decreases outputs.len(),
{
    let front = outputs.drop_last();
    if i < sane_outputs(front).len() {
        lemma_sane_ids(front, i);
    }
}

/// Settings of a first launch: desktop audio, and no output; an output that was
/// never touched is off, at full volume and not muted.
pub proof fn law_a_first_launch_mirrors_nothing(cfg: AppConfig, output: OutputConfig)
    requires
        call_ensures(AppConfig::default, (), cfg),
        call_ensures(OutputConfig::default, (), output),
    ensures
        cfg.source@ == "desktop"@ && cfg.outputs@.len() == 0 && !cfg.onboarded,
        !output.enabled && !output.muted && output.fader == 0x3f80_0000,
        output.id@ == ""@ && output.name@ == ""@,
{
    assert(cfg@.outputs.len() == 0);
}

} // verus!
