//! The controls of the configured outputs: gain and mute, by id.

use crate::audio::OutputSpec;
use crate::text::same;
use vstd::prelude::*;

verus! {

/// The controls of one output.
#[derive(Debug, PartialEq, Eq)]
pub struct OutputControls {
    pub id: String,
    /// Linear gain, as a pattern.
    pub gain: u32,
    pub muted: bool,
}

/// The gain and mute of an output, if it has controls.
pub open spec fn lookup(entries: Seq<OutputControls>, id: Seq<char>) -> Option<(u32, bool)>
    decreases entries.len(),
{
    if entries.len() == 0 {
        None
    } else if entries.last().id@ == id {
        Some((entries.last().gain, entries.last().muted))
    } else {
        lookup(entries.drop_last(), id)
    }
}

/// What a configuration says of an output: the last mention counts.
pub open spec fn setting(outputs: Seq<OutputSpec>, id: Seq<char>) -> Option<(u32, bool)>
    decreases outputs.len(),
{
    if outputs.len() == 0 {
        None
    } else if outputs.last().id@ == id {
        Some((outputs.last().gain, outputs.last().muted))
    } else {
        setting(outputs.drop_last(), id)
    }
}

/// The controls of every configured output.
#[derive(Debug, PartialEq, Eq)]
pub struct ControlTable {
    pub entries: Vec<OutputControls>,
}

proof fn lemma_lookup_update(
    entries: Seq<OutputControls>,
    i: int,
    changed: OutputControls,
    id: Seq<char>,
)
    requires
        0 <= i < entries.len(),
        changed.id@ == entries[i].id@,
        distinct(entries),
    ensures
        lookup(entries.update(i, changed), id) == if id == changed.id@ {
            Some((changed.gain, changed.muted))
        } else {
            lookup(entries, id)
        },
        distinct(entries.update(i, changed)),
    decreases entries.len(),
{
    let after = entries.update(i, changed);
    assert(distinct(after)) by {
        assert forall|a: int, b: int| 0 <= a < b < after.len() implies (#[trigger] after[a]).id@
            != (#[trigger] after[b]).id@ by {
            assert(entries[a].id@ != entries[b].id@);
        }
    }
    let n = entries.len() - 1;
    if i == n {
        assert(after.drop_last() =~= entries.drop_last());
    } else {
        assert(after.drop_last() =~= entries.drop_last().update(i, changed));
        assert(distinct(entries.drop_last())) by {
            let front = entries.drop_last();
            assert forall|a: int, b: int| 0 <= a < b < front.len() implies (
            #[trigger] front[a]).id@ != (#[trigger] front[b]).id@ by {
                assert(entries[a].id@ != entries[b].id@);
            }
        }
        lemma_lookup_update(entries.drop_last(), i, changed, id);
        assert(entries[i].id@ != entries[n].id@);
    }
}

/// No output has controls twice.
pub open spec fn distinct(entries: Seq<OutputControls>) -> bool {
    forall|i: int, j: int|
        0 <= i < j < entries.len() ==> (#[trigger] entries[i]).id@ != (#[trigger] entries[j]).id@
}

proof fn lemma_lookup_absent(entries: Seq<OutputControls>, id: Seq<char>)
    requires
        forall|i: int| 0 <= i < entries.len() ==> (#[trigger] entries[i]).id@ != id,
    ensures
        lookup(entries, id) is None,
    decreases entries.len(),
{
    if entries.len() > 0 {
        let front = entries.drop_last();
        assert forall|i: int| 0 <= i < front.len() implies (#[trigger] front[i]).id@ != id by {
            assert(entries[i].id@ != id);
        }
        assert(entries[entries.len() - 1].id@ != id);
        lemma_lookup_absent(front, id);
    }
}

proof fn lemma_lookup_at(entries: Seq<OutputControls>, i: int)
    requires
        distinct(entries),
        0 <= i < entries.len(),
    ensures
        lookup(entries, entries[i].id@) == Some((entries[i].gain, entries[i].muted)),
    decreases entries.len(),
{
    let n = entries.len() - 1;
    if i < n {
        let front = entries.drop_last();
        assert forall|a: int, b: int| 0 <= a < b < front.len() implies (#[trigger] front[a]).id@
            != (#[trigger] front[b]).id@ by {
            assert(entries[a].id@ != entries[b].id@);
        }
        assert(entries[i].id@ != entries[n].id@);
        lemma_lookup_at(front, i);
    }
}

impl ControlTable {
    pub open spec fn wf(&self) -> bool {
        distinct(self.entries@)
    }

    /// The gain and mute of an output, if it has controls.
    pub open spec fn of(&self, id: Seq<char>) -> Option<(u32, bool)> {
        lookup(self.entries@, id)
    }

    pub fn new() -> (t: Self)
        ensures
            t.wf(),
            t.entries@.len() == 0,
    {
        ControlTable { entries: Vec::new() }
    }

    fn index(&self, id: &str) -> (r: Option<usize>)
        requires
            self.wf(),
        ensures
            match r {
                Some(i) => i < self.entries@.len() && self.entries@[i as int].id@ == id@,
                None => forall|i: int|
                    0 <= i < self.entries@.len() ==> (#[trigger] self.entries@[i]).id@ != id@,
            },
    {
        let mut i: usize = 0;
        while i < self.entries.len()
            invariant
                i <= self.entries@.len(),
                forall|k: int| 0 <= k < i ==> (#[trigger] self.entries@[k]).id@ != id@,
            decreases self.entries@.len() - i,
        {
            if same(self.entries[i].id.as_str(), id) {
                return Some(i);
            }
            i += 1;
        }
        None
    }

    /// The gain and mute of an output, if it has controls.
    pub fn get(&self, id: &str) -> (r: Option<(u32, bool)>)
        requires
            self.wf(),
        ensures
            r == self.of(id@),
    {
        match self.index(id) {
            Some(i) => {
                proof {
                    lemma_lookup_at(self.entries@, i as int);
                }
                Some((self.entries[i].gain, self.entries[i].muted))
            },
            None => {
                proof {
                    lemma_lookup_absent(self.entries@, id@);
                }
                None
            },
        }
    }

    /// The ids of the outputs that have controls.
    pub fn ids(&self) -> (r: Vec<String>)
        ensures
            r@.len() == self.entries@.len(),
            forall|i: int| 0 <= i < r@.len() ==> #[trigger] r@[i] == self.entries@[i].id,
    {
        let mut out: Vec<String> = Vec::new();
        let mut i: usize = 0;
        while i < self.entries.len()
            invariant
                i <= self.entries@.len(),
                out@.len() == i,
                forall|k: int| 0 <= k < i ==> #[trigger] out@[k] == self.entries@[k].id,
            decreases self.entries@.len() - i,
        {
            out.push(self.entries[i].id.clone());
            i += 1;
        }
        out
    }

    /// Sets the controls of an output, which gets some if it had none.
    pub fn put(&mut self, id: &String, gain: u32, muted: bool)
        requires
            old(self).wf(),
        ensures
            final(self).wf(),
            forall|k: Seq<char>| #[trigger]
                final(self).of(k) == if k == id@ {
                    Some((gain, muted))
                } else {
                    old(self).of(k)
                },
    {
        let entry = OutputControls { id: id.clone(), gain, muted };
        match self.index(id.as_str()) {
            Some(i) => {
                let ghost before = self.entries@;
                self.entries[i] = entry;
                proof {
                    assert(self.entries@ =~= before.update(i as int, entry));
                    assert forall|k: Seq<char>| #[trigger]
                        self.of(k) == if k == id@ {
                            Some((gain, muted))
                        } else {
                            old(self).of(k)
                        } by {
                        lemma_lookup_update(before, i as int, entry, k);
                    }
                    lemma_lookup_update(before, i as int, entry, id@);
                }
            },
            None => {
                let ghost before = self.entries@;
                self.entries.push(entry);
                proof {
                    let after = self.entries@;
                    assert(after.drop_last() =~= before);
                    assert forall|a: int, b: int| 0 <= a < b < after.len() implies (
                    #[trigger] after[a]).id@ != (#[trigger] after[b]).id@ by {
                        assert(after[a] == before[a]);
                        if b < before.len() {
                            assert(after[b] == before[b]);
                        }
                    }
                }
            },
        }
    }

    /// Sets the controls of every output of a configuration.
    pub fn update(&mut self, outputs: &Vec<OutputSpec>)
        requires
            old(self).wf(),
        ensures
            final(self).wf(),
            forall|k: Seq<char>| #[trigger]
                final(self).of(k) == match setting(outputs@, k) {
                    Some(s) => Some(s),
                    None => old(self).of(k),
                },
    {
        let mut i: usize = 0;
        while i < outputs.len()
            invariant
                i <= outputs@.len(),
                self.wf(),
                forall|k: Seq<char>| #[trigger]
                    self.of(k) == match setting(outputs@.take(i as int), k) {
                        Some(s) => Some(s),
                        None => old(self).of(k),
                    },
            decreases outputs@.len() - i,
        {
            assert(outputs@.take(i + 1).drop_last() =~= outputs@.take(i as int));
            let ghost before = *self;
            self.put(&outputs[i].id, outputs[i].gain, outputs[i].muted);
            assert forall|k: Seq<char>| #[trigger]
                self.of(k) == match setting(outputs@.take(i + 1), k) {
                    Some(s) => Some(s),
                    None => old(self).of(k),
                } by {
                assert(before.of(k) == match setting(outputs@.take(i as int), k) {
                    Some(s) => Some(s),
                    None => old(self).of(k),
                });
            }
            i += 1;
        }
        assert(outputs@.take(i as int) =~= outputs@);
    }

    /// Sets the controls of exactly the outputs of a configuration: one that
    /// is no longer configured keeps none.
    pub fn replace(&mut self, outputs: &Vec<OutputSpec>)
        ensures
            final(self).wf(),
            forall|k: Seq<char>| #[trigger] final(self).of(k) == setting(outputs@, k),
    {
        let mut fresh = ControlTable::new();
        assert(forall|k: Seq<char>| #[trigger] fresh.of(k) is None);
        fresh.update(outputs);
        self.entries = fresh.entries;
    }

    /// Sets the gain of an output that has controls.
    pub fn set_gain(&mut self, id: &str, gain: u32)
        requires
            old(self).wf(),
        ensures
            final(self).wf(),
            forall|k: Seq<char>| #[trigger]
                final(self).of(k) == match old(self).of(k) {
                    Some((_, muted)) if k == id@ => Some((gain, muted)),
                    other => other,
                },
    {
        if let Some((_, muted)) = self.get(id) {
            let name = id.to_owned();
            self.put(&name, gain, muted);
        }
    }

    /// Mutes an output that has controls, or lets it be heard.
    pub fn set_muted(&mut self, id: &str, muted: bool)
        requires
            old(self).wf(),
        ensures
            final(self).wf(),
            forall|k: Seq<char>| #[trigger]
                final(self).of(k) == match old(self).of(k) {
                    Some((gain, _)) if k == id@ => Some((gain, muted)),
                    other => other,
                },
    {
        if let Some((gain, _)) = self.get(id) {
            let name = id.to_owned();
            self.put(&name, gain, muted);
        }
    }
}

/// An output that a configuration does not name has no controls once the
/// configuration is applied, and one that it names has those it was given.
pub proof fn law_only_configured_outputs_have_controls(outputs: Seq<OutputSpec>, id: Seq<char>)
    ensures
        setting(outputs, id) is Some <==> exists|i: int|
            0 <= i < outputs.len() && (#[trigger] outputs[i]).id@ == id,
        setting(outputs, id) matches Some(s) ==> exists|i: int|
            0 <= i < outputs.len() && (#[trigger] outputs[i]).id@ == id && s == (
                outputs[i].gain,
                outputs[i].muted,
            ),
    decreases outputs.len(),
{
    if outputs.len() > 0 {
        let front = outputs.drop_last();
        law_only_configured_outputs_have_controls(front, id);
        if outputs.last().id@ == id {
            assert(outputs[outputs.len() - 1].id@ == id);
        } else {
            if setting(front, id) is Some {
                let i = choose|i: int|
                    0 <= i < front.len() && (#[trigger] front[i]).id@ == id && setting(front, id)
                        == Some((front[i].gain, front[i].muted));
                assert(outputs[i] == front[i]);
            }
            if exists|i: int| 0 <= i < outputs.len() && (#[trigger] outputs[i]).id@ == id {
                let i = choose|i: int|
                    0 <= i < outputs.len() && (#[trigger] outputs[i]).id@ == id;
                assert(front[i] == outputs[i]);
            }
        }
    }
}

/// What is set of an output is what is read of it, and nothing else changes:
/// its gain and its mute together, or either alone where it has controls.
pub proof fn law_a_control_is_read_as_it_was_set(
    table: &mut ControlTable,
    id: &String,
    gain: u32,
    muted: bool,
    after: &ControlTable,
    other: &str,
    before_read: Option<(u32, bool)>,
    read: Option<(u32, bool)>,
)
    requires
        old(table).wf(),
        call_ensures(ControlTable::get, (old(table), other), before_read),
        call_ensures(ControlTable::put, (table, id, gain, muted), ()),
        *after == *final(table),
        call_ensures(ControlTable::get, (after, other), read),
    ensures
        other@ == id@ ==> read == Some((gain, muted)),
        other@ != id@ ==> read == before_read,
{
    assert(final(table).of(other@) == if other@ == id@ {
        Some((gain, muted))
    } else {
        old(table).of(other@)
    });
}

/// Setting the gain of an output keeps whether it is muted, and leaves the
/// others alone; one without controls gets none.
pub proof fn law_a_gain_is_set_alone(
    table: &mut ControlTable,
    id: &str,
    gain: u32,
    after: &ControlTable,
    other: &str,
    before_read: Option<(u32, bool)>,
    read: Option<(u32, bool)>,
)
    requires
        old(table).wf(),
        call_ensures(ControlTable::get, (old(table), other), before_read),
        call_ensures(ControlTable::set_gain, (table, id, gain), ()),
        *after == *final(table),
        call_ensures(ControlTable::get, (after, other), read),
    ensures
        other@ != id@ ==> read == before_read,
        other@ == id@ && before_read is None ==> read is None,
        other@ == id@ ==> (before_read matches Some((_, muted)) ==> read == Some((gain, muted))),
{
    assert(final(table).of(other@) == match old(table).of(other@) {
        Some((_, muted)) if other@ == id@ => Some((gain, muted)),
        rest => rest,
    });
}

/// Muting an output keeps its gain, and leaves the others alone; one without
/// controls gets none.
pub proof fn law_a_mute_is_set_alone(
    table: &mut ControlTable,
    id: &str,
    muted: bool,
    after: &ControlTable,
    other: &str,
    before_read: Option<(u32, bool)>,
    read: Option<(u32, bool)>,
)
    requires
        old(table).wf(),
        call_ensures(ControlTable::get, (old(table), other), before_read),
        call_ensures(ControlTable::set_muted, (table, id, muted), ()),
        *after == *final(table),
        call_ensures(ControlTable::get, (after, other), read),
    ensures
        other@ != id@ ==> read == before_read,
        other@ == id@ && before_read is None ==> read is None,
        other@ == id@ ==> (before_read matches Some((gain, _)) ==> read == Some((gain, muted))),
{
    assert(final(table).of(other@) == match old(table).of(other@) {
        Some((gain, _)) if other@ == id@ => Some((gain, muted)),
        rest => rest,
    });
}

proof fn lemma_setting_at(outputs: Seq<OutputSpec>, i: int)
    requires
        0 <= i < outputs.len(),
        forall|k: int| i < k < outputs.len() ==> (#[trigger] outputs[k]).id@ != outputs[i].id@,
    ensures
        setting(outputs, outputs[i].id@) == Some((outputs[i].gain, outputs[i].muted)),
    decreases outputs.len(),
{
    if i < outputs.len() - 1 {
        let front = outputs.drop_last();
        assert(outputs[outputs.len() - 1].id@ != outputs[i].id@);
        assert forall|k: int| i < k < front.len() implies (#[trigger] front[k]).id@
            != front[i].id@ by {
            assert(outputs[k].id@ != outputs[i].id@);
        }
        lemma_setting_at(front, i);
    }
}

/// Every output of a configuration has the controls that it is given there, the
/// last where it is named twice; an output it does not name keeps none where the
/// table is replaced, and its own where the table is updated.
pub proof fn law_a_configuration_sets_the_controls(
    table: &mut ControlTable,
    updated: &mut ControlTable,
    outputs: &Vec<OutputSpec>,
    i: int,
    after: &ControlTable,
    after_update: &ControlTable,
    id: &str,
    kept: Option<(u32, bool)>,
    read: Option<(u32, bool)>,
    read_update: Option<(u32, bool)>,
)
    requires
        old(updated).wf(),
        call_ensures(ControlTable::replace, (table, outputs), ()),
        call_ensures(ControlTable::get, (old(updated), id), kept),
        call_ensures(ControlTable::update, (updated, outputs), ()),
        *after == *final(table),
        *after_update == *final(updated),
        call_ensures(ControlTable::get, (after, id), read),
        call_ensures(ControlTable::get, (after_update, id), read_update),
    ensures
        0 <= i < outputs@.len() && outputs@[i].id@ == id@ && (forall|k: int|
            i < k < outputs@.len() ==> (#[trigger] outputs@[k]).id@ != id@) ==> read == Some(
            (outputs@[i].gain, outputs@[i].muted),
        ) && read_update == read,
        (forall|k: int| 0 <= k < outputs@.len() ==> (#[trigger] outputs@[k]).id@ != id@) ==> read
            is None && read_update == kept,
{
    law_only_configured_outputs_have_controls(outputs@, id@);
    assert(final(table).of(id@) == setting(outputs@, id@));
    assert(final(updated).of(id@) == match setting(outputs@, id@) {
        Some(s) => Some(s),
        None => old(updated).of(id@),
    });
    if 0 <= i < outputs@.len() && outputs@[i].id@ == id@ && (forall|k: int|
        i < k < outputs@.len() ==> (#[trigger] outputs@[k]).id@ != id@) {
        lemma_setting_at(outputs@, i);
    }
}

/// The ids of a table are those of the outputs that have controls, once each.
pub proof fn law_the_ids_are_those_with_controls(
    table: &ControlTable,
    r: Vec<String>,
    id: &str,
    read: Option<(u32, bool)>,
)
    requires
        table.wf(),
        call_ensures(ControlTable::ids, (table,), r),
        call_ensures(ControlTable::get, (table, id), read),
    ensures
        read is Some <==> exists|i: int| 0 <= i < r@.len() && (#[trigger] r@[i])@ == id@,
        forall|i: int, j: int|
            0 <= i < j < r@.len() ==> (#[trigger] r@[i])@ != (#[trigger] r@[j])@,
{
    let entries = table.entries@;
    assert forall|i: int| 0 <= i < r@.len() implies #[trigger] r@[i] == entries[i].id by {}
    assert forall|i: int, j: int| 0 <= i < j < r@.len() implies (#[trigger] r@[i])@ != (
    #[trigger] r@[j])@ by {
        assert(entries[i].id@ != entries[j].id@);
    }
    if exists|i: int| 0 <= i < r@.len() && (#[trigger] r@[i])@ == id@ {
        let i = choose|i: int| 0 <= i < r@.len() && (#[trigger] r@[i])@ == id@;
        lemma_lookup_at(entries, i);
    } else {
        assert forall|i: int| 0 <= i < entries.len() implies (#[trigger] entries[i]).id@
            != id@ by {
            assert(r@[i]@ != id@);
        }
        lemma_lookup_absent(entries, id@);
    }
}

/// A new table has no controls.
pub proof fn law_a_new_table_is_empty(table: ControlTable, id: &str, r: Option<(u32, bool)>)
    requires
        call_ensures(ControlTable::new, (), table),
        call_ensures(ControlTable::get, (&table, id), r),
    ensures
        r is None,
{
}

} // verus!
