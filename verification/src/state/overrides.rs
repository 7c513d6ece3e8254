//! The modes that were chosen at run time, by output.
use crate::config::OutputModeSpec;
use crate::text::str_eq;
use vstd::prelude::*;

verus! {

/// One output and the mode that was chosen for it.
#[derive(Debug)]
pub struct ModeOverride {
    pub output: String,
    pub mode: OutputModeSpec,
}

/// The chosen modes, each output once.
#[derive(Debug)]
pub struct ModeOverrides {
    pub entries: Vec<ModeOverride>,
}

impl View for ModeOverrides {
    type V = Map<Seq<char>, OutputModeSpec>;

    open spec fn view(&self) -> Map<Seq<char>, OutputModeSpec> {
        modes_of(self.entries@)
    }
}

pub open spec fn modes_of(entries: Seq<ModeOverride>) -> Map<Seq<char>, OutputModeSpec>
    decreases entries.len(),
{
    if entries.len() == 0 {
        Map::empty()
    } else {
        modes_of(entries.drop_last()).insert(entries.last().output@, entries.last().mode)
    }
}

pub open spec fn names_are_distinct(entries: Seq<ModeOverride>) -> bool {
    forall|i: int, j: int|
        0 <= i < j < entries.len() ==> (#[trigger] entries[i]).output@ != (
        #[trigger] entries[j]).output@
}

proof fn lemma_modes_of(entries: Seq<ModeOverride>, name: Seq<char>)
    requires
        names_are_distinct(entries),
    ensures
        modes_of(entries).dom().contains(name) <==> exists|i: int|
            0 <= i < entries.len() && (#[trigger] entries[i]).output@ == name,
        forall|i: int|
            0 <= i < entries.len() && (#[trigger] entries[i]).output@ == name ==> modes_of(
                entries,
            )[name] == entries[i].mode,
    decreases entries.len(),
{
    if entries.len() > 0 {
        let rest = entries.drop_last();
        assert(forall|k: int| 0 <= k < rest.len() ==> rest[k] == entries[k]);
        assert(names_are_distinct(rest));
        lemma_modes_of(rest, name);
        let n = entries.len() - 1;
        if modes_of(entries).dom().contains(name) {
            if entries.last().output@ == name {
                assert(entries[n].output@ == name);
            } else {
                let i = choose|i: int| 0 <= i < rest.len() && (#[trigger] rest[i]).output@ == name;
                assert(entries[i].output@ == name);
            }
        }
        if exists|i: int| 0 <= i < entries.len() && (#[trigger] entries[i]).output@ == name {
            let i = choose|i: int|
                0 <= i < entries.len() && (#[trigger] entries[i]).output@ == name;
            if i < n {
                assert(rest[i].output@ == name);
            }
        }
        assert forall|i: int|
            0 <= i < entries.len() && (#[trigger] entries[i]).output@ == name implies modes_of(
            entries,
        )[name] == entries[i].mode by {
            if i < n {
                assert(rest[i].output@ == name);
                assert(entries[n].output@ != entries[i].output@);
            }
        }
    }
}

impl ModeOverrides {
    pub open spec fn wf(&self) -> bool {
        names_are_distinct(self.entries@)
    }

    pub fn new() -> (r: Self)
        ensures
            r.wf(),
            r@ == Map::<Seq<char>, OutputModeSpec>::empty(),
    {
        ModeOverrides { entries: Vec::new() }
    }

    /// Remember the mode of an output, in place of an earlier one.
    pub fn record_runtime_output_mode(&mut self, output_name: String, mode: OutputModeSpec)
        requires
            old(self).wf(),
        ensures
            final(self).wf(),
            final(self)@ == old(self)@.insert(output_name@, mode),
    {
        let ghost before = self.entries@;
        let ghost name = output_name@;
        let mut i: usize = 0;
        while i < self.entries.len()
            invariant
                i <= self.entries.len(),
                self.entries@ == before,
                before == old(self).entries@,
                names_are_distinct(before),
                name == output_name@,
                forall|k: int| 0 <= k < i ==> (#[trigger] before[k]).output@ != name,
            decreases self.entries.len() - i,
        {
            if str_eq(self.entries[i].output.as_str(), output_name.as_str()) {
                self.entries.set(i, ModeOverride { output: output_name, mode });
                proof {
                    let after = self.entries@;
                    assert forall|a: int, b: int| 0 <= a < b < after.len() implies (
                    #[trigger] after[a]).output@ != (#[trigger] after[b]).output@ by {
                        assert(after[a].output@ == before[a].output@);
                        assert(after[b].output@ == before[b].output@);
                    }
                    lemma_replaced(before, after, i as int, name, mode);
                }
                return;
            }
            i = i + 1;
        }
        self.entries.push(ModeOverride { output: output_name, mode });
        proof {
            let after = self.entries@;
            assert(after.drop_last() =~= before);
            assert forall|a: int, b: int| 0 <= a < b < after.len() implies (
            #[trigger] after[a]).output@ != (#[trigger] after[b]).output@ by {
                assert(after[a] == before[a]);
                if b < before.len() {
                    assert(after[b] == before[b]);
                }
            }
        }
    }
}

proof fn lemma_replaced(
    before: Seq<ModeOverride>,
    after: Seq<ModeOverride>,
    i: int,
    name: Seq<char>,
    mode: OutputModeSpec,
)
    requires
        0 <= i < before.len(),
        after.len() == before.len(),
        names_are_distinct(before),
        names_are_distinct(after),
        before[i].output@ == name,
        after[i].output@ == name,
        after[i].mode == mode,
        forall|k: int| 0 <= k < before.len() && k != i ==> #[trigger] after[k] == before[k],
    ensures
        modes_of(after) == modes_of(before).insert(name, mode),
{
    assert forall|key: Seq<char>| #[trigger]
        modes_of(after).dom().contains(key) <==> modes_of(before).insert(name, mode).dom().contains(
            key,
        ) by {
        lemma_modes_of(before, key);
        lemma_modes_of(after, key);
        if modes_of(after).dom().contains(key) {
            let k = choose|k: int| 0 <= k < after.len() && (#[trigger] after[k]).output@ == key;
            if k != i {
                assert(before[k].output@ == key);
            }
        }
        if modes_of(before).dom().contains(key) {
            let k = choose|k: int| 0 <= k < before.len() && (#[trigger] before[k]).output@ == key;
            if k != i {
                assert(after[k].output@ == key);
            }
        }
    }
    assert forall|key: Seq<char>| #[trigger]
        modes_of(after).dom().contains(key) implies modes_of(after)[key] == modes_of(before).insert(
        name,
        mode,
    )[key] by {
        lemma_modes_of(before, key);
        lemma_modes_of(after, key);
        let k = choose|k: int| 0 <= k < after.len() && (#[trigger] after[k]).output@ == key;
        if k != i {
            assert(after[k] == before[k]);
            assert(before[k].output@ == key);
            assert(key != name) by {
                if key == name {
                    if k < i {
                        assert(before[k].output@ != before[i].output@);
                    } else {
                        assert(before[i].output@ != before[k].output@);
                    }
                }
            }
        }
    }
    assert(modes_of(after) =~= modes_of(before).insert(name, mode));
}

/// Every output has the mode that was recorded for it, and no other output has one.
pub proof fn each_output_has_its_recorded_mode(entries: Seq<ModeOverride>, i: int, name: Seq<char>)
    requires
        names_are_distinct(entries),
        0 <= i < entries.len(),
    ensures
        modes_of(entries).dom().contains(entries[i].output@),
        modes_of(entries)[entries[i].output@] == entries[i].mode,
        (forall|k: int| 0 <= k < entries.len() ==> (#[trigger] entries[k]).output@ != name)
            ==> !modes_of(entries).dom().contains(name),
{
    lemma_modes_of(entries, entries[i].output@);
    lemma_modes_of(entries, name);
}

} // verus!
