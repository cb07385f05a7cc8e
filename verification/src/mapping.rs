//! The immutable mapping table of one router generation: the set of
//! toggle notes and the per-bank note and control remap rules.

use vstd::prelude::*;
use crate::NOTE_COUNT;

verus! {

/// One remap rule: an original identifier and its per-bank replacements.
pub struct NoteMap {
    note: u8,
    new_note: Vec<u8>,
}

/// One control remap rule, shaped exactly like a note rule.
pub struct ControlMap {
    note: u8,
    new_note: Vec<u8>,
}

/// Mathematical model of one remap rule.
pub ghost struct MapEntryModel {
    /// The identifier the rule applies to.
    pub id: u8,
    /// Replacement identifiers, indexed by bank.
    pub replacements: Seq<u8>,
}

impl View for NoteMap {
    type V = MapEntryModel;

    closed spec fn view(&self) -> MapEntryModel {
        MapEntryModel { id: self.note, replacements: self.new_note@ }
    }
}

impl View for ControlMap {
    type V = MapEntryModel;

    closed spec fn view(&self) -> MapEntryModel {
        MapEntryModel { id: self.note, replacements: self.new_note@ }
    }
}

impl NoteMap {
    /// Builds a remap rule for one note identifier.
    pub fn new(note: u8, new_note: Vec<u8>) -> (r: NoteMap)
        ensures
            r@ == (MapEntryModel { id: note, replacements: new_note@ }),
    {
        NoteMap { note, new_note }
    }
}

impl ControlMap {
    /// Builds a remap rule for one control identifier.
    pub fn new(note: u8, new_note: Vec<u8>) -> (r: ControlMap)
        ensures
            r@ == (MapEntryModel { id: note, replacements: new_note@ }),
    {
        ControlMap { note, new_note }
    }
}

/// Mathematical model of the mapping table.
pub ghost struct MappingModel {
    /// Notes with sticky on/off semantics.
    pub toggle_notes: Seq<u8>,
    /// Remap rules for note identifiers.
    pub note_map: Seq<MapEntryModel>,
    /// Remap rules for control identifiers.
    pub control_map: Seq<MapEntryModel>,
}

/// What the first rule matching `id` maps it to: the replacement at index
/// `bank` when that rule has one, and `id` itself when the rule's list is
/// too short or no rule matches.
pub open spec fn remap_spec(entries: Seq<MapEntryModel>, bank: int, id: u8) -> u8
    decreases entries.len(),
{
    if entries.len() == 0 {
        id
    } else if entries[0].id == id {
        if 0 <= bank < entries[0].replacements.len() {
            entries[0].replacements[bank]
        } else {
            id
        }
    } else {
        remap_spec(entries.drop_first(), bank, id)
    }
}

impl MappingModel {
    /// Whether `id` is matched by some rule of `entries`.
    pub open spec fn has_rule(entries: Seq<MapEntryModel>, id: u8) -> bool {
        exists|i: int| 0 <= i < entries.len() && (#[trigger] entries[i]).id == id
    }

    /// A valid mapping table: toggle notes are in the 7-bit domain with no
    /// duplicates, and every replacement is in the 7-bit domain.
    pub open spec fn wf(self) -> bool {
        &&& forall|i: int| 0 <= i < self.toggle_notes.len() ==> #[trigger] self.toggle_notes[i]
            < NOTE_COUNT
        &&& forall|i: int, j: int|
            0 <= i < j < self.toggle_notes.len() ==> self.toggle_notes[i] != self.toggle_notes[j]
        &&& forall|i: int, k: int|
            0 <= i < self.note_map.len() && 0 <= k < self.note_map[i].replacements.len()
                ==> #[trigger] self.note_map[i].replacements[k] < NOTE_COUNT
        &&& forall|i: int, k: int|
            0 <= i < self.control_map.len() && 0 <= k < self.control_map[i].replacements.len()
                ==> #[trigger] self.control_map[i].replacements[k] < NOTE_COUNT
    }
}

/// Whatever a well-formed table remaps a 7-bit identifier to stays in the
/// 7-bit domain: the result is either a replacement or the identifier.
pub proof fn lemma_remap_spec_in_range(entries: Seq<MapEntryModel>, bank: int, id: u8)
    requires
        id < NOTE_COUNT,
        forall|i: int, k: int|
            0 <= i < entries.len() && 0 <= k < entries[i].replacements.len()
                ==> #[trigger] entries[i].replacements[k] < NOTE_COUNT,
    ensures
        remap_spec(entries, bank, id) < NOTE_COUNT,
    decreases entries.len(),
{
    if entries.len() == 0 {
    } else if entries[0].id == id {
    } else {
        let rest = entries.drop_first();
        assert forall|i: int, k: int|
            0 <= i < rest.len() && 0 <= k < rest[i].replacements.len() implies #[trigger] rest[i].replacements[k]
            < NOTE_COUNT by {
            assert(rest[i] == entries[i + 1]);
            assert(entries[i + 1].replacements[k] < NOTE_COUNT);
        }
        lemma_remap_spec_in_range(rest, bank, id);
    }
}

/// The read-only mapping table, loaded once per generation from the
/// configuration collaborator.
pub struct MappingConfig {
    toggle_notes: Vec<u8>,
    note_map: Vec<NoteMap>,
    control_map: Vec<ControlMap>,
}

impl View for MappingConfig {
    type V = MappingModel;

    closed spec fn view(&self) -> MappingModel {
        MappingModel {
            toggle_notes: self.toggle_notes@,
            note_map: Seq::new(self.note_map@.len(), |i: int| self.note_map@[i]@),
            control_map: Seq::new(self.control_map@.len(), |i: int| self.control_map@[i]@),
        }
    }
}

impl MappingConfig {
    /// Assembles the table from its deserialized parts.
    pub fn new(toggle_notes: Vec<u8>, note_map: Vec<NoteMap>, control_map: Vec<ControlMap>) -> (r:
        MappingConfig)
        ensures
            r@.toggle_notes == toggle_notes@,
            r@.note_map.len() == note_map@.len(),
            forall|i: int| 0 <= i < note_map@.len() ==> r@.note_map[i] == #[trigger] note_map@[i]@,
            r@.control_map.len() == control_map@.len(),
            forall|i: int|
                0 <= i < control_map@.len() ==> r@.control_map[i] == #[trigger] control_map@[i]@,
    {
        MappingConfig { toggle_notes, note_map, control_map }
    }

    /// Checks the table's validity: toggle notes in the 7-bit domain with
    /// no duplicates, and every replacement in the 7-bit domain.
    pub fn is_wf(&self) -> (r: bool)
        ensures
            r == self@.wf(),
    {
        let tn = self.toggle_notes.len();
        for i in 0..tn
            invariant
                tn == self.toggle_notes@.len(),
                forall|a: int| 0 <= a < i ==> #[trigger] self@.toggle_notes[a] < NOTE_COUNT,
                forall|a: int, b: int|
                    0 <= a < b < tn && a < i ==> self@.toggle_notes[a] != self@.toggle_notes[b],
        {
            if self.toggle_notes[i] >= NOTE_COUNT {
                proof {
                    assert(self@.toggle_notes[i as int] >= NOTE_COUNT);
                }
                return false;
            }
            for j in i + 1..tn
                invariant
                    tn == self.toggle_notes@.len(),
                    i < tn,
                    forall|b: int| i < b < j ==> self@.toggle_notes[i as int]
                        != #[trigger] self@.toggle_notes[b],
            {
                if self.toggle_notes[i] == self.toggle_notes[j] {
                    proof {
                        assert(self@.toggle_notes[i as int] == self@.toggle_notes[j as int]);
                    }
                    return false;
                }
            }
        }
        let nm = self.note_map.len();
        for i in 0..nm
            invariant
                nm == self.note_map@.len(),
                forall|a: int| 0 <= a < self@.toggle_notes.len() ==> #[trigger] self@.toggle_notes[a]
                    < NOTE_COUNT,
                forall|a: int, b: int|
                    0 <= a < b < self@.toggle_notes.len() ==> self@.toggle_notes[a]
                        != self@.toggle_notes[b],
                forall|a: int, k: int|
                    0 <= a < i && 0 <= k < self@.note_map[a].replacements.len()
                        ==> #[trigger] self@.note_map[a].replacements[k] < NOTE_COUNT,
        {
            let entry = &self.note_map[i];
            let rn = entry.new_note.len();
            for k in 0..rn
                invariant
                    nm == self.note_map@.len(),
                    i < nm,
                    rn == entry.new_note@.len(),
                    entry@ == self@.note_map[i as int],
                    forall|c: int| 0 <= c < k ==> #[trigger] entry.new_note@[c] < NOTE_COUNT,
            {
                if entry.new_note[k] >= NOTE_COUNT {
                    proof {
                        assert(self@.note_map[i as int].replacements[k as int] >= NOTE_COUNT);
                    }
                    return false;
                }
            }
        }
        let cm = self.control_map.len();
        for i in 0..cm
            invariant
                cm == self.control_map@.len(),
                forall|a: int| 0 <= a < self@.toggle_notes.len() ==> #[trigger] self@.toggle_notes[a]
                    < NOTE_COUNT,
                forall|a: int, b: int|
                    0 <= a < b < self@.toggle_notes.len() ==> self@.toggle_notes[a]
                        != self@.toggle_notes[b],
                forall|a: int, k: int|
                    0 <= a < self@.note_map.len() && 0 <= k < self@.note_map[a].replacements.len()
                        ==> #[trigger] self@.note_map[a].replacements[k] < NOTE_COUNT,
                forall|a: int, k: int|
                    0 <= a < i && 0 <= k < self@.control_map[a].replacements.len()
                        ==> #[trigger] self@.control_map[a].replacements[k] < NOTE_COUNT,
        {
            let entry = &self.control_map[i];
            let rn = entry.new_note.len();
            for k in 0..rn
                invariant
                    cm == self.control_map@.len(),
                    i < cm,
                    rn == entry.new_note@.len(),
                    entry@ == self@.control_map[i as int],
                    forall|c: int| 0 <= c < k ==> #[trigger] entry.new_note@[c] < NOTE_COUNT,
            {
                if entry.new_note[k] >= NOTE_COUNT {
                    proof {
                        assert(self@.control_map[i as int].replacements[k as int] >= NOTE_COUNT);
                    }
                    return false;
                }
            }
        }
        true
    }

    /// Whether sticky on/off semantics apply to `note`.
    pub fn is_toggle_note(&self, note: u8) -> (r: bool)
        ensures
            r == self@.toggle_notes.contains(note),
    {
        let n = self.toggle_notes.len();
        for i in 0..n
            invariant
                n == self.toggle_notes@.len(),
                forall|j: int| 0 <= j < i ==> self@.toggle_notes[j] != note,
        {
            if self.toggle_notes[i] == note {
                return true;
            }
        }
        false
    }

    /// The toggle note set, in its configured order.
    pub fn get_toggle_notes(&self) -> (r: &Vec<u8>)
        ensures
            r@ == self@.toggle_notes,
    {
        &self.toggle_notes
    }

    /// Remaps a note identifier for the given bank. An identifier no rule
    /// matches comes back unchanged, as does one whose rule has no
    /// replacement for this bank.
    pub fn remap_note(&self, bank: u8, note: u8) -> (r: u8)
        ensures
            r == remap_spec(self@.note_map, bank as int, note),
            !MappingModel::has_rule(self@.note_map, note) ==> r == note,
    {
        let n = self.note_map.len();
        proof {
            assert(self@.note_map.skip(0) =~= self@.note_map);
        }
        for i in 0..n
            invariant
                n == self.note_map@.len(),
                forall|j: int| 0 <= j < i ==> (#[trigger] self@.note_map[j]).id != note,
                remap_spec(self@.note_map, bank as int, note) == remap_spec(
                    self@.note_map.skip(i as int),
                    bank as int,
                    note,
                ),
        {
            proof {
                assert(self@.note_map.skip(i as int)[0] == self@.note_map[i as int]);
                assert(self@.note_map.skip(i as int).drop_first() =~= self@.note_map.skip(
                    i as int + 1,
                ));
            }
            let entry = &self.note_map[i];
            if entry.note == note {
                if (bank as usize) < entry.new_note.len() {
                    return entry.new_note[bank as usize];
                } else {
                    return note;
                }
            }
        }
        proof {
            assert(self@.note_map.skip(n as int).len() == 0);
        }
        note
    }

    /// Remaps a control identifier for the given bank, by the same rule
    /// shape as `remap_note` but over the control rules.
    pub fn remap_control(&self, bank: u8, control: u8) -> (r: u8)
        ensures
            r == remap_spec(self@.control_map, bank as int, control),
            !MappingModel::has_rule(self@.control_map, control) ==> r == control,
    {
        let n = self.control_map.len();
        proof {
            assert(self@.control_map.skip(0) =~= self@.control_map);
        }
        for i in 0..n
            invariant
                n == self.control_map@.len(),
                forall|j: int| 0 <= j < i ==> (#[trigger] self@.control_map[j]).id != control,
                remap_spec(self@.control_map, bank as int, control) == remap_spec(
                    self@.control_map.skip(i as int),
                    bank as int,
                    control,
                ),
        {
            proof {
                assert(self@.control_map.skip(i as int)[0] == self@.control_map[i as int]);
                assert(self@.control_map.skip(i as int).drop_first() =~= self@.control_map.skip(
                    i as int + 1,
                ));
            }
            let entry = &self.control_map[i];
            if entry.note == control {
                if (bank as usize) < entry.new_note.len() {
                    return entry.new_note[bank as usize];
                } else {
                    return control;
                }
            }
        }
        proof {
            assert(self@.control_map.skip(n as int).len() == 0);
        }
        control
    }
}

} // verus!
