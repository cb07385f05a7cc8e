//! The authoritative state store of one router generation: a dense
//! per-bank, per-note toggle table, a matching table of last received
//! colors, and the single current-bank cell.

use vstd::prelude::*;
use crate::BANK_COUNT;
use crate::CHANNEL_COUNT;
use crate::NOTE_COUNT;

verus! {

/// Mathematical model of the state store.
pub ghost struct StateModel {
    /// Toggle state of every (bank, note) pair, all false at start.
    pub states: Seq<Seq<bool>>,
    /// Last received color of every (bank, note) pair, all zero at start.
    pub colors: Seq<Seq<u8>>,
    /// The currently selected bank.
    pub bank: u8,
}

impl StateModel {
    /// Both tables are fully populated for every valid (bank, note) pair,
    /// every stored color is a 7-bit velocity, and the current bank is a
    /// channel identifier.
    pub open spec fn wf(self) -> bool {
        &&& self.states.len() == BANK_COUNT
        &&& forall|b: int| 0 <= b < BANK_COUNT ==> (#[trigger] self.states[b]).len() == NOTE_COUNT
        &&& self.colors.len() == BANK_COUNT
        &&& forall|b: int| 0 <= b < BANK_COUNT ==> (#[trigger] self.colors[b]).len() == NOTE_COUNT
        &&& forall|b: int, n: int|
            0 <= b < BANK_COUNT && 0 <= n < NOTE_COUNT ==> #[trigger] self.colors[b][n]
                < NOTE_COUNT
        &&& self.bank < CHANNEL_COUNT
    }

    /// The fresh store every generation starts from.
    pub open spec fn initial() -> StateModel {
        StateModel {
            states: Seq::new(BANK_COUNT as nat, |b: int| Seq::new(NOTE_COUNT as nat, |n: int| false)),
            colors: Seq::new(BANK_COUNT as nat, |b: int| Seq::new(NOTE_COUNT as nat, |n: int| 0u8)),
            bank: 0,
        }
    }

    /// The model with one toggle entry replaced.
    pub open spec fn with_state(self, bank: int, note: int, v: bool) -> StateModel {
        StateModel { states: self.states.update(bank, self.states[bank].update(note, v)), ..self }
    }

    /// The model with one color entry replaced.
    pub open spec fn with_color(self, bank: int, note: int, c: u8) -> StateModel {
        StateModel { colors: self.colors.update(bank, self.colors[bank].update(note, c)), ..self }
    }

    /// The model with another current bank.
    pub open spec fn with_bank(self, bank: u8) -> StateModel {
        StateModel { bank, ..self }
    }
}

/// Whether (bank, note) falls inside the dense tables.
pub open spec fn in_table(bank: u8, note: u8) -> bool {
    bank < BANK_COUNT && note < NOTE_COUNT
}

/// A lookup or mutation was asked for outside the dense table bounds.
/// Defensive: validated input domains never produce it for banks 0-8.
#[derive(Clone, Copy, Debug, PartialEq, Eq, Structural)]
pub struct OutOfRangeError {
    pub bank: u8,
    pub note: u8,
}

/// The single source of truth for toggle state, colors and the current
/// bank. All access is serialized by the caller; the store itself is a
/// plain sequential structure.
pub struct StateManager {
    states: Vec<Vec<bool>>,
    colors: Vec<Vec<u8>>,
    current_bank: u8,
}

impl View for StateManager {
    type V = StateModel;

    closed spec fn view(&self) -> StateModel {
        StateModel {
            states: Seq::new(self.states@.len(), |b: int| self.states@[b]@),
            colors: Seq::new(self.colors@.len(), |b: int| self.colors@[b]@),
            bank: self.current_bank,
        }
    }
}

impl StateManager {
    /// Relates the well-formedness of the model to the lengths of the
    /// underlying vectors, so that the methods may index them.
    proof fn lemma_dims(&self)
        requires
            self@.wf(),
        ensures
            self.states@.len() == BANK_COUNT,
            self.colors@.len() == BANK_COUNT,
            forall|b: int| 0 <= b < BANK_COUNT ==> (#[trigger] self.states@[b])@.len()
                == NOTE_COUNT,
            forall|b: int| 0 <= b < BANK_COUNT ==> (#[trigger] self.colors@[b])@.len()
                == NOTE_COUNT,
    {
        assert forall|b: int| 0 <= b < BANK_COUNT implies (#[trigger] self.states@[b])@.len()
            == NOTE_COUNT by {
            assert(self@.states[b] == self.states@[b]@);
        }
        assert forall|b: int| 0 <= b < BANK_COUNT implies (#[trigger] self.colors@[b])@.len()
            == NOTE_COUNT by {
            assert(self@.colors[b] == self.colors@[b]@);
        }
    }

    /// Creates the all-false, all-zero store with bank 0 current.
    pub fn new() -> (r: StateManager)
        ensures
            r@ == StateModel::initial(),
            r@.wf(),
    {
        let mut states: Vec<Vec<bool>> = Vec::new();
        let mut colors: Vec<Vec<u8>> = Vec::new();
        for b in 0..BANK_COUNT as usize
            invariant
                states@.len() == b,
                colors@.len() == b,
                forall|i: int| 0 <= i < b ==> (#[trigger] states@[i])@ =~= Seq::new(
                    NOTE_COUNT as nat,
                    |n: int| false,
                ),
                forall|i: int| 0 <= i < b ==> (#[trigger] colors@[i])@ =~= Seq::new(
                    NOTE_COUNT as nat,
                    |n: int| 0u8,
                ),
        {
            let row_s: Vec<bool> = vec![false; NOTE_COUNT as usize];
            let row_c: Vec<u8> = vec![0u8; NOTE_COUNT as usize];
            proof {
                assert(row_s@ =~= Seq::new(NOTE_COUNT as nat, |n: int| false));
                assert(row_c@ =~= Seq::new(NOTE_COUNT as nat, |n: int| 0u8));
            }
            states.push(row_s);
            colors.push(row_c);
        }
        let r = StateManager { states, colors, current_bank: 0 };
        proof {
            assert(r@.states =~= StateModel::initial().states);
            assert(r@.colors =~= StateModel::initial().colors);
        }
        r
    }

    /// The currently selected bank.
    pub fn get_current_bank(&self) -> (r: u8)
        ensures
            r == self@.bank,
    {
        self.current_bank
    }

    /// Selects another current bank; the tables are untouched.
    pub fn set_current_bank(&mut self, bank: u8)
        requires
            bank < CHANNEL_COUNT,
        ensures
            final(self)@ == old(self)@.with_bank(bank),
    {
        self.current_bank = bank;
    }

    /// Flips the stored toggle state of (bank, note). Entries of every
    /// other (bank, note) pair, all colors and the current bank are
    /// unchanged; out-of-range input changes nothing and is reported.
    pub fn toggle_note_state(&mut self, bank: u8, note: u8) -> (r: Result<(), OutOfRangeError>)
        requires
            old(self)@.wf(),
        ensures
            final(self)@.wf(),
            in_table(bank, note) ==> r is Ok && final(self)@ == old(self)@.with_state(
                bank as int,
                note as int,
                !old(self)@.states[bank as int][note as int],
            ),
            !in_table(bank, note) ==> r == Err::<(), OutOfRangeError>(
                OutOfRangeError { bank, note },
            ) && final(self)@ == old(self)@,
            forall|b: int, n: int|
                0 <= b < BANK_COUNT && 0 <= n < NOTE_COUNT && !(b == bank as int && n == note as int)
                    ==> final(self)@.states[b][n] == old(self)@.states[b][n],
            final(self)@.colors == old(self)@.colors,
            final(self)@.bank == old(self)@.bank,
    {
        if bank < BANK_COUNT && note < NOTE_COUNT {
            proof { self.lemma_dims(); }
            let cur = self.states[bank as usize][note as usize];
            self.states[bank as usize][note as usize] = !cur;
            proof {
                assert(self@.states =~= old(self)@.states.update(
                    bank as int,
                    old(self)@.states[bank as int].update(note as int, !old(self)@.states[bank as int][note as int]),
                ));
                assert(self@.colors =~= old(self)@.colors);
            }
            Ok(())
        } else {
            Err(OutOfRangeError { bank, note })
        }
    }

    /// Stores a toggle state for (bank, note), with the same frame
    /// conditions as `toggle_note_state`.
    pub fn set_note_state(&mut self, bank: u8, note: u8, new_state: bool) -> (r: Result<
        (),
        OutOfRangeError,
    >)
        requires
            old(self)@.wf(),
        ensures
            final(self)@.wf(),
            in_table(bank, note) ==> r is Ok && final(self)@ == old(self)@.with_state(
                bank as int,
                note as int,
                new_state,
            ),
            !in_table(bank, note) ==> r == Err::<(), OutOfRangeError>(
                OutOfRangeError { bank, note },
            ) && final(self)@ == old(self)@,
            forall|b: int, n: int|
                0 <= b < BANK_COUNT && 0 <= n < NOTE_COUNT && !(b == bank as int && n == note as int)
                    ==> final(self)@.states[b][n] == old(self)@.states[b][n],
            final(self)@.colors == old(self)@.colors,
            final(self)@.bank == old(self)@.bank,
    {
        if bank < BANK_COUNT && note < NOTE_COUNT {
            proof { self.lemma_dims(); }
            self.states[bank as usize][note as usize] = new_state;
            proof {
                assert(self@.states =~= old(self)@.states.update(
                    bank as int,
                    old(self)@.states[bank as int].update(note as int, new_state),
                ));
                assert(self@.colors =~= old(self)@.colors);
            }
            Ok(())
        } else {
            Err(OutOfRangeError { bank, note })
        }
    }

    /// Stores a color for (bank, note). Entries of every other pair, all
    /// toggle states and the current bank are unchanged; out-of-range
    /// input changes nothing and is reported.
    pub fn set_note_color(&mut self, bank: u8, note: u8, new_color: u8) -> (r: Result<
        (),
        OutOfRangeError,
    >)
        requires
            old(self)@.wf(),
            new_color < NOTE_COUNT,
        ensures
            final(self)@.wf(),
            in_table(bank, note) ==> r is Ok && final(self)@ == old(self)@.with_color(
                bank as int,
                note as int,
                new_color,
            ),
            !in_table(bank, note) ==> r == Err::<(), OutOfRangeError>(
                OutOfRangeError { bank, note },
            ) && final(self)@ == old(self)@,
            forall|b: int, n: int|
                0 <= b < BANK_COUNT && 0 <= n < NOTE_COUNT && !(b == bank as int && n == note as int)
                    ==> final(self)@.colors[b][n] == old(self)@.colors[b][n],
            final(self)@.states == old(self)@.states,
            final(self)@.bank == old(self)@.bank,
    {
        if bank < BANK_COUNT && note < NOTE_COUNT {
            proof { self.lemma_dims(); }
            self.colors[bank as usize][note as usize] = new_color;
            proof {
                assert(self@.colors =~= old(self)@.colors.update(
                    bank as int,
                    old(self)@.colors[bank as int].update(note as int, new_color),
                ));
                assert(self@.states =~= old(self)@.states);
            }
            Ok(())
        } else {
            Err(OutOfRangeError { bank, note })
        }
    }

    /// Reads the stored toggle state and color of (bank, note).
    pub fn get_note_state_and_color(&self, bank: u8, note: u8) -> (r: Result<
        (bool, u8),
        OutOfRangeError,
    >)
        requires
            self@.wf(),
        ensures
            in_table(bank, note) ==> r == Ok::<(bool, u8), OutOfRangeError>(
                (self@.states[bank as int][note as int], self@.colors[bank as int][note as int]),
            ),
            !in_table(bank, note) ==> r == Err::<(bool, u8), OutOfRangeError>(
                OutOfRangeError { bank, note },
            ),
    {
        if bank < BANK_COUNT && note < NOTE_COUNT {
            proof { self.lemma_dims(); }
            Ok((self.states[bank as usize][note as usize], self.colors[bank as usize][note as usize]))
        } else {
            Err(OutOfRangeError { bank, note })
        }
    }
}

} // verus!
