//! A table of search results, found again by the hash of the position.
use vstd::prelude::*;

use crate::board::Position;

verus! {

/// The number of slots, each of two entries of 16 bytes: 32 MB in all.
const TT_SLOTS: usize = 1_048_576;

pub const TT_FLAG_NONE: u8 = 0;

pub const TT_FLAG_EXACT: u8 = 1;

/// The score is a lower bound.
pub const TT_FLAG_LOWER: u8 = 2;

/// The score is an upper bound.
pub const TT_FLAG_UPPER: u8 = 3;

/// One search result.
#[derive(Copy, Clone, Debug, PartialEq, Eq, Structural)]
pub struct TTEntry {
    pub key: u64,
    pub score: i32,
    pub depth: u8,
    pub flag: u8,
    /// 255 where no move is stored.
    pub best_row: u8,
    pub best_col: u8,
}

impl TTEntry {
    /// The entry of an unused place.
    pub open spec fn empty() -> TTEntry {
        TTEntry { key: 0, score: 0, depth: 0, flag: TT_FLAG_NONE, best_row: 255, best_col: 255 }
    }

    /// The stored move, if there is one.
    pub open spec fn best_move_spec(self) -> Option<Position> {
        if self.best_row == 255 {
            None
        } else {
            Some(Position { row: self.best_row as usize, column: self.best_col as usize })
        }
    }

    /// The stored move, if there is one.
    pub fn best_move(self) -> (r: Option<Position>)
        ensures
            r == self.best_move_spec(),
    {
        if self.best_row == 255 {
            None
        } else {
            Some(Position::new(self.best_row as usize, self.best_col as usize))
        }
    }
}

impl Default for TTEntry {
    fn default() -> (r: Self)
        ensures
            r == TTEntry::empty(),
    {
        TTEntry { key: 0, score: 0, depth: 0, flag: TT_FLAG_NONE, best_row: 255, best_col: 255 }
    }
}

/// Two tiers: the newest entry, and the deepest one.
#[derive(Copy, Clone, Debug, PartialEq, Eq, Structural)]
pub struct Slot {
    pub always: TTEntry,
    pub deep: TTEntry,
}

/// The slots of a table.
pub type Slots = Seq<Slot>;

/// The slot that `key` falls into.
pub open spec fn slot_of(key: u64) -> int {
    (key % 1_048_576) as int
}

/// `e` is in use and belongs to `key`.
pub open spec fn answers(e: TTEntry, key: u64) -> bool {
    e.flag != TT_FLAG_NONE && e.key == key
}

/// What a table holds for `key`: the newest entry if it belongs to `key`, else the deepest one if
/// that does.
pub open spec fn probed(slots: Slots, key: u64) -> Option<TTEntry> {
    let slot = slots[slot_of(key)];
    if answers(slot.always, key) {
        Some(slot.always)
    } else if answers(slot.deep, key) {
        Some(slot.deep)
    } else {
        None
    }
}

/// The entry for one search result.
pub open spec fn entry_of(key: u64, depth: u8, score: i32, flag: u8, best_move: Option<Position>) -> TTEntry {
    TTEntry {
        key,
        score,
        depth,
        flag,
        best_row: match best_move {
            Some(p) => p.row as u8,
            None => 255,
        },
        best_col: match best_move {
            Some(p) => p.column as u8,
            None => 255,
        },
    }
}

/// The slots after a result is stored: it always becomes the newest entry of its slot, and the
/// deepest one unless a deeper one is there.
pub open spec fn stored(slots: Slots, e: TTEntry) -> Slots {
    let slot = slots[slot_of(e.key)];
    slots.update(
        slot_of(e.key),
        Slot {
            always: e,
            deep: if slot.deep.flag == TT_FLAG_NONE || e.depth >= slot.deep.depth {
                e
            } else {
                slot.deep
            },
        },
    )
}

/// The slots of an empty table.
pub open spec fn empty_slots() -> Slots {
    Seq::new(1_048_576, |i: int| Slot { always: TTEntry::empty(), deep: TTEntry::empty() })
}

/// Every score of the table lies within a quarter of the range of `i32`.
pub open spec fn scores_bounded(slots: Slots) -> bool {
    forall|i: int|
        0 <= i < slots.len() ==> -536_870_911 <= (#[trigger] slots[i]).always.score <= 536_870_911
            && -536_870_911 <= slots[i].deep.score <= 536_870_911
}

pub struct TranspositionTable {
    slots: Vec<Slot>,
}

impl View for TranspositionTable {
    type V = Slots;

    closed spec fn view(&self) -> Slots {
        self.slots@
    }
}

impl TranspositionTable {
    #[verifier::type_invariant]
    spec fn has_every_slot(self) -> bool {
        self.slots@.len() == 1_048_576
    }

    /// The empty table.
    pub fn new() -> (t: Self)
        ensures
            t@ == empty_slots(),
    {
        let empty = Slot { always: TTEntry::default(), deep: TTEntry::default() };
        let slots: Vec<Slot> = vec![empty; TT_SLOTS];
        assert(slots@ =~= empty_slots());
        TranspositionTable { slots }
    }

    fn index(key: u64) -> (i: usize)
        ensures
            i == slot_of(key),
            i < 1_048_576,
    {
        let i: u64 = key & 1_048_575;
        assert(i == key % 1_048_576) by (bit_vector)
            requires
                i == key & 1_048_575,
        ;
        i as usize
    }

    /// What the table holds for `key`.
    pub fn probe(&self, key: u64) -> (r: Option<TTEntry>)
        ensures
            r == probed(self@, key),
            self@.len() == 1_048_576,
    {
        proof {
            use_type_invariant(self);
        }
        let slot = self.slots[Self::index(key)];
        if slot.always.flag != TT_FLAG_NONE && slot.always.key == key {
            return Some(slot.always);
        }
        if slot.deep.flag != TT_FLAG_NONE && slot.deep.key == key {
            return Some(slot.deep);
        }
        None
    }

    /// Stores a search result.
    pub fn store(&mut self, key: u64, depth: u8, score: i32, flag: u8, best_move: Option<Position>)
        ensures
            final(self)@ == stored(old(self)@, entry_of(key, depth, score, flag, best_move)),
            final(self)@.len() == old(self)@.len() == 1_048_576,
    {
        proof {
            use_type_invariant(&*self);
        }
        let i: usize = Self::index(key);
        let (best_row, best_col): (u8, u8) = match best_move {
            Some(p) => (
                #[verifier::truncate]
                (p.row as u8),
                #[verifier::truncate]
                (p.column as u8),
            ),
            None => (255, 255),
        };
        let entry = TTEntry { key, score, depth, flag, best_row, best_col };
        let existing = self.slots[i].deep;
        let deep = if existing.flag == TT_FLAG_NONE || depth >= existing.depth {
            entry
        } else {
            existing
        };
        self.slots[i] = Slot { always: entry, deep };
    }

    /// Empties the table.
    pub fn clear(&mut self)
        ensures
            final(self)@ == empty_slots(),
    {
        let empty = Slot { always: TTEntry::default(), deep: TTEntry::default() };
        let mut i: usize = 0;
        while i < TT_SLOTS
            invariant
                i <= 1_048_576,
                empty == (Slot { always: TTEntry::empty(), deep: TTEntry::empty() }),
                forall|k: int| 0 <= k < i ==> self@[k] == empty,
            decreases 1_048_576 - i,
        {
            proof {
                use_type_invariant(&*self);
            }
            let ghost before = self@;
            self.slots[i] = empty;
            assert(self@ =~= before.update(i as int, empty));
            i = i + 1;
        }
        proof {
            use_type_invariant(&*self);
        }
        assert(self@ =~= empty_slots());
    }
}

impl Default for TranspositionTable {
    fn default() -> (t: Self)
        ensures
            t@ == empty_slots(),
    {
        Self::new()
    }
}

/// What was stored last under a key is what a probe of that key finds.
pub proof fn law_probe_after_store(slots: Slots, e: TTEntry)
    requires
        slots.len() == 1_048_576,
        e.flag != TT_FLAG_NONE,
    ensures
        probed(stored(slots, e), e.key) == Some(e),
{
}

/// A stored move on the board is found again.
pub proof fn law_stored_move_is_found(key: u64, depth: u8, score: i32, flag: u8, p: Position)
    requires
        p.row < 255,
        p.column < 256,
    ensures
        entry_of(key, depth, score, flag, Some(p)).best_move_spec() == Some(p),
        entry_of(key, depth, score, flag, None).best_move_spec() is None,
{
}

/// A result stored under another key cannot be taken for the one asked for: a probe only ever
/// returns an entry in use that carries the key.
pub proof fn law_probe_never_confuses_keys(slots: Slots, key: u64)
    ensures
        probed(slots, key) is Some ==> answers(probed(slots, key)->0, key),
{
}

/// A shallower result leaves the deepest entry of its slot in place; one at least as deep
/// replaces it.
pub proof fn law_deeper_entry_stays(slots: Slots, e: TTEntry)
    requires
        slots.len() == 1_048_576,
        slots[slot_of(e.key)].deep.flag != TT_FLAG_NONE,
    ensures
        e.depth < slots[slot_of(e.key)].deep.depth ==> stored(slots, e)[slot_of(e.key)].deep
            == slots[slot_of(e.key)].deep,
        e.depth >= slots[slot_of(e.key)].deep.depth ==> stored(slots, e)[slot_of(e.key)].deep == e,
{
}

/// Storing touches one slot only.
pub proof fn law_store_keeps_other_slots(slots: Slots, e: TTEntry, key: u64)
    requires
        slots.len() == 1_048_576,
        slot_of(key) != slot_of(e.key),
    ensures
        probed(stored(slots, e), key) == probed(slots, key),
{
}

/// An empty table finds nothing.
pub proof fn law_empty_table_finds_nothing(key: u64)
    ensures
        probed(empty_slots(), key) is None,
        scores_bounded(empty_slots()),
{
}

} // verus!
