//! The manager's registry: the rooms by id, ids never repeated. The room
//! process handles themselves live with the process scheduler; the registry
//! keeps what a listing and a lookup need, at the index the caller uses to
//! reach the matching handle.
use vstd::prelude::*;

use crate::net::RoomInfo;

verus! {

/// What the registry records of one room.
pub struct RoomEntry {
    pub room_id: String,
    pub name: String,
    pub vs_bot: bool,
}

/// The mathematical image of a [`RoomEntry`].
pub struct RoomEntryModel {
    pub room_id: Seq<char>,
    pub name: Seq<char>,
    pub vs_bot: bool,
}

impl View for RoomEntry {
    type V = RoomEntryModel;

    open spec fn view(&self) -> RoomEntryModel {
        RoomEntryModel { room_id: self.room_id@, name: self.name@, vs_bot: self.vs_bot }
    }
}

impl RoomEntry {
    /// The listing line for this room, with the occupancy the caller read
    /// from the room itself.
    pub fn to_room_info(&self, players: u8) -> (r: RoomInfo)
        ensures
            r@.room_id == self@.room_id,
            r@.name == self@.name,
            r@.players == players,
            r@.vs_bot == self@.vs_bot,
    {
        RoomInfo {
            room_id: self.room_id.clone(),
            name: self.name.clone(),
            players,
            vs_bot: self.vs_bot,
        }
    }
}

/// The views of the registry's entries, in order.
pub open spec fn entries_view(v: Seq<RoomEntry>) -> Seq<RoomEntryModel> {
    Seq::new(v.len(), |i: int| v[i]@)
}

/// Some entry carries this id.
pub open spec fn spec_has_id(s: Seq<RoomEntryModel>, id: Seq<char>) -> bool {
    exists|i: int| 0 <= i < s.len() && (#[trigger] s[i]).room_id == id
}

/// The index of the entry carrying this id — single-valued wherever the ids
/// are distinct.
pub open spec fn spec_index_of(s: Seq<RoomEntryModel>, id: Seq<char>) -> int {
    choose|i: int| 0 <= i < s.len() && (#[trigger] s[i]).room_id == id
}

/// The registry of rooms.
pub struct Directory {
    pub entries: Vec<RoomEntry>,
}

impl View for Directory {
    type V = Seq<RoomEntryModel>;

    open spec fn view(&self) -> Seq<RoomEntryModel> {
        entries_view(self.entries@)
    }
}

impl Directory {
    /// No two entries answer to the same id.
    pub open spec fn wf(self) -> bool {
        forall|i: int, j: int|
            0 <= i < self@.len() && 0 <= j < self@.len() && i != j ==> (#[trigger] self@[i]).room_id
                != (#[trigger] self@[j]).room_id
    }

    /// An empty registry.
    pub fn new() -> (r: Directory)
        ensures
            r@ =~= Seq::<RoomEntryModel>::empty(),
            r.wf(),
    {
        Directory { entries: Vec::new() }
    }

    /// How many rooms are registered.
    pub fn len(&self) -> (r: usize)
        ensures
            r == self@.len(),
    {
        self.entries.len()
    }

    /// The entry at a known index.
    pub fn get(&self, i: usize) -> (r: &RoomEntry)
        requires
            i < self@.len(),
        ensures
            r@ == self@[i as int],
    {
        &self.entries[i]
    }

    /// The index answering to `room_id`: the first — with `wf`, the only —
    /// entry with that id, and `None` exactly when no entry has it.
    pub fn find(&self, room_id: &String) -> (r: Option<usize>)
        ensures
            r matches Some(i) ==> i < self@.len() && self@[i as int].room_id == room_id@ && (forall|
                k: int,
            | 0 <= k < i ==> (#[trigger] self@[k]).room_id != room_id@),
            r is None ==> !spec_has_id(self@, room_id@),
    {
        let mut i: usize = 0;
        while i < self.entries.len()
            invariant
                i <= self@.len(),
                self@.len() == self.entries@.len(),
                forall|k: int| 0 <= k < i ==> (#[trigger] self@[k]).room_id != room_id@,
            decreases self@.len() - i,
        {
            if self.entries[i].room_id == *room_id {
                return Some(i);
            }
            i += 1;
        }
        None
    }

    /// Record a room: a fresh id is appended, a repeated id replaces the
    /// entry that held it, as a map insertion would.
    pub fn insert(&mut self, entry: RoomEntry) -> (i: usize)
        requires
            old(self).wf(),
        ensures
            final(self).wf(),
            spec_has_id(old(self)@, entry@.room_id) ==> final(self)@ =~= old(self)@.update(
                spec_index_of(old(self)@, entry@.room_id),
                entry@,
            ) && i == spec_index_of(old(self)@, entry@.room_id),
            !spec_has_id(old(self)@, entry@.room_id) ==> final(self)@ =~= old(self)@.push(entry@)
                && i == old(self)@.len(),
    {
        let ghost m0 = self@;
        let ghost ev = entry@;
        match self.find(&entry.room_id) {
            Some(i) => {
                proof {
                    assert(m0[i as int].room_id == ev.room_id);
                    assert(spec_has_id(m0, ev.room_id));
                    let j = spec_index_of(m0, ev.room_id);
                    assert(0 <= j < m0.len() && m0[j].room_id == ev.room_id);
                    if j != i {
                        assert(m0[j].room_id != m0[i as int].room_id);
                        assert(false);
                    }
                }
                self.entries.set(i, entry);
                proof {
                    assert(self@ =~= m0.update(i as int, ev));
                    assert forall|a: int, b: int|
                        0 <= a < self@.len() && 0 <= b < self@.len() && a != b implies (
                    #[trigger] self@[a]).room_id != (#[trigger] self@[b]).room_id by {
                        assert(self@[a].room_id == m0[a].room_id);
                        assert(self@[b].room_id == m0[b].room_id);
                    }
                }
                i
            },
            None => {
                let i = self.entries.len();
                self.entries.push(entry);
                proof {
                    assert(self@ =~= m0.push(ev));
                }
                i
            },
        }
    }
}

} // verus!
