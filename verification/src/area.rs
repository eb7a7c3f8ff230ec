//! Rooms: spatial containers with an area capacity and a current occupancy.

use vstd::prelude::*;
use crate::common::Tier;
use crate::state::Colony;
use crate::state::MAX_AREA;
use crate::state::MAX_ROOM_OCCUPIED;

verus! {

/// What a room is for.
#[derive(PartialEq, Eq, Clone, Copy, Debug, Structural)]
pub enum AreaType {
    Living,
    Science,
    Military,
    Industrial,
    Party,
}

/// Capacity of a room, in area units.
#[derive(Clone, Copy, Debug, PartialEq, Eq, Structural)]
pub struct AreaCapacity(pub usize);

/// Occupied area, in area units.
#[derive(Clone, Copy, Debug, PartialEq, Eq, Structural)]
pub struct AreaOccupied(pub usize);

/// Reference to the room an entity stands in: an index into the colony's
/// room table.
#[derive(Clone, Copy, Debug, PartialEq, Eq, Structural)]
pub struct BelongsToRoom(pub usize);

/// A sealed room of the block: purpose, total area, and the area its
/// occupants (stationaries, colonists, floor boxes) currently take.
/// Occupancy above capacity is tolerated transiently (colonists may be
/// assigned without an area check); every placement of equipment or storage
/// is gated by a free-space check.
#[derive(Clone, Copy, Debug, PartialEq, Eq, Structural)]
pub struct Room {
    pub purpose: AreaType,
    pub tier: Tier,
    pub capacity: AreaCapacity,
    pub occupied: AreaOccupied,
}

impl Room {
    /// Machine bounds every room respects.
    pub open spec fn wf(self) -> bool {
        self.capacity.0 <= MAX_AREA && self.occupied.0 <= MAX_ROOM_OCCUPIED
    }

    /// Free area of the room, possibly negative.
    pub open spec fn free_space(self) -> int {
        self.capacity.0 - self.occupied.0
    }

    /// Whether something of size `need` fits into this room and the room
    /// serves the given purpose.
    pub open spec fn fits(self, need: int, purpose: AreaType) -> bool {
        self.purpose == purpose && self.occupied.0 <= self.capacity.0
            && self.free_space() >= need
    }
}

/// How much area is left in the room; negative when occupants exceed
/// capacity.
pub fn get_room_free_space(colony: &Colony, room: usize) -> (free: i32)
    requires
        room < colony.rooms@.len(),
        colony.rooms@[room as int].wf(),
    ensures
        free as int == colony.rooms@[room as int].free_space(),
{
    let capacity = colony.rooms[room].capacity.0;
    let occupied = colony.rooms[room].occupied.0;
    capacity as i32 - occupied as i32
}

/// The most occupied room of the given purpose that still has at least
/// `for_.0` area units free; ties go to the lowest room index so the choice
/// is deterministic. `None` when no room of that purpose fits the request.
pub fn get_sufficent_room(colony: &Colony, for_: AreaOccupied, type_: AreaType) -> (ret: Option<
    usize,
>)
    ensures
        match ret {
            Some(j) => {
                &&& j < colony.rooms@.len()
                &&& colony.rooms@[j as int].fits(for_.0 as int, type_)
                &&& forall|k: int|
                    0 <= k < colony.rooms@.len() && colony.rooms@[k].fits(for_.0 as int, type_)
                        ==> colony.rooms@[k].occupied.0 <= colony.rooms@[j as int].occupied.0
                &&& forall|k: int|
                    0 <= k < j ==> !(colony.rooms@[k].fits(for_.0 as int, type_)
                        && colony.rooms@[k].occupied.0 == colony.rooms@[j as int].occupied.0)
            },
            None => forall|k: int|
                0 <= k < colony.rooms@.len() ==> !colony.rooms@[k].fits(for_.0 as int, type_),
        },
{
    find_sufficient_room(&colony.rooms, for_, type_)
}

/// The room scan behind `get_sufficent_room`, over the bare room table.
pub(crate) fn find_sufficient_room(rooms: &Vec<Room>, for_: AreaOccupied, type_: AreaType) -> (ret:
    Option<usize>)
    ensures
        match ret {
            Some(j) => {
                &&& j < rooms@.len()
                &&& rooms@[j as int].fits(for_.0 as int, type_)
                &&& forall|k: int|
                    0 <= k < rooms@.len() && rooms@[k].fits(for_.0 as int, type_)
                        ==> rooms@[k].occupied.0 <= rooms@[j as int].occupied.0
                &&& forall|k: int|
                    0 <= k < j ==> !(rooms@[k].fits(for_.0 as int, type_)
                        && rooms@[k].occupied.0 == rooms@[j as int].occupied.0)
            },
            None => forall|k: int|
                0 <= k < rooms@.len() ==> !rooms@[k].fits(for_.0 as int, type_),
        },
{
    let mut best: Option<usize> = None;
    let mut i: usize = 0;
    while i < rooms.len()
        invariant
            i <= rooms@.len(),
            match best {
                Some(j) => {
                    &&& j < i
                    &&& rooms@[j as int].fits(for_.0 as int, type_)
                    &&& forall|k: int|
                        0 <= k < i && rooms@[k].fits(for_.0 as int, type_) ==> rooms@[k].occupied.0
                            <= rooms@[j as int].occupied.0
                    &&& forall|k: int|
                        0 <= k < j ==> !(rooms@[k].fits(for_.0 as int, type_)
                            && rooms@[k].occupied.0 == rooms@[j as int].occupied.0)
                },
                None => forall|k: int| 0 <= k < i ==> !rooms@[k].fits(for_.0 as int, type_),
            },
        decreases rooms@.len() - i,
    {
        let room = rooms[i];
        let eligible = room.purpose == type_ && room.occupied.0 <= room.capacity.0
            && room.capacity.0 - room.occupied.0 >= for_.0;
        if eligible {
            match best {
                None => {
                    best = Some(i);
                },
                Some(j) => {
                    if room.occupied.0 > rooms[j].occupied.0 {
                        best = Some(i);
                    }
                },
            }
        }
        i = i + 1;
    }
    best
}

} // verus!
