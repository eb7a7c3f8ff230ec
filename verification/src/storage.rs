//! The storage engine: shelves, barrels and floor boxes, the packing
//! algorithm that fills them, and the write-off algorithm that drains them.
//!
//! Every container holds at most one resource kind at a time and a volume
//! counter. A container's occupied volume is always a whole number of units
//! of the resource it is tagged with; write-offs and availability checks
//! rest on that invariant.

use vstd::prelude::*;
use crate::area::AreaOccupied;
use crate::area::AreaType;
use crate::area::BelongsToRoom;
use crate::area::Room;
use crate::common::SamosborError;
use crate::resources::Resource;
use crate::state::Colony;
use crate::state::CONTAINER_LIMIT;

verus! {

/// Capacity of a container, in volume units.
#[derive(Clone, Copy, Debug, PartialEq, Eq, Structural)]
pub struct VolumeCapacity(pub usize);

/// Occupied volume, in volume units.
#[derive(Clone, Copy, Debug, PartialEq, Eq, Structural)]
pub struct VolumeOccupied(pub usize);

/// An amount of resource, in real units.
#[derive(Clone, Copy, Debug, PartialEq, Eq, PartialOrd, Ord, Structural)]
pub struct RealUnits(pub usize);

/// Volume every container offers, shelf, barrel and floor box alike.
pub const CONTAINER_VOLUME: usize = 1000;

/// Area units a floor box takes in its room.
pub const CONTAINER_SIZE: usize = 5;

/// Storage class of a resource: solids go to shelves and the floor, fluids
/// to barrels only.
#[derive(Clone, Copy, Debug, PartialEq, Eq, Structural)]
pub enum StorageType {
    Solid,
    Fluid,
}

/// A shelf on a rack. Reusable: an emptied shelf loses its resource tag but
/// persists. Takes no room area.
#[derive(Clone, Copy, Debug, PartialEq, Eq, Structural)]
pub struct Shelf {
    pub resource: Option<Resource>,
    pub occupied: VolumeOccupied,
}

/// A storage barrel for fluids. Reusable like a shelf.
#[derive(Clone, Copy, Debug, PartialEq, Eq, Structural)]
pub struct Barrel {
    pub resource: Option<Resource>,
    pub occupied: VolumeOccupied,
}

/// A box on the floor of a room. Created on shelf overflow, destroyed once
/// emptied; takes `CONTAINER_SIZE` area units of its room while it exists.
#[derive(Clone, Copy, Debug, PartialEq, Eq, Structural)]
pub struct FloorBox {
    pub resource: Resource,
    pub occupied: VolumeOccupied,
    pub room: BelongsToRoom,
}

/// Storage class of a resource.
pub fn container_type(resource: Resource) -> (ret: StorageType)
    ensures
        ret == spec_container_type(resource),
{
    match resource {
        Resource::BioRawT1 => StorageType::Solid,
        Resource::BioRawT2 => StorageType::Solid,
        Resource::BioRawT3 => StorageType::Solid,
        Resource::ScrapT1 => StorageType::Solid,
        Resource::ScrapT2 => StorageType::Solid,
        Resource::ScrapT3 => StorageType::Solid,
        Resource::Concrete => StorageType::Solid,
        Resource::IsoConcrente => StorageType::Solid,
        Resource::TransparentSlime => StorageType::Fluid,
        Resource::BlackSlime => StorageType::Fluid,
        Resource::BrownSlime => StorageType::Fluid,
        Resource::RedSlime => StorageType::Fluid,
        Resource::PinkSlime => StorageType::Fluid,
        Resource::WhiteSlime => StorageType::Fluid,
        Resource::ComponentT1 => StorageType::Solid,
        Resource::ComponentT2 => StorageType::Solid,
        Resource::ComponentT3 => StorageType::Solid,
        Resource::ReagentT1 => StorageType::Solid,
        Resource::ReagentT2 => StorageType::Solid,
        Resource::ReagentT3 => StorageType::Solid,
        Resource::PolymerT1 => StorageType::Solid,
        Resource::PolymerT2 => StorageType::Solid,
        Resource::PolymerT3 => StorageType::Solid,
        Resource::ConcentratT1 => StorageType::Solid,
        Resource::ConcentratT2 => StorageType::Solid,
        Resource::ConcentratT3 => StorageType::Solid,
    }
}

/// Spec-level table of `container_type`.
pub open spec fn spec_container_type(resource: Resource) -> StorageType {
    match resource {
        Resource::TransparentSlime => StorageType::Fluid,
        Resource::BlackSlime => StorageType::Fluid,
        Resource::BrownSlime => StorageType::Fluid,
        Resource::RedSlime => StorageType::Fluid,
        Resource::PinkSlime => StorageType::Fluid,
        Resource::WhiteSlime => StorageType::Fluid,
        _ => StorageType::Solid,
    }
}

/// Volume units one real unit of the resource takes.
pub fn piece_size(resource: Resource) -> (ret: VolumeOccupied)
    ensures
        ret.0 == spec_piece_size(resource),
{
    match resource {
        Resource::BioRawT1 => VolumeOccupied(100),
        Resource::BioRawT2 => VolumeOccupied(100),
        Resource::BioRawT3 => VolumeOccupied(100),
        Resource::ScrapT1 => VolumeOccupied(100),
        Resource::ScrapT2 => VolumeOccupied(100),
        Resource::ScrapT3 => VolumeOccupied(100),
        Resource::Concrete => VolumeOccupied(1000),
        Resource::IsoConcrente => VolumeOccupied(100),
        Resource::TransparentSlime => VolumeOccupied(50),
        Resource::BlackSlime => VolumeOccupied(50),
        Resource::BrownSlime => VolumeOccupied(50),
        Resource::RedSlime => VolumeOccupied(50),
        Resource::PinkSlime => VolumeOccupied(50),
        Resource::WhiteSlime => VolumeOccupied(50),
        Resource::ComponentT1 => VolumeOccupied(100),
        Resource::ComponentT2 => VolumeOccupied(100),
        Resource::ComponentT3 => VolumeOccupied(100),
        Resource::ReagentT1 => VolumeOccupied(100),
        Resource::ReagentT2 => VolumeOccupied(100),
        Resource::ReagentT3 => VolumeOccupied(100),
        Resource::PolymerT1 => VolumeOccupied(10),
        Resource::PolymerT2 => VolumeOccupied(10),
        Resource::PolymerT3 => VolumeOccupied(10),
        Resource::ConcentratT1 => VolumeOccupied(1),
        Resource::ConcentratT2 => VolumeOccupied(1),
        Resource::ConcentratT3 => VolumeOccupied(1),
    }
}

/// Spec-level table of `piece_size`.
pub open spec fn spec_piece_size(resource: Resource) -> int {
    match resource {
        Resource::Concrete => 1000,
        Resource::TransparentSlime => 50,
        Resource::BlackSlime => 50,
        Resource::BrownSlime => 50,
        Resource::RedSlime => 50,
        Resource::PinkSlime => 50,
        Resource::WhiteSlime => 50,
        Resource::PolymerT1 => 10,
        Resource::PolymerT2 => 10,
        Resource::PolymerT3 => 10,
        Resource::ConcentratT1 => 1,
        Resource::ConcentratT2 => 1,
        Resource::ConcentratT3 => 1,
        _ => 100,
    }
}

/// Every piece size is positive and divides the container volume, so a full
/// container always holds a whole number of units.
proof fn lemma_piece_size_divides(resource: Resource)
    ensures
        1 <= spec_piece_size(resource) <= CONTAINER_VOLUME,
        (CONTAINER_VOLUME as int) % spec_piece_size(resource) == 0,
{
}

/// Volume needed to store this many units of the resource.
pub fn real2volume(resource: Resource, amount: RealUnits) -> (ret: VolumeOccupied)
    requires
        amount.0 * spec_piece_size(resource) <= usize::MAX,
    ensures
        ret.0 == amount.0 * spec_piece_size(resource),
{
    let size = piece_size(resource);
    proof {
        assert(amount.0 * size.0 == size.0 * amount.0) by (nonlinear_arith);
    }
    VolumeOccupied(size.0 * amount.0)
}

/// How many whole units of the resource fit in this volume; a fractional
/// remainder is lost.
pub fn volume2real(resource: Resource, volume: VolumeOccupied) -> (ret: RealUnits)
    ensures
        ret.0 == volume.0 as int / spec_piece_size(resource),
{
    let size = piece_size(resource);
    proof {
        lemma_piece_size_divides(resource);
    }
    RealUnits(volume.0 / size.0)
}

/// A shelf or barrel is well-formed when its volume counter stays within the
/// container, it is tagged exactly while it holds something, and what it
/// holds is a whole number of units of its resource.
pub open spec fn wf_bin(resource: Option<Resource>, occupied: int) -> bool {
    &&& 0 <= occupied <= CONTAINER_VOLUME
    &&& (resource is Some <==> occupied > 0)
    &&& (resource is Some ==> occupied % spec_piece_size(resource->0) == 0)
}

impl Shelf {
    /// Well-formedness of one shelf.
    pub open spec fn wf(self) -> bool {
        wf_bin(self.resource, self.occupied.0 as int)
    }
}

impl Barrel {
    /// Well-formedness of one barrel.
    pub open spec fn wf(self) -> bool {
        wf_bin(self.resource, self.occupied.0 as int)
    }
}

impl FloorBox {
    /// A floor box is never empty (an emptied box is destroyed), holds a
    /// whole number of units, and stands in an existing room.
    pub open spec fn wf(self, n_rooms: int) -> bool {
        &&& 0 < self.occupied.0 <= CONTAINER_VOLUME
        &&& self.occupied.0 as int % spec_piece_size(self.resource) == 0
        &&& (self.room.0 as int) < n_rooms
    }
}

/// Volume of the given resource held by the shelves.
pub open spec fn shelves_volume(s: Seq<Shelf>, r: Resource) -> int
    decreases s.len(),
{
    if s.len() == 0 {
        0
    } else {
        shelves_volume(s.drop_last(), r) + if s.last().resource == Some(r) {
            s.last().occupied.0 as int
        } else {
            0
        }
    }
}

/// Volume of the given resource held by the barrels.
pub open spec fn barrels_volume(s: Seq<Barrel>, r: Resource) -> int
    decreases s.len(),
{
    if s.len() == 0 {
        0
    } else {
        barrels_volume(s.drop_last(), r) + if s.last().resource == Some(r) {
            s.last().occupied.0 as int
        } else {
            0
        }
    }
}

/// Volume of the given resource held by the floor boxes.
pub open spec fn boxes_volume(s: Seq<FloorBox>, r: Resource) -> int
    decreases s.len(),
{
    if s.len() == 0 {
        0
    } else {
        boxes_volume(s.drop_last(), r) + if s.last().resource == r {
            s.last().occupied.0 as int
        } else {
            0
        }
    }
}

/// Total volume of the given resource across all containers of the colony.
pub open spec fn total_volume(c: Colony, r: Resource) -> int {
    shelves_volume(c.shelves@, r) + barrels_volume(c.barrels@, r) + boxes_volume(c.floor_boxes@, r)
}

/// Whole units of the given resource the colony holds.
pub open spec fn spec_units_of(c: Colony, r: Resource) -> int {
    total_volume(c, r) / spec_piece_size(r)
}

/// Whether the colony holds at least `amount` units of the resource.
pub open spec fn spec_have_enough(c: Colony, r: Resource, amount: int) -> bool {
    spec_units_of(c, r) >= amount
}

/// Number of untagged shelves, each able to take a full container volume.
pub open spec fn empty_shelves(s: Seq<Shelf>) -> int
    decreases s.len(),
{
    if s.len() == 0 {
        0
    } else {
        empty_shelves(s.drop_last()) + if s.last().resource is None {
            1int
        } else {
            0int
        }
    }
}

/// Number of untagged barrels.
pub open spec fn empty_barrels(s: Seq<Barrel>) -> int
    decreases s.len(),
{
    if s.len() == 0 {
        0
    } else {
        empty_barrels(s.drop_last()) + if s.last().resource is None {
            1int
        } else {
            0int
        }
    }
}

/// Floor boxes that still fit into the rooms of the block: the sum over
/// party rooms of how many `CONTAINER_SIZE` footprints their free area
/// holds.
pub open spec fn party_slots(rooms: Seq<Room>) -> int
    decreases rooms.len(),
{
    if rooms.len() == 0 {
        0
    } else {
        party_slots(rooms.drop_last()) + room_slots(rooms.last())
    }
}

/// Floor box footprints that fit into one room, zero unless the room is a
/// party room with free area.
pub open spec fn room_slots(room: Room) -> int {
    if room.purpose == AreaType::Party && room.occupied.0 <= room.capacity.0 {
        (room.capacity.0 - room.occupied.0) / (CONTAINER_SIZE as int)
    } else {
        0
    }
}

/// Units of a solid resource the colony can still take: full container
/// volumes on every untagged shelf plus one per floor box footprint that
/// fits in a party room.
pub open spec fn free_solid_units(c: Colony, r: Resource) -> int {
    (empty_shelves(c.shelves@) + party_slots(c.rooms@)) * (CONTAINER_VOLUME as int
        / spec_piece_size(r))
}

/// Units of a fluid resource the colony can still take: full container
/// volumes on every untagged barrel.
pub open spec fn free_fluid_units(c: Colony, r: Resource) -> int {
    empty_barrels(c.barrels@) * (CONTAINER_VOLUME as int / spec_piece_size(r))
}

/// Units of the resource a full container holds.
pub open spec fn cap_units(r: Resource) -> int {
    CONTAINER_VOLUME as int / spec_piece_size(r)
}

/// A full container holds between one and a thousand units, and exactly
/// fills its volume.
proof fn lemma_cap_units(r: Resource)
    ensures
        1 <= cap_units(r) <= CONTAINER_VOLUME,
        cap_units(r) * spec_piece_size(r) == CONTAINER_VOLUME,
{
    lemma_piece_size_divides(r);
    vstd::arithmetic::div_mod::lemma_fundamental_div_mod(
        CONTAINER_VOLUME as int,
        spec_piece_size(r),
    );
    assert(1 <= cap_units(r) <= CONTAINER_VOLUME) by (nonlinear_arith)
        requires
            cap_units(r) * spec_piece_size(r) == CONTAINER_VOLUME,
            1 <= spec_piece_size(r) <= CONTAINER_VOLUME,
    ;
}

/// Contribution of one shelf to the stored volume of a resource.
pub open spec fn shelf_part(sh: Shelf, r: Resource) -> int {
    if sh.resource == Some(r) {
        sh.occupied.0 as int
    } else {
        0
    }
}

/// Contribution of one barrel to the stored volume of a resource.
pub open spec fn barrel_part(b: Barrel, r: Resource) -> int {
    if b.resource == Some(r) {
        b.occupied.0 as int
    } else {
        0
    }
}

/// Contribution of one floor box to the stored volume of a resource.
pub open spec fn box_part(b: FloorBox, r: Resource) -> int {
    if b.resource == r {
        b.occupied.0 as int
    } else {
        0
    }
}

/// One when the shelf is untagged, else zero.
pub open spec fn empty_one_shelf(sh: Shelf) -> int {
    if sh.resource is None {
        1
    } else {
        0
    }
}

/// One when the barrel is untagged, else zero.
pub open spec fn empty_one_barrel(b: Barrel) -> int {
    if b.resource is None {
        1
    } else {
        0
    }
}

proof fn lemma_shelves_volume_nonneg(s: Seq<Shelf>, r: Resource)
    ensures
        shelves_volume(s, r) >= 0,
    decreases s.len(),
{
    if s.len() > 0 {
        lemma_shelves_volume_nonneg(s.drop_last(), r);
    }
}

proof fn lemma_barrels_volume_nonneg(s: Seq<Barrel>, r: Resource)
    ensures
        barrels_volume(s, r) >= 0,
    decreases s.len(),
{
    if s.len() > 0 {
        lemma_barrels_volume_nonneg(s.drop_last(), r);
    }
}

proof fn lemma_boxes_volume_nonneg(s: Seq<FloorBox>, r: Resource)
    ensures
        boxes_volume(s, r) >= 0,
    decreases s.len(),
{
    if s.len() > 0 {
        lemma_boxes_volume_nonneg(s.drop_last(), r);
    }
}

proof fn lemma_shelves_volume_update(s: Seq<Shelf>, i: int, v: Shelf, r: Resource)
    requires
        0 <= i < s.len(),
    ensures
        shelves_volume(s.update(i, v), r) == shelves_volume(s, r) - shelf_part(s[i], r)
            + shelf_part(v, r),
    decreases s.len(),
{
    let su = s.update(i, v);
    if i == s.len() - 1 {
        assert(su.drop_last() =~= s.drop_last());
    } else {
        assert(su.drop_last() =~= s.drop_last().update(i, v));
        lemma_shelves_volume_update(s.drop_last(), i, v, r);
    }
}

proof fn lemma_barrels_volume_update(s: Seq<Barrel>, i: int, v: Barrel, r: Resource)
    requires
        0 <= i < s.len(),
    ensures
        barrels_volume(s.update(i, v), r) == barrels_volume(s, r) - barrel_part(s[i], r)
            + barrel_part(v, r),
    decreases s.len(),
{
    let su = s.update(i, v);
    if i == s.len() - 1 {
        assert(su.drop_last() =~= s.drop_last());
    } else {
        assert(su.drop_last() =~= s.drop_last().update(i, v));
        lemma_barrels_volume_update(s.drop_last(), i, v, r);
    }
}

proof fn lemma_boxes_volume_update(s: Seq<FloorBox>, i: int, v: FloorBox, r: Resource)
    requires
        0 <= i < s.len(),
    ensures
        boxes_volume(s.update(i, v), r) == boxes_volume(s, r) - box_part(s[i], r) + box_part(v, r),
    decreases s.len(),
{
    let su = s.update(i, v);
    if i == s.len() - 1 {
        assert(su.drop_last() =~= s.drop_last());
    } else {
        assert(su.drop_last() =~= s.drop_last().update(i, v));
        lemma_boxes_volume_update(s.drop_last(), i, v, r);
    }
}

proof fn lemma_boxes_volume_push(s: Seq<FloorBox>, v: FloorBox, r: Resource)
    ensures
        boxes_volume(s.push(v), r) == boxes_volume(s, r) + box_part(v, r),
{
    assert(s.push(v).drop_last() =~= s);
}

proof fn lemma_boxes_volume_remove(s: Seq<FloorBox>, i: int, r: Resource)
    requires
        0 <= i < s.len(),
    ensures
        boxes_volume(s.remove(i), r) == boxes_volume(s, r) - box_part(s[i], r),
    decreases s.len(),
{
    if i == s.len() - 1 {
        assert(s.remove(i) =~= s.drop_last());
    } else {
        assert(s.remove(i).drop_last() =~= s.drop_last().remove(i));
        assert(s.remove(i).last() == s.last());
        lemma_boxes_volume_remove(s.drop_last(), i, r);
    }
}

proof fn lemma_empty_shelves_take_step(s: Seq<Shelf>, i: int)
    requires
        0 <= i < s.len(),
    ensures
        empty_shelves(s.take(i + 1)) == empty_shelves(s.take(i)) + empty_one_shelf(s[i]),
{
    assert(s.take(i + 1).drop_last() =~= s.take(i));
    assert(s.take(i + 1).last() == s[i]);
}

proof fn lemma_empty_shelves_take_le(s: Seq<Shelf>, i: int)
    requires
        0 <= i <= s.len(),
    ensures
        empty_shelves(s.take(i)) <= empty_shelves(s),
    decreases s.len() - i,
{
    if i == s.len() {
        assert(s.take(i) =~= s);
    } else {
        lemma_empty_shelves_take_step(s, i);
        lemma_empty_shelves_take_le(s, i + 1);
    }
}

proof fn lemma_empty_barrels_take_step(s: Seq<Barrel>, i: int)
    requires
        0 <= i < s.len(),
    ensures
        empty_barrels(s.take(i + 1)) == empty_barrels(s.take(i)) + empty_one_barrel(s[i]),
{
    assert(s.take(i + 1).drop_last() =~= s.take(i));
    assert(s.take(i + 1).last() == s[i]);
}

proof fn lemma_empty_barrels_take_le(s: Seq<Barrel>, i: int)
    requires
        0 <= i <= s.len(),
    ensures
        empty_barrels(s.take(i)) <= empty_barrels(s),
    decreases s.len() - i,
{
    if i == s.len() {
        assert(s.take(i) =~= s);
    } else {
        lemma_empty_barrels_take_step(s, i);
        lemma_empty_barrels_take_le(s, i + 1);
    }
}

/// What the shelf or barrel packing leaves over: the empty containers take
/// `amount`, each up to one full container volume of units.
pub open spec fn pack_leftover(amount: int, empties: int, r: Resource) -> int {
    if amount <= empties * cap_units(r) {
        0
    } else {
        amount - empties * cap_units(r)
    }
}

/// Store a resource on the untagged shelves, in catalog order, filling each
/// up to a full container volume. Returns the amount that found no shelf.
fn store_on_shelves(shelves: &mut Vec<Shelf>, amount: RealUnits, resource: Resource) -> (ret:
    RealUnits)
    requires
        amount.0 * spec_piece_size(resource) <= usize::MAX,
        forall|i: int| 0 <= i < old(shelves)@.len() ==> old(shelves)@[i].wf(),
    ensures
        final(shelves)@.len() == old(shelves)@.len(),
        forall|i: int| 0 <= i < final(shelves)@.len() ==> final(shelves)@[i].wf(),
        ret.0 <= amount.0,
        ret.0 as int == pack_leftover(amount.0 as int, empty_shelves(old(shelves)@), resource),
        shelves_volume(final(shelves)@, resource) == shelves_volume(old(shelves)@, resource) + (
        amount.0 - ret.0) * spec_piece_size(resource),
        forall|r2: Resource|
            r2 != resource ==> shelves_volume(final(shelves)@, r2) == shelves_volume(
                old(shelves)@,
                r2,
            ),
        forall|j: int|
            0 <= j < old(shelves)@.len() ==> final(shelves)@[j] == old(shelves)@[j] || (old(
                shelves,
            )@[j].resource is None && final(shelves)@[j].resource == Some(resource)
                && final(shelves)@[j].occupied.0 > 0),
        forall|a: int, b: int|
            0 <= a < b < old(shelves)@.len() && final(shelves)@[a] == old(shelves)@[a] && old(
                shelves,
            )@[a].resource is None ==> final(shelves)@[b] == old(shelves)@[b],
        forall|a: int, b: int|
            0 <= a < b < old(shelves)@.len() && final(shelves)@[a] != old(shelves)@[a]
                && final(shelves)@[b] != old(shelves)@[b] ==> final(shelves)@[a].occupied.0
                == CONTAINER_VOLUME,
        amount.0 == 0 ==> final(shelves)@ == old(shelves)@,
{
    let ghost s0 = shelves@;
    let size = piece_size(resource);
    proof {
        lemma_cap_units(resource);
    }
    let cap = CONTAINER_VOLUME / size.0;
    let mut rest: usize = amount.0;
    let mut i: usize = 0;
    while i < shelves.len() && rest > 0
        invariant
            i <= shelves@.len(),
            shelves@.len() == s0.len(),
            rest <= amount.0,
            size.0 == spec_piece_size(resource),
            cap as int == cap_units(resource),
            1 <= cap <= CONTAINER_VOLUME,
            amount.0 * spec_piece_size(resource) <= usize::MAX,
            amount.0 == 0 ==> i == 0,
            forall|j: int| i <= j < s0.len() ==> shelves@[j] == s0[j],
            forall|j: int| 0 <= j < s0.len() ==> shelves@[j].wf(),
            forall|j: int| 0 <= j < s0.len() ==> old(shelves)@[j].wf(),
            forall|j: int|
                0 <= j < s0.len() ==> shelves@[j] == s0[j] || (s0[j].resource is None
                    && shelves@[j].resource == Some(resource) && shelves@[j].occupied.0 > 0),
            rest > 0 ==> forall|j: int|
                0 <= j < i ==> !(shelves@[j] == s0[j] && s0[j].resource is None),
            rest > 0 ==> forall|j: int|
                0 <= j < s0.len() && shelves@[j] != s0[j] ==> shelves@[j].occupied.0
                    == CONTAINER_VOLUME,
            forall|a: int, b: int|
                0 <= a < b < i && shelves@[a] == s0[a] && s0[a].resource is None ==> shelves@[b]
                    == s0[b],
            forall|a: int, b: int|
                0 <= a < b < s0.len() && shelves@[a] != s0[a] && shelves@[b] != s0[b]
                    ==> shelves@[a].occupied.0 == CONTAINER_VOLUME,
            rest as int == pack_leftover(amount.0 as int, empty_shelves(s0.take(i as int)), resource),
            shelves_volume(shelves@, resource) == shelves_volume(s0, resource) + (amount.0 - rest)
                * spec_piece_size(resource),
            forall|r2: Resource| r2 != resource ==> shelves_volume(shelves@, r2) == shelves_volume(s0, r2),
        decreases s0.len() - i,
    {
        let ghost pre = shelves@;
        let ghost e = empty_shelves(s0.take(i as int));
        if shelves[i].resource.is_none() {
            let take_units = if rest >= cap {
                cap
            } else {
                rest
            };
            proof {
                lemma_cap_units(resource);
                assert(take_units * size.0 <= amount.0 * size.0 && take_units * size.0 <= cap
                    * size.0 && 1 <= take_units * size.0) by (nonlinear_arith)
                    requires 1 <= take_units <= amount.0 && take_units <= cap && size.0 >= 1;
                vstd::arithmetic::div_mod::lemma_mod_multiples_basic(
                    take_units as int,
                    size.0 as int,
                );
            }
            let filled = Shelf {
                resource: Some(resource),
                occupied: VolumeOccupied(take_units * size.0),
            };
            shelves.set(i, filled);
            rest = rest - take_units;
            proof {
                assert(pre[i as int].occupied.0 == 0);
                lemma_shelves_volume_update(pre, i as int, filled, resource);
                assert forall|r2: Resource| r2 != resource implies shelves_volume(shelves@, r2)
                    == shelves_volume(pre, r2) by {
                    lemma_shelves_volume_update(pre, i as int, filled, r2);
                }
                lemma_empty_shelves_take_step(s0, i as int);
                assert((e + 1) * cap_units(resource) == e * cap_units(resource) + cap_units(
                    resource,
                )) by (nonlinear_arith);
                assert((amount.0 - rest) * size.0 == (amount.0 - (rest + take_units)) * size.0
                    + take_units * size.0) by (nonlinear_arith);
            }
        } else {
            proof {
                lemma_empty_shelves_take_step(s0, i as int);
            }
        }
        i = i + 1;
    }
    proof {
        if amount.0 == 0 {
            assert(shelves@ =~= s0);
        }
        if rest > 0 {
            assert(s0.take(i as int) =~= s0);
        } else {
            lemma_empty_shelves_take_le(s0, i as int);
            assert(empty_shelves(s0.take(i as int)) * cap_units(resource) <= empty_shelves(s0)
                * cap_units(resource)) by (nonlinear_arith)
                requires
                    empty_shelves(s0.take(i as int)) <= empty_shelves(s0),
                    cap_units(resource) >= 1,
            ;
        }
    }
    RealUnits(rest)
}

/// Store a fluid in the untagged barrels, in catalog order, filling each up
/// to a full container volume. Returns the amount that found no barrel.
fn store_in_barrels(barrels: &mut Vec<Barrel>, amount: RealUnits, resource: Resource) -> (ret:
    RealUnits)
    requires
        amount.0 * spec_piece_size(resource) <= usize::MAX,
        forall|i: int| 0 <= i < old(barrels)@.len() ==> old(barrels)@[i].wf(),
    ensures
        final(barrels)@.len() == old(barrels)@.len(),
        forall|i: int| 0 <= i < final(barrels)@.len() ==> final(barrels)@[i].wf(),
        ret.0 <= amount.0,
        ret.0 as int == pack_leftover(amount.0 as int, empty_barrels(old(barrels)@), resource),
        barrels_volume(final(barrels)@, resource) == barrels_volume(old(barrels)@, resource) + (
        amount.0 - ret.0) * spec_piece_size(resource),
        forall|r2: Resource|
            r2 != resource ==> barrels_volume(final(barrels)@, r2) == barrels_volume(
                old(barrels)@,
                r2,
            ),
        forall|j: int|
            0 <= j < old(barrels)@.len() ==> final(barrels)@[j] == old(barrels)@[j] || (old(
                barrels,
            )@[j].resource is None && final(barrels)@[j].resource == Some(resource)
                && final(barrels)@[j].occupied.0 > 0),
        forall|a: int, b: int|
            0 <= a < b < old(barrels)@.len() && final(barrels)@[a] == old(barrels)@[a] && old(
                barrels,
            )@[a].resource is None ==> final(barrels)@[b] == old(barrels)@[b],
        forall|a: int, b: int|
            0 <= a < b < old(barrels)@.len() && final(barrels)@[a] != old(barrels)@[a]
                && final(barrels)@[b] != old(barrels)@[b] ==> final(barrels)@[a].occupied.0
                == CONTAINER_VOLUME,
        amount.0 == 0 ==> final(barrels)@ == old(barrels)@,
{
    let ghost s0 = barrels@;
    let size = piece_size(resource);
    proof {
        lemma_cap_units(resource);
    }
    let cap = CONTAINER_VOLUME / size.0;
    let mut rest: usize = amount.0;
    let mut i: usize = 0;
    while i < barrels.len() && rest > 0
        invariant
            i <= barrels@.len(),
            barrels@.len() == s0.len(),
            rest <= amount.0,
            size.0 == spec_piece_size(resource),
            cap as int == cap_units(resource),
            1 <= cap <= CONTAINER_VOLUME,
            amount.0 * spec_piece_size(resource) <= usize::MAX,
            amount.0 == 0 ==> i == 0,
            forall|j: int| i <= j < s0.len() ==> barrels@[j] == s0[j],
            forall|j: int| 0 <= j < s0.len() ==> barrels@[j].wf(),
            forall|j: int|
                0 <= j < s0.len() ==> barrels@[j] == s0[j] || (s0[j].resource is None
                    && barrels@[j].resource == Some(resource) && barrels@[j].occupied.0 > 0),
            rest > 0 ==> forall|j: int|
                0 <= j < i ==> !(barrels@[j] == s0[j] && s0[j].resource is None),
            rest > 0 ==> forall|j: int|
                0 <= j < s0.len() && barrels@[j] != s0[j] ==> barrels@[j].occupied.0
                    == CONTAINER_VOLUME,
            forall|a: int, b: int|
                0 <= a < b < i && barrels@[a] == s0[a] && s0[a].resource is None ==> barrels@[b]
                    == s0[b],
            forall|a: int, b: int|
                0 <= a < b < s0.len() && barrels@[a] != s0[a] && barrels@[b] != s0[b]
                    ==> barrels@[a].occupied.0 == CONTAINER_VOLUME,
            rest as int == pack_leftover(amount.0 as int, empty_barrels(s0.take(i as int)), resource),
            barrels_volume(barrels@, resource) == barrels_volume(s0, resource) + (amount.0 - rest)
                * spec_piece_size(resource),
            forall|r2: Resource| r2 != resource ==> barrels_volume(barrels@, r2) == barrels_volume(s0, r2),
        decreases s0.len() - i,
    {
        let ghost pre = barrels@;
        let ghost e = empty_barrels(s0.take(i as int));
        if barrels[i].resource.is_none() {
            let take_units = if rest >= cap {
                cap
            } else {
                rest
            };
            proof {
                lemma_cap_units(resource);
                assert(take_units * size.0 <= amount.0 * size.0 && take_units * size.0 <= cap
                    * size.0 && 1 <= take_units * size.0) by (nonlinear_arith)
                    requires 1 <= take_units <= amount.0 && take_units <= cap && size.0 >= 1;
                vstd::arithmetic::div_mod::lemma_mod_multiples_basic(
                    take_units as int,
                    size.0 as int,
                );
            }
            let filled = Barrel {
                resource: Some(resource),
                occupied: VolumeOccupied(take_units * size.0),
            };
            barrels.set(i, filled);
            rest = rest - take_units;
            proof {
                assert(pre[i as int].occupied.0 == 0);
                lemma_barrels_volume_update(pre, i as int, filled, resource);
                assert forall|r2: Resource| r2 != resource implies barrels_volume(barrels@, r2)
                    == barrels_volume(pre, r2) by {
                    lemma_barrels_volume_update(pre, i as int, filled, r2);
                }
                lemma_empty_barrels_take_step(s0, i as int);
                assert((e + 1) * cap_units(resource) == e * cap_units(resource) + cap_units(
                    resource,
                )) by (nonlinear_arith);
                assert((amount.0 - rest) * size.0 == (amount.0 - (rest + take_units)) * size.0
                    + take_units * size.0) by (nonlinear_arith);
            }
        } else {
            proof {
                lemma_empty_barrels_take_step(s0, i as int);
            }
        }
        i = i + 1;
    }
    proof {
        if amount.0 == 0 {
            assert(barrels@ =~= s0);
        }
        if rest > 0 {
            assert(s0.take(i as int) =~= s0);
        } else {
            lemma_empty_barrels_take_le(s0, i as int);
            assert(empty_barrels(s0.take(i as int)) * cap_units(resource) <= empty_barrels(s0)
                * cap_units(resource)) by (nonlinear_arith)
                requires
                    empty_barrels(s0.take(i as int)) <= empty_barrels(s0),
                    cap_units(resource) >= 1,
            ;
        }
    }
    RealUnits(rest)
}

proof fn lemma_party_slots_nonneg(rooms: Seq<Room>)
    ensures
        party_slots(rooms) >= 0,
    decreases rooms.len(),
{
    if rooms.len() > 0 {
        lemma_party_slots_nonneg(rooms.drop_last());
        let last = rooms.last();
        if last.purpose == AreaType::Party && last.occupied.0 <= last.capacity.0 {
            vstd::arithmetic::div_mod::lemma_div_pos_is_pos(
                last.capacity.0 - last.occupied.0,
                CONTAINER_SIZE as int,
            );
        }
    }
}

proof fn lemma_party_slots_update(rooms: Seq<Room>, i: int, v: Room)
    requires
        0 <= i < rooms.len(),
    ensures
        party_slots(rooms.update(i, v)) == party_slots(rooms) - room_slots(rooms[i]) + room_slots(
            v,
        ),
    decreases rooms.len(),
{
    let su = rooms.update(i, v);
    if i == rooms.len() - 1 {
        assert(su.drop_last() =~= rooms.drop_last());
    } else {
        assert(su.drop_last() =~= rooms.drop_last().update(i, v));
        lemma_party_slots_update(rooms.drop_last(), i, v);
    }
}

/// When one room holds all the floor-box slots of the block, the block's
/// total is that room's.
pub proof fn lemma_party_slots_single(rooms: Seq<Room>, k: int)
    requires
        0 <= k < rooms.len(),
        forall|j: int| 0 <= j < rooms.len() && j != k ==> room_slots(#[trigger] rooms[j]) == 0,
    ensures
        party_slots(rooms) == room_slots(rooms[k]),
    decreases rooms.len(),
{
    lemma_party_slots_nonneg(rooms);
    if rooms.len() > 0 {
        assert(forall|j: int| 0 <= j < rooms.drop_last().len() ==> rooms.drop_last()[j] == rooms[j]);
        if k == rooms.len() - 1 {
            lemma_party_slots_zero_all(rooms.drop_last());
        } else {
            lemma_party_slots_single(rooms.drop_last(), k);
        }
    }
}

/// A block whose rooms all hold no slots has no slots.
proof fn lemma_party_slots_zero_all(rooms: Seq<Room>)
    requires
        forall|j: int| 0 <= j < rooms.len() ==> room_slots(#[trigger] rooms[j]) == 0,
    ensures
        party_slots(rooms) == 0,
    decreases rooms.len(),
{
    if rooms.len() > 0 {
        assert(forall|j: int| 0 <= j < rooms.drop_last().len() ==> rooms.drop_last()[j] == rooms[j]);
        lemma_party_slots_zero_all(rooms.drop_last());
    }
}

proof fn lemma_party_slots_zero(rooms: Seq<Room>)
    requires
        forall|k: int|
            0 <= k < rooms.len() ==> !rooms[k].fits(CONTAINER_SIZE as int, AreaType::Party),
    ensures
        party_slots(rooms) == 0,
    decreases rooms.len(),
{
    if rooms.len() > 0 {
        assert(forall|k: int|
            0 <= k < rooms.drop_last().len() ==> rooms.drop_last()[k] == rooms[k]);
        lemma_party_slots_zero(rooms.drop_last());
        let last = rooms.last();
        assert(!last.fits(CONTAINER_SIZE as int, AreaType::Party));
        if last.purpose == AreaType::Party && last.occupied.0 <= last.capacity.0 {
            vstd::arithmetic::div_mod::lemma_basic_div(
                last.capacity.0 - last.occupied.0,
                CONTAINER_SIZE as int,
            );
        }
    }
}

/// New floor boxes of one placement run standing in one room.
pub open spec fn boxes_in_room(s: Seq<FloorBox>, j: int) -> int
    decreases s.len(),
{
    if s.len() == 0 {
        0
    } else {
        boxes_in_room(s.drop_last(), j) + if s.last().room.0 == j {
            1int
        } else {
            0int
        }
    }
}

/// Occupancy of a room once a run of new boxes has been placed: the old
/// occupancy plus one footprint per box placed there.
pub open spec fn placed_occupancy(rooms: Seq<Room>, newb: Seq<FloorBox>, j: int) -> int {
    rooms[j].occupied.0 + (CONTAINER_SIZE as int) * boxes_in_room(newb, j)
}

/// Store a solid in boxes on the floor of the party storage rooms: each box
/// goes into the most occupied room that still has the box's footprint free,
/// until the amount is placed or no room fits another box. Returns the
/// amount that found no room.
fn store_on_floor(colony: &mut Colony, amount: RealUnits, resource: Resource) -> (ret: RealUnits)
    requires
        amount.0 * spec_piece_size(resource) <= usize::MAX,
        forall|j: int| 0 <= j < old(colony).rooms@.len() ==> old(colony).rooms@[j].wf(),
        forall|i: int|
            0 <= i < old(colony).floor_boxes@.len() ==> old(colony).floor_boxes@[i].wf(
                old(colony).rooms@.len() as int,
            ),
    ensures
        ret.0 <= amount.0,
        ret.0 as int == pack_leftover(amount.0 as int, party_slots(old(colony).rooms@), resource),
        boxes_volume(final(colony).floor_boxes@, resource) == boxes_volume(
            old(colony).floor_boxes@,
            resource,
        ) + (amount.0 - ret.0) * spec_piece_size(resource),
        forall|r2: Resource|
            r2 != resource ==> boxes_volume(final(colony).floor_boxes@, r2) == boxes_volume(
                old(colony).floor_boxes@,
                r2,
            ),
        final(colony).colonists == old(colony).colonists,
        final(colony).stationaries == old(colony).stationaries,
        final(colony).tasks == old(colony).tasks,
        final(colony).shelves == old(colony).shelves,
        final(colony).barrels == old(colony).barrels,
        final(colony).rooms@.len() == old(colony).rooms@.len(),
        forall|j: int|
            0 <= j < final(colony).rooms@.len() ==> {
                &&& final(colony).rooms@[j].purpose == old(colony).rooms@[j].purpose
                &&& final(colony).rooms@[j].tier == old(colony).rooms@[j].tier
                &&& final(colony).rooms@[j].capacity == old(colony).rooms@[j].capacity
                &&& final(colony).rooms@[j].occupied.0 >= old(colony).rooms@[j].occupied.0
                &&& final(colony).rooms@[j].wf()
            },
        final(colony).floor_boxes@.len() <= old(colony).floor_boxes@.len() + (amount.0 - ret.0),
        forall|i: int|
            0 <= i < old(colony).floor_boxes@.len() ==> final(colony).floor_boxes@[i] == old(
                colony,
            ).floor_boxes@[i],
        forall|i: int|
            0 <= i < final(colony).floor_boxes@.len() ==> final(colony).floor_boxes@[i].wf(
                final(colony).rooms@.len() as int,
            ),
        forall|i: int|
            old(colony).floor_boxes@.len() <= i < final(colony).floor_boxes@.len()
                ==> (#[trigger] final(colony).floor_boxes@[i]).resource == resource,
        amount.0 == 0 ==> final(colony).floor_boxes@ == old(colony).floor_boxes@
            && final(colony).rooms@ == old(colony).rooms@,
        party_slots(final(colony).rooms@) == party_slots(old(colony).rooms@) - (final(colony).floor_boxes@.len() - old(colony).floor_boxes@.len()),
        (amount.0 - ret.0) * spec_piece_size(resource) <= (final(colony).floor_boxes@.len() - old(
            colony,
        ).floor_boxes@.len()) * (CONTAINER_VOLUME as int),
        final(colony).floor_boxes@.len() > old(colony).floor_boxes@.len() ==> (final(colony).floor_boxes@.len() - old(colony).floor_boxes@.len() - 1) * (CONTAINER_VOLUME as int) < (
        amount.0 - ret.0) * spec_piece_size(resource),
        forall|j: int|
            0 <= j < old(colony).rooms@.len() ==> (#[trigger] final(colony).rooms@[j]).occupied.0
                == placed_occupancy(
                old(colony).rooms@,
                final(colony).floor_boxes@.subrange(
                    old(colony).floor_boxes@.len() as int,
                    final(colony).floor_boxes@.len() as int,
                ),
                j,
            ),
        forall|k: int|
            old(colony).floor_boxes@.len() <= k < final(colony).floor_boxes@.len() - 1
                ==> (#[trigger] final(colony).floor_boxes@[k]).occupied.0 == CONTAINER_VOLUME,
        forall|k: int|
            #![trigger final(colony).floor_boxes@[k]]
            old(colony).floor_boxes@.len() <= k < final(colony).floor_boxes@.len() ==> {
                let rj = final(colony).floor_boxes@[k].room.0 as int;
                let placed = final(colony).floor_boxes@.subrange(
                    old(colony).floor_boxes@.len() as int,
                    k,
                );
                &&& 0 <= rj < old(colony).rooms@.len()
                &&& old(colony).rooms@[rj].purpose == AreaType::Party
                &&& placed_occupancy(old(colony).rooms@, placed, rj) + CONTAINER_SIZE <= old(
                    colony,
                ).rooms@[rj].capacity.0
                &&& (forall|j2: int|
                    0 <= j2 < old(colony).rooms@.len() && old(colony).rooms@[j2].purpose
                        == AreaType::Party && placed_occupancy(old(colony).rooms@, placed, j2)
                        + CONTAINER_SIZE <= old(colony).rooms@[j2].capacity.0 ==> #[trigger] placed_occupancy(
                        old(colony).rooms@,
                        placed,
                        j2,
                    ) <= placed_occupancy(old(colony).rooms@, placed, rj) && (placed_occupancy(
                        old(colony).rooms@,
                        placed,
                        j2,
                    ) == placed_occupancy(old(colony).rooms@, placed, rj) ==> rj <= j2))
            },
{
    let ghost r0 = colony.rooms@;
    let ghost b0 = colony.floor_boxes@;
    let ghost slots0 = party_slots(r0);
    let size = piece_size(resource);
    proof {
        lemma_cap_units(resource);
        lemma_party_slots_nonneg(r0);
    }
    let cap = CONTAINER_VOLUME / size.0;
    let mut rest: usize = amount.0;
    let mut exhausted = false;
    while rest > 0 && !exhausted
        invariant
            colony.colonists == old(colony).colonists,
            colony.stationaries == old(colony).stationaries,
            colony.tasks == old(colony).tasks,
            colony.shelves == old(colony).shelves,
            colony.barrels == old(colony).barrels,
            colony.rooms@.len() == r0.len(),
            forall|j: int|
                0 <= j < r0.len() ==> {
                    &&& colony.rooms@[j].purpose == r0[j].purpose
                    &&& colony.rooms@[j].tier == r0[j].tier
                    &&& colony.rooms@[j].capacity == r0[j].capacity
                    &&& colony.rooms@[j].occupied.0 >= r0[j].occupied.0
                    &&& colony.rooms@[j].wf()
                },
            0 <= party_slots(colony.rooms@) <= slots0,
            slots0 == party_slots(r0),
            colony.floor_boxes@.len() - b0.len() == slots0 - party_slots(colony.rooms@),
            (amount.0 - rest) * spec_piece_size(resource) <= (colony.floor_boxes@.len()
                - b0.len()) * (CONTAINER_VOLUME as int),
            colony.floor_boxes@.len() > b0.len() ==> (colony.floor_boxes@.len() - b0.len() - 1) * (
            CONTAINER_VOLUME as int) < (amount.0 - rest) * spec_piece_size(resource),
            rest <= amount.0,
            size.0 == spec_piece_size(resource),
            cap as int == cap_units(resource),
            1 <= cap,
            amount.0 * spec_piece_size(resource) <= usize::MAX,
            rest as int == pack_leftover(
                amount.0 as int,
                slots0 - party_slots(colony.rooms@),
                resource,
            ),
            exhausted ==> party_slots(colony.rooms@) == 0,
            b0.len() <= colony.floor_boxes@.len() <= b0.len() + (amount.0 - rest),
            amount.0 == 0 ==> colony.floor_boxes@ == b0 && colony.rooms@ == r0,
            forall|i: int| 0 <= i < b0.len() ==> colony.floor_boxes@[i] == b0[i],
            forall|i: int|
                b0.len() <= i < colony.floor_boxes@.len()
                    ==> (#[trigger] colony.floor_boxes@[i]).resource == resource,
            forall|j: int|
                0 <= j < r0.len() ==> (#[trigger] colony.rooms@[j]).occupied.0
                    == placed_occupancy(
                    r0,
                    colony.floor_boxes@.subrange(
                        b0.len() as int,
                        colony.floor_boxes@.len() as int,
                    ),
                    j,
                ),
            rest > 0 ==> forall|k: int|
                b0.len() <= k < colony.floor_boxes@.len()
                    ==> (#[trigger] colony.floor_boxes@[k]).occupied.0 == CONTAINER_VOLUME,
            forall|k: int|
                b0.len() <= k < colony.floor_boxes@.len() - 1
                    ==> (#[trigger] colony.floor_boxes@[k]).occupied.0 == CONTAINER_VOLUME,
            forall|k: int|
                #![trigger colony.floor_boxes@[k]]
                b0.len() <= k < colony.floor_boxes@.len() ==> {
                    let rj = colony.floor_boxes@[k].room.0 as int;
                    let placed = colony.floor_boxes@.subrange(b0.len() as int, k);
                    &&& 0 <= rj < r0.len()
                    &&& r0[rj].purpose == AreaType::Party
                    &&& placed_occupancy(r0, placed, rj) + CONTAINER_SIZE <= r0[rj].capacity.0
                    &&& (forall|j2: int|
                        0 <= j2 < r0.len() && r0[j2].purpose == AreaType::Party
                            && placed_occupancy(r0, placed, j2) + CONTAINER_SIZE
                            <= r0[j2].capacity.0 ==> #[trigger] placed_occupancy(
                            r0,
                            placed,
                            j2,
                        ) <= placed_occupancy(r0, placed, rj) && (placed_occupancy(r0, placed, j2)
                            == placed_occupancy(r0, placed, rj) ==> rj <= j2))
                },
            forall|i: int|
                0 <= i < colony.floor_boxes@.len() ==> colony.floor_boxes@[i].wf(r0.len() as int),
            boxes_volume(colony.floor_boxes@, resource) == boxes_volume(b0, resource) + (amount.0
                - rest) * spec_piece_size(resource),
            forall|r2: Resource|
                r2 != resource ==> boxes_volume(colony.floor_boxes@, r2) == boxes_volume(b0, r2),
        decreases rest, (if exhausted { 0int } else { 1int }),
    {
        let choice = crate::area::find_sufficient_room(
            &colony.rooms,
            AreaOccupied(CONTAINER_SIZE),
            AreaType::Party,
        );
        match choice {
            None => {
                proof {
                    lemma_party_slots_zero(colony.rooms@);
                }
                exhausted = true;
            },
            Some(room) => {
                let ghost pre_rooms = colony.rooms@;
                let ghost pre_boxes = colony.floor_boxes@;
                let ghost placed = slots0 - party_slots(pre_rooms);
                let take_units = if rest >= cap {
                    cap
                } else {
                    rest
                };
                proof {
                    lemma_cap_units(resource);
                    assert(take_units * size.0 <= amount.0 * size.0 && take_units * size.0 <= cap
                        * size.0 && 1 <= take_units * size.0) by (nonlinear_arith)
                        requires 1 <= take_units <= amount.0 && take_units <= cap && size.0 >= 1;
                    vstd::arithmetic::div_mod::lemma_mod_multiples_basic(
                        take_units as int,
                        size.0 as int,
                    );
                }
                let new_box = FloorBox {
                    resource,
                    occupied: VolumeOccupied(take_units * size.0),
                    room: BelongsToRoom(room),
                };
                colony.floor_boxes.push(new_box);
                let here = colony.rooms[room];
                let updated = Room {
                    purpose: here.purpose,
                    tier: here.tier,
                    capacity: here.capacity,
                    occupied: AreaOccupied(here.occupied.0 + CONTAINER_SIZE),
                };
                colony.rooms.set(room, updated);
                rest = rest - take_units;
                proof {
                    assert(colony.floor_boxes@ == pre_boxes.push(new_box));
                    assert forall|i: int| 0 <= i < b0.len() implies colony.floor_boxes@[i]
                        == b0[i] by {
                        assert(colony.floor_boxes@[i] == pre_boxes[i]);
                    }
                    let newb_pre = pre_boxes.subrange(b0.len() as int, pre_boxes.len() as int);
                    let newb_post = colony.floor_boxes@.subrange(
                        b0.len() as int,
                        colony.floor_boxes@.len() as int,
                    );
                    assert(newb_post =~= newb_pre.push(new_box));
                    assert(newb_post.drop_last() =~= newb_pre);
                    assert forall|j: int| 0 <= j < r0.len() implies boxes_in_room(newb_post, j)
                        == boxes_in_room(newb_pre, j) + (if new_box.room.0 == j {
                        1int
                    } else {
                        0int
                    }) by {
                        assert(newb_post.last() == new_box);
                    }
                    assert forall|k: int|
                        b0.len() <= k < pre_boxes.len() implies colony.floor_boxes@.subrange(
                        b0.len() as int,
                        k,
                    ) =~= pre_boxes.subrange(b0.len() as int, k) by {
                        assert(forall|m: int|
                            b0.len() <= m < k ==> colony.floor_boxes@[m] == pre_boxes[m]);
                    }
                    assert(colony.floor_boxes@.subrange(b0.len() as int, pre_boxes.len() as int)
                        =~= newb_pre);
                    lemma_boxes_volume_push(pre_boxes, new_box, resource);
                    assert forall|r2: Resource| r2 != resource implies boxes_volume(
                        colony.floor_boxes@,
                        r2,
                    ) == boxes_volume(pre_boxes, r2) by {
                        lemma_boxes_volume_push(pre_boxes, new_box, r2);
                    }
                    assert((amount.0 - rest) * size.0 == (amount.0 - (rest + take_units)) * size.0
                        + take_units * size.0) by (nonlinear_arith);
                    let placed_pre = pre_boxes.len() - b0.len();
                    assert((placed_pre + 1) * (CONTAINER_VOLUME as int) == placed_pre * (
                    CONTAINER_VOLUME as int) + CONTAINER_VOLUME) by (nonlinear_arith);
                    assert(amount.0 - (rest + take_units) == placed_pre * cap_units(resource));
                    assert((placed_pre * cap_units(resource)) * size.0 == placed_pre * (
                    CONTAINER_VOLUME as int)) by (nonlinear_arith)
                        requires
                            cap_units(resource) * spec_piece_size(resource) == CONTAINER_VOLUME
                                && size.0 == spec_piece_size(resource),
                    ;
                    assert((amount.0 - (rest + take_units)) * size.0 == placed_pre * (
                    CONTAINER_VOLUME as int));
                    let free = here.capacity.0 - here.occupied.0;
                    vstd::arithmetic::div_mod::lemma_div_non_zero(free, CONTAINER_SIZE as int);
                    vstd::arithmetic::div_mod::lemma_div_minus_one(free, CONTAINER_SIZE as int);
                    assert(room_slots(updated) == room_slots(pre_rooms[room as int]) - 1);
                    lemma_party_slots_update(pre_rooms, room as int, updated);
                    lemma_party_slots_nonneg(colony.rooms@);
                    assert((placed + 1) * cap_units(resource) == placed * cap_units(resource)
                        + cap_units(resource)) by (nonlinear_arith);
                }
            },
        }
    }
    proof {
        let placed_end = slots0 - party_slots(colony.rooms@);
        if rest == 0 {
            assert(amount.0 <= placed_end * cap_units(resource));
            assert(placed_end * cap_units(resource) <= slots0 * cap_units(resource))
                by (nonlinear_arith)
                requires placed_end <= slots0 && cap_units(resource) >= 1;
        }
    }
    RealUnits(rest)
}

proof fn lemma_shelves_volume_take_step(s: Seq<Shelf>, i: int)
    requires
        0 <= i < s.len(),
    ensures
        forall|r: Resource| #[trigger]
            shelves_volume(s.take(i + 1), r) == shelves_volume(s.take(i), r) + shelf_part(s[i], r),
{
    assert(s.take(i + 1).drop_last() =~= s.take(i));
    assert(s.take(i + 1).last() == s[i]);
}

proof fn lemma_barrels_volume_take_step(s: Seq<Barrel>, i: int)
    requires
        0 <= i < s.len(),
    ensures
        forall|r: Resource| #[trigger]
            barrels_volume(s.take(i + 1), r) == barrels_volume(s.take(i), r) + barrel_part(s[i], r),
{
    assert(s.take(i + 1).drop_last() =~= s.take(i));
    assert(s.take(i + 1).last() == s[i]);
}

proof fn lemma_boxes_volume_take_step(s: Seq<FloorBox>, i: int)
    requires
        0 <= i < s.len(),
    ensures
        forall|r: Resource| #[trigger]
            boxes_volume(s.take(i + 1), r) == boxes_volume(s.take(i), r) + box_part(s[i], r),
{
    assert(s.take(i + 1).drop_last() =~= s.take(i));
    assert(s.take(i + 1).last() == s[i]);
}

proof fn lemma_shelves_volume_multiple(s: Seq<Shelf>, r: Resource)
    requires
        forall|i: int| 0 <= i < s.len() ==> s[i].wf(),
    ensures
        shelves_volume(s, r) % spec_piece_size(r) == 0,
    decreases s.len(),
{
    lemma_piece_size_divides(r);
    if s.len() > 0 {
        assert(forall|i: int| 0 <= i < s.drop_last().len() ==> s.drop_last()[i] == s[i]);
        lemma_shelves_volume_multiple(s.drop_last(), r);
        vstd::arithmetic::div_mod::lemma_add_mod_noop(
            shelves_volume(s.drop_last(), r),
            shelf_part(s.last(), r),
            spec_piece_size(r),
        );
    }
}

proof fn lemma_barrels_volume_multiple(s: Seq<Barrel>, r: Resource)
    requires
        forall|i: int| 0 <= i < s.len() ==> s[i].wf(),
    ensures
        barrels_volume(s, r) % spec_piece_size(r) == 0,
    decreases s.len(),
{
    lemma_piece_size_divides(r);
    if s.len() > 0 {
        assert(forall|i: int| 0 <= i < s.drop_last().len() ==> s.drop_last()[i] == s[i]);
        lemma_barrels_volume_multiple(s.drop_last(), r);
        vstd::arithmetic::div_mod::lemma_add_mod_noop(
            barrels_volume(s.drop_last(), r),
            barrel_part(s.last(), r),
            spec_piece_size(r),
        );
    }
}

proof fn lemma_boxes_volume_multiple(s: Seq<FloorBox>, r: Resource, n_rooms: int)
    requires
        forall|i: int| 0 <= i < s.len() ==> s[i].wf(n_rooms),
    ensures
        boxes_volume(s, r) % spec_piece_size(r) == 0,
    decreases s.len(),
{
    lemma_piece_size_divides(r);
    if s.len() > 0 {
        assert(forall|i: int| 0 <= i < s.drop_last().len() ==> s.drop_last()[i] == s[i]);
        lemma_boxes_volume_multiple(s.drop_last(), r, n_rooms);
        vstd::arithmetic::div_mod::lemma_add_mod_noop(
            boxes_volume(s.drop_last(), r),
            box_part(s.last(), r),
            spec_piece_size(r),
        );
    }
}

/// The total stock of a well-formed colony is a whole number of units.
proof fn lemma_total_volume_multiple(c: Colony, r: Resource)
    requires
        c.wf(),
    ensures
        total_volume(c, r) >= 0,
        total_volume(c, r) % spec_piece_size(r) == 0,
{
    lemma_piece_size_divides(r);
    lemma_shelves_volume_multiple(c.shelves@, r);
    lemma_barrels_volume_multiple(c.barrels@, r);
    lemma_boxes_volume_multiple(c.floor_boxes@, r, c.rooms@.len() as int);
    lemma_shelves_volume_nonneg(c.shelves@, r);
    lemma_barrels_volume_nonneg(c.barrels@, r);
    lemma_boxes_volume_nonneg(c.floor_boxes@, r);
    vstd::arithmetic::div_mod::lemma_add_mod_noop(
        shelves_volume(c.shelves@, r),
        barrels_volume(c.barrels@, r),
        spec_piece_size(r),
    );
    vstd::arithmetic::div_mod::lemma_add_mod_noop(
        shelves_volume(c.shelves@, r) + barrels_volume(c.barrels@, r),
        boxes_volume(c.floor_boxes@, r),
        spec_piece_size(r),
    );
}

/// How many whole units of the resource the colony's containers hold.
pub fn how_much_we_have(colony: &Colony, resource: Resource) -> (ret: RealUnits)
    requires
        colony.wf(),
    ensures
        ret.0 as int == spec_units_of(*colony, resource),
{
    let ghost sh = colony.shelves@;
    let ghost ba = colony.barrels@;
    let ghost bx = colony.floor_boxes@;
    let mut sum: usize = 0;
    let mut i: usize = 0;
    while i < colony.shelves.len()
        invariant
            colony.wf(),
            i <= sh.len(),
            sh == colony.shelves@,
            sh.len() <= CONTAINER_LIMIT,
            sum as int == shelves_volume(sh.take(i as int), resource),
            sum <= i * (CONTAINER_VOLUME as int),
        decreases sh.len() - i,
    {
        let shelf = colony.shelves[i];
        proof {
            lemma_shelves_volume_take_step(sh, i as int);
        }
        match shelf.resource {
            Some(r) => {
                if r == resource {
                    sum = sum + shelf.occupied.0;
                }
            },
            None => (),
        }
        i = i + 1;
    }
    proof {
        assert(sh.take(i as int) =~= sh);
        lemma_barrels_volume_nonneg(ba, resource);
        lemma_boxes_volume_nonneg(bx, resource);
    }
    let mut j: usize = 0;
    while j < colony.barrels.len()
        invariant
            colony.wf(),
            j <= ba.len(),
            ba == colony.barrels@,
            ba.len() <= CONTAINER_LIMIT,
            sum as int == shelves_volume(sh, resource) + barrels_volume(
                ba.take(j as int),
                resource,
            ),
            sh == colony.shelves@,
            sh.len() <= CONTAINER_LIMIT,
            shelves_volume(sh, resource) <= sh.len() * (CONTAINER_VOLUME as int),
            sum <= (sh.len() + j) * (CONTAINER_VOLUME as int),
        decreases ba.len() - j,
    {
        let barrel = colony.barrels[j];
        proof {
            lemma_barrels_volume_take_step(ba, j as int);
        }
        match barrel.resource {
            Some(r) => {
                if r == resource {
                    sum = sum + barrel.occupied.0;
                }
            },
            None => (),
        }
        j = j + 1;
    }
    proof {
        assert(ba.take(j as int) =~= ba);
    }
    let mut k: usize = 0;
    while k < colony.floor_boxes.len()
        invariant
            colony.wf(),
            k <= bx.len(),
            bx == colony.floor_boxes@,
            bx.len() <= CONTAINER_LIMIT,
            sum as int == shelves_volume(sh, resource) + barrels_volume(ba, resource)
                + boxes_volume(bx.take(k as int), resource),
            sh == colony.shelves@,
            ba == colony.barrels@,
            shelves_volume(sh, resource) + barrels_volume(ba, resource) <= (sh.len() + ba.len()) * (
            CONTAINER_VOLUME as int),
            sh.len() + ba.len() <= 2 * CONTAINER_LIMIT,
            sum <= (sh.len() + ba.len() + k) * (CONTAINER_VOLUME as int),
        decreases bx.len() - k,
    {
        let fbox = colony.floor_boxes[k];
        proof {
            lemma_boxes_volume_take_step(bx, k as int);
        }
        if fbox.resource == resource {
            sum = sum + fbox.occupied.0;
        }
        k = k + 1;
    }
    proof {
        assert(bx.take(k as int) =~= bx);
    }
    volume2real(resource, VolumeOccupied(sum))
}

/// Whether the colony holds at least the given amount of the resource.
pub fn have_enough(colony: &Colony, resource: Resource, amount: RealUnits) -> (ret: bool)
    requires
        colony.wf(),
    ensures
        ret == spec_have_enough(*colony, resource, amount.0 as int),
{
    let stock = how_much_we_have(colony, resource);
    stock.0 >= amount.0
}

/// Whether the colony holds every entry of the cost table at once.
pub fn enough_resources(colony: &Colony, required: &Vec<(Resource, RealUnits)>) -> (ret: bool)
    requires
        colony.wf(),
    ensures
        ret == forall|i: int|
            0 <= i < required@.len() ==> spec_have_enough(
                *colony,
                required@[i].0,
                required@[i].1.0 as int,
            ),
{
    let mut result = true;
    let mut i: usize = 0;
    while i < required.len() && result
        invariant
            colony.wf(),
            i <= required@.len(),
            result ==> forall|j: int|
                0 <= j < i ==> spec_have_enough(*colony, required@[j].0, required@[j].1.0 as int),
            !result ==> exists|j: int|
                0 <= j < required@.len() && !spec_have_enough(
                    *colony,
                    required@[j].0,
                    required@[j].1.0 as int,
                ),
        decreases required@.len() - i,
    {
        let (res, amount) = required[i];
        if !have_enough(colony, res, amount) {
            result = false;
        }
        i = i + 1;
    }
    result
}

proof fn lemma_boxes_none_when_zero(s: Seq<FloorBox>, r: Resource, n_rooms: int)
    requires
        forall|i: int| 0 <= i < s.len() ==> s[i].wf(n_rooms),
        boxes_volume(s, r) == 0,
    ensures
        forall|i: int| 0 <= i < s.len() ==> s[i].resource != r,
    decreases s.len(),
{
    if s.len() > 0 {
        assert(forall|i: int| 0 <= i < s.drop_last().len() ==> s.drop_last()[i] == s[i]);
        lemma_boxes_volume_nonneg(s.drop_last(), r);
        assert(s[s.len() - 1].wf(n_rooms));
        lemma_boxes_none_when_zero(s.drop_last(), r, n_rooms);
    }
}

/// Law: storing any amount of a solid resource that fits into the currently
/// free solid capacity (untagged shelves plus floor box footprints in party
/// rooms) leaves nothing over, and the stock afterwards covers the amount.
/// The two transition premises are exactly what `put_resource` ensures of a
/// solid store.
pub proof fn storing_within_free_capacity_covers(
    c1: Colony,
    c2: Colony,
    r: Resource,
    amount: int,
    leftover: int,
)
    requires
        c1.wf(),
        spec_container_type(r) == StorageType::Solid,
        0 <= amount <= free_solid_units(c1, r),
        leftover == pack_leftover(
            amount,
            empty_shelves(c1.shelves@) + party_slots(c1.rooms@),
            r,
        ),
        total_volume(c2, r) == total_volume(c1, r) + (amount - leftover) * spec_piece_size(r),
    ensures
        leftover == 0,
        spec_have_enough(c2, r, amount),
{
    let s = spec_piece_size(r);
    lemma_piece_size_divides(r);
    lemma_total_volume_multiple(c1, r);
    let t = total_volume(c1, r);
    vstd::arithmetic::div_mod::lemma_fundamental_div_mod(t, s);
    let q = t / s;
    vstd::arithmetic::div_mod::lemma_div_pos_is_pos(t, s);
    assert(total_volume(c2, r) == (q + amount) * s) by (nonlinear_arith)
        requires t == s * q && total_volume(c2, r) == t + amount * s;
    vstd::arithmetic::div_mod::lemma_div_by_multiple(q + amount, s);
}

/// Law: a round trip through storage vanishes. Storing an amount of a
/// resource into a colony that held none of it, with nothing left over, and
/// then writing the same amount off leaves the colony unable to provide even
/// one unit, and destroys every floor box that held the resource. The two
/// transition premises are exactly what `put_resource` and `writeoff`
/// ensure.
pub proof fn store_writeoff_round_trip(
    c1: Colony,
    c2: Colony,
    c3: Colony,
    r: Resource,
    n: int,
)
    requires
        c1.wf(),
        c2.wf(),
        c3.wf(),
        0 <= n,
        total_volume(c1, r) == 0,
        total_volume(c2, r) == total_volume(c1, r) + n * spec_piece_size(r),
        total_volume(c3, r) == total_volume(c2, r) - n * spec_piece_size(r),
    ensures
        spec_units_of(c3, r) == 0,
        forall|m: int| m >= 1 ==> !spec_have_enough(c3, r, m),
        forall|i: int| 0 <= i < c3.floor_boxes@.len() ==> c3.floor_boxes@[i].resource != r,
{
    let s = spec_piece_size(r);
    lemma_piece_size_divides(r);
    assert(total_volume(c3, r) == 0);
    vstd::arithmetic::div_mod::lemma_basic_div(0, s);
    lemma_shelves_volume_nonneg(c3.shelves@, r);
    lemma_barrels_volume_nonneg(c3.barrels@, r);
    lemma_boxes_volume_nonneg(c3.floor_boxes@, r);
    lemma_boxes_none_when_zero(c3.floor_boxes@, r, c3.rooms@.len() as int);
}

/// What draining `amount` units against `vol` stored volume leaves over.
pub open spec fn drain_leftover(amount: int, vol: int, r: Resource) -> int {
    if amount * spec_piece_size(r) <= vol {
        0
    } else {
        amount - vol / spec_piece_size(r)
    }
}

/// Draining against two stores in turn takes as much as draining against
/// their union, as long as both hold whole numbers of units.
proof fn lemma_drain_compose(amount: int, v1: int, v2: int, r: Resource)
    requires
        0 <= v1,
        0 <= v2,
        v1 % spec_piece_size(r) == 0,
        v2 % spec_piece_size(r) == 0,
    ensures
        drain_leftover(drain_leftover(amount, v1, r), v2, r) == drain_leftover(amount, v1 + v2, r),
{
    let s = spec_piece_size(r);
    lemma_piece_size_divides(r);
    vstd::arithmetic::div_mod::lemma_fundamental_div_mod(v1, s);
    vstd::arithmetic::div_mod::lemma_fundamental_div_mod(v2, s);
    vstd::arithmetic::div_mod::lemma_add_mod_noop(v1, v2, s);
    vstd::arithmetic::div_mod::lemma_fundamental_div_mod_converse(
        v1 + v2,
        s,
        v1 / s + v2 / s,
        0,
    );
    vstd::arithmetic::div_mod::lemma_div_pos_is_pos(v1, s);
    vstd::arithmetic::div_mod::lemma_div_pos_is_pos(v2, s);
    assert(forall|a: int, b: int|
        0 <= a && 0 <= b ==> a * s <= #[trigger] ((a + b) * s) && (a + b) * s == a * s + b * s)
        by (nonlinear_arith)
        requires s >= 1;
}

proof fn lemma_boxes_volume_zero_when_untagged(s: Seq<FloorBox>, r: Resource)
    requires
        forall|i: int| 0 <= i < s.len() ==> s[i].resource != r,
    ensures
        boxes_volume(s, r) == 0,
    decreases s.len(),
{
    if s.len() > 0 {
        assert(forall|i: int| 0 <= i < s.drop_last().len() ==> s.drop_last()[i] == s[i]);
        lemma_boxes_volume_zero_when_untagged(s.drop_last(), r);
    }
}

proof fn lemma_shelves_volume_zero_when_untagged(s: Seq<Shelf>, r: Resource)
    requires
        forall|i: int| 0 <= i < s.len() ==> s[i].resource != Some(r),
    ensures
        shelves_volume(s, r) == 0,
    decreases s.len(),
{
    if s.len() > 0 {
        assert(forall|i: int| 0 <= i < s.drop_last().len() ==> s.drop_last()[i] == s[i]);
        lemma_shelves_volume_zero_when_untagged(s.drop_last(), r);
    }
}

proof fn lemma_barrels_volume_zero_when_untagged(s: Seq<Barrel>, r: Resource)
    requires
        forall|i: int| 0 <= i < s.len() ==> s[i].resource != Some(r),
    ensures
        barrels_volume(s, r) == 0,
    decreases s.len(),
{
    if s.len() > 0 {
        assert(forall|i: int| 0 <= i < s.drop_last().len() ==> s.drop_last()[i] == s[i]);
        lemma_barrels_volume_zero_when_untagged(s.drop_last(), r);
    }
}

/// Index of the most filled floor box holding the resource, the first among
/// equally filled ones; `None` when no box holds it.
fn max_box(boxes: &Vec<FloorBox>, r: Resource) -> (ret: Option<usize>)
    ensures
        match ret {
            Some(j) => {
                &&& j < boxes@.len()
                &&& boxes@[j as int].resource == r
                &&& forall|k: int|
                    0 <= k < boxes@.len() && boxes@[k].resource == r ==> boxes@[k].occupied.0
                        <= boxes@[j as int].occupied.0
            },
            None => forall|k: int| 0 <= k < boxes@.len() ==> boxes@[k].resource != r,
        },
{
    let mut best: Option<usize> = None;
    let mut i: usize = 0;
    while i < boxes.len()
        invariant
            i <= boxes@.len(),
            match best {
                Some(j) => {
                    &&& j < i
                    &&& boxes@[j as int].resource == r
                    &&& forall|k: int|
                        0 <= k < i && boxes@[k].resource == r ==> boxes@[k].occupied.0
                            <= boxes@[j as int].occupied.0
                },
                None => forall|k: int| 0 <= k < i ==> boxes@[k].resource != r,
            },
        decreases boxes@.len() - i,
    {
        if boxes[i].resource == r {
            match best {
                None => {
                    best = Some(i);
                },
                Some(j) => {
                    if boxes[i].occupied.0 > boxes[j].occupied.0 {
                        best = Some(i);
                    }
                },
            }
        }
        i = i + 1;
    }
    best
}

/// Index of the most filled shelf holding the resource, the first among
/// equally filled ones; `None` when no shelf holds it.
fn max_shelf(shelves: &Vec<Shelf>, r: Resource) -> (ret: Option<usize>)
    ensures
        match ret {
            Some(j) => {
                &&& j < shelves@.len()
                &&& shelves@[j as int].resource == Some(r)
                &&& forall|k: int|
                    0 <= k < shelves@.len() && shelves@[k].resource == Some(r)
                        ==> shelves@[k].occupied.0 <= shelves@[j as int].occupied.0
            },
            None => forall|k: int| 0 <= k < shelves@.len() ==> shelves@[k].resource != Some(r),
        },
{
    let mut best: Option<usize> = None;
    let mut i: usize = 0;
    while i < shelves.len()
        invariant
            i <= shelves@.len(),
            match best {
                Some(j) => {
                    &&& j < i
                    &&& shelves@[j as int].resource == Some(r)
                    &&& forall|k: int|
                        0 <= k < i && shelves@[k].resource == Some(r) ==> shelves@[k].occupied.0
                            <= shelves@[j as int].occupied.0
                },
                None => forall|k: int| 0 <= k < i ==> shelves@[k].resource != Some(r),
            },
        decreases shelves@.len() - i,
    {
        let tagged = match shelves[i].resource {
            Some(res) => res == r,
            None => false,
        };
        if tagged {
            match best {
                None => {
                    best = Some(i);
                },
                Some(j) => {
                    if shelves[i].occupied.0 > shelves[j].occupied.0 {
                        best = Some(i);
                    }
                },
            }
        }
        i = i + 1;
    }
    best
}

/// Index of the most filled barrel holding the resource, the first among
/// equally filled ones; `None` when no barrel holds it.
fn max_barrel(barrels: &Vec<Barrel>, r: Resource) -> (ret: Option<usize>)
    ensures
        match ret {
            Some(j) => {
                &&& j < barrels@.len()
                &&& barrels@[j as int].resource == Some(r)
                &&& forall|k: int|
                    0 <= k < barrels@.len() && barrels@[k].resource == Some(r)
                        ==> barrels@[k].occupied.0 <= barrels@[j as int].occupied.0
            },
            None => forall|k: int| 0 <= k < barrels@.len() ==> barrels@[k].resource != Some(r),
        },
{
    let mut best: Option<usize> = None;
    let mut i: usize = 0;
    while i < barrels.len()
        invariant
            i <= barrels@.len(),
            match best {
                Some(j) => {
                    &&& j < i
                    &&& barrels@[j as int].resource == Some(r)
                    &&& forall|k: int|
                        0 <= k < i && barrels@[k].resource == Some(r) ==> barrels@[k].occupied.0
                            <= barrels@[j as int].occupied.0
                },
                None => forall|k: int| 0 <= k < i ==> barrels@[k].resource != Some(r),
            },
        decreases barrels@.len() - i,
    {
        let tagged = match barrels[i].resource {
            Some(res) => res == r,
            None => false,
        };
        if tagged {
            match best {
                None => {
                    best = Some(i);
                },
                Some(j) => {
                    if barrels[i].occupied.0 > barrels[j].occupied.0 {
                        best = Some(i);
                    }
                },
            }
        }
        i = i + 1;
    }
    best
}

proof fn lemma_shelves_volume_bound(s: Seq<Shelf>)
    requires
        forall|i: int| 0 <= i < s.len() ==> s[i].wf(),
    ensures
        forall|r: Resource| #[trigger]
            shelves_volume(s, r) <= s.len() * (CONTAINER_VOLUME as int),
    decreases s.len(),
{
    if s.len() > 0 {
        assert(forall|i: int| 0 <= i < s.drop_last().len() ==> s.drop_last()[i] == s[i]);
        lemma_shelves_volume_bound(s.drop_last());
        assert(s[s.len() - 1].wf());
        assert forall|r: Resource| #[trigger]
            shelves_volume(s, r) <= s.len() * (CONTAINER_VOLUME as int) by {
            assert(shelves_volume(s, r) == shelves_volume(s.drop_last(), r) + shelf_part(
                s.last(),
                r,
            ));
            assert(shelf_part(s.last(), r) <= CONTAINER_VOLUME as int);
        }
    }
}

proof fn lemma_barrels_volume_bound(s: Seq<Barrel>)
    requires
        forall|i: int| 0 <= i < s.len() ==> s[i].wf(),
    ensures
        forall|r: Resource| #[trigger]
            barrels_volume(s, r) <= s.len() * (CONTAINER_VOLUME as int),
    decreases s.len(),
{
    if s.len() > 0 {
        assert(forall|i: int| 0 <= i < s.drop_last().len() ==> s.drop_last()[i] == s[i]);
        lemma_barrels_volume_bound(s.drop_last());
        assert(s[s.len() - 1].wf());
        assert forall|r: Resource| #[trigger]
            barrels_volume(s, r) <= s.len() * (CONTAINER_VOLUME as int) by {
            assert(barrels_volume(s, r) == barrels_volume(s.drop_last(), r) + barrel_part(
                s.last(),
                r,
            ));
            assert(barrel_part(s.last(), r) <= CONTAINER_VOLUME as int);
        }
    }
}

proof fn lemma_boxes_volume_bound(s: Seq<FloorBox>, n_rooms: int)
    requires
        forall|i: int| 0 <= i < s.len() ==> s[i].wf(n_rooms),
    ensures
        forall|r: Resource| #[trigger] boxes_volume(s, r) <= s.len() * (CONTAINER_VOLUME as int),
    decreases s.len(),
{
    if s.len() > 0 {
        assert(forall|i: int| 0 <= i < s.drop_last().len() ==> s.drop_last()[i] == s[i]);
        lemma_boxes_volume_bound(s.drop_last(), n_rooms);
        assert(s[s.len() - 1].wf(n_rooms));
        assert forall|r: Resource| #[trigger]
            boxes_volume(s, r) <= s.len() * (CONTAINER_VOLUME as int) by {
            assert(boxes_volume(s, r) == boxes_volume(s.drop_last(), r) + box_part(s.last(), r));
            assert(box_part(s.last(), r) <= CONTAINER_VOLUME as int);
        }
    }
}

/// A positive whole number of units is at least one unit's volume.
proof fn lemma_positive_multiple_at_least(occ: int, s: int)
    requires
        0 < occ,
        1 <= s,
        occ % s == 0,
    ensures
        occ >= s,
        occ / s >= 1,
        (occ / s) * s == occ,
    decreases 0int,
{
    if occ < s {
        vstd::arithmetic::div_mod::lemma_small_mod(occ as nat, s as nat);
    }
    vstd::arithmetic::div_mod::lemma_div_non_zero(occ, s);
    vstd::arithmetic::div_mod::lemma_fundamental_div_mod(occ, s);
}

/// The floor boxes left after the sweep: every box of the resource drained
/// empty is gone; everything else keeps its place and order.
pub open spec fn swept_boxes(s: Seq<FloorBox>, r: Resource) -> Seq<FloorBox>
    decreases s.len(),
{
    if s.len() == 0 {
        Seq::empty()
    } else {
        let prefix = swept_boxes(s.drop_last(), r);
        if s.last().resource == r && s.last().occupied.0 == 0 {
            prefix
        } else {
            prefix.push(s.last())
        }
    }
}

/// The rooms after the sweep: every removed box gives its footprint of
/// `CONTAINER_SIZE` area units back to its room, never below zero.
pub open spec fn released_rooms(s: Seq<FloorBox>, r: Resource, rooms: Seq<Room>) -> Seq<Room>
    decreases s.len(),
{
    if s.len() == 0 {
        rooms
    } else {
        let prev = released_rooms(s.drop_last(), r, rooms);
        let b = s.last();
        if b.resource == r && b.occupied.0 == 0 && 0 <= b.room.0 < prev.len() {
            prev.update(
                b.room.0 as int,
                (Room {
                    purpose: prev[b.room.0 as int].purpose,
                    tier: prev[b.room.0 as int].tier,
                    capacity: prev[b.room.0 as int].capacity,
                    occupied: AreaOccupied(
                        if prev[b.room.0 as int].occupied.0 >= CONTAINER_SIZE {
                            (prev[b.room.0 as int].occupied.0 - CONTAINER_SIZE) as usize
                        } else {
                            0usize
                        },
                    ),
                }),
            )
        } else {
            prev
        }
    }
}

/// Boxes of the resource the sweep removes from one room.
pub open spec fn boxes_removed_in_room(s: Seq<FloorBox>, r: Resource, j: int) -> int
    decreases s.len(),
{
    if s.len() == 0 {
        0
    } else {
        boxes_removed_in_room(s.drop_last(), r, j) + if s.last().resource == r
            && s.last().occupied.0 == 0 && s.last().room.0 == j {
            1int
        } else {
            0int
        }
    }
}

/// Law: the sweep gives exactly `CONTAINER_SIZE` area units back per box it
/// removes from a room, stopping at zero.
pub proof fn lemma_released_rooms_occupancy(
    s: Seq<FloorBox>,
    r: Resource,
    rooms: Seq<Room>,
    j: int,
)
    requires
        0 <= j < rooms.len(),
    ensures
        released_rooms(s, r, rooms).len() == rooms.len(),
        released_rooms(s, r, rooms)[j].purpose == rooms[j].purpose,
        released_rooms(s, r, rooms)[j].tier == rooms[j].tier,
        released_rooms(s, r, rooms)[j].capacity == rooms[j].capacity,
        released_rooms(s, r, rooms)[j].occupied.0 as int == (if rooms[j].occupied.0 >= (
        CONTAINER_SIZE as int) * boxes_removed_in_room(s, r, j) {
            rooms[j].occupied.0 - (CONTAINER_SIZE as int) * boxes_removed_in_room(s, r, j)
        } else {
            0int
        }),
    decreases s.len(),
{
    if s.len() > 0 {
        lemma_released_rooms_occupancy(s.drop_last(), r, rooms, j);
    }
}

proof fn lemma_boxes_volume_zero_when_empty(s: Seq<FloorBox>, r: Resource)
    requires
        forall|i: int| 0 <= i < s.len() && s[i].resource == r ==> s[i].occupied.0 == 0,
    ensures
        boxes_volume(s, r) == 0,
    decreases s.len(),
{
    if s.len() > 0 {
        assert(forall|i: int| 0 <= i < s.drop_last().len() ==> s.drop_last()[i] == s[i]);
        lemma_boxes_volume_zero_when_empty(s.drop_last(), r);
    }
}

/// Take the resource out of the floor boxes in place, most filled first: a
/// box the take empties keeps its place with zero volume until the sweep
/// deletes it. Returns the amount the boxes could not provide.
fn drain_boxes(boxes: &mut Vec<FloorBox>, resource: Resource, amount: RealUnits) -> (ret:
    RealUnits)
    requires
        amount.0 * spec_piece_size(resource) <= usize::MAX,
        forall|i: int|
            0 <= i < old(boxes)@.len() ==> old(boxes)@[i].occupied.0 <= CONTAINER_VOLUME && (old(
                boxes,
            )@[i].resource == resource ==> old(boxes)@[i].occupied.0 as int % spec_piece_size(
                resource,
            ) == 0),
    ensures
        final(boxes)@.len() == old(boxes)@.len(),
        ret.0 <= amount.0,
        ret.0 as int == drain_leftover(
            amount.0 as int,
            boxes_volume(old(boxes)@, resource),
            resource,
        ),
        boxes_volume(final(boxes)@, resource) == boxes_volume(old(boxes)@, resource) - (amount.0
            - ret.0) * spec_piece_size(resource),
        forall|r2: Resource|
            r2 != resource ==> boxes_volume(final(boxes)@, r2) == boxes_volume(old(boxes)@, r2),
        forall|i: int|
            0 <= i < old(boxes)@.len() ==> final(boxes)@[i] == old(boxes)@[i] || (old(
                boxes,
            )@[i].resource == resource && final(boxes)@[i].occupied.0 < old(boxes)@[i].occupied.0
                && final(boxes)@[i].resource == resource && final(boxes)@[i].room == old(
                boxes,
            )@[i].room),
        forall|a: int, b: int|
            0 <= a < old(boxes)@.len() && 0 <= b < old(boxes)@.len() && final(boxes)@[a] != old(
                boxes,
            )@[a] && final(boxes)@[b] == old(boxes)@[b] && old(boxes)@[b].resource == resource
                && old(boxes)@[b].occupied.0 > 0 ==> old(boxes)@[b].occupied.0 <= old(
                boxes,
            )@[a].occupied.0,
        forall|a: int, b: int|
            0 <= a < old(boxes)@.len() && 0 <= b < old(boxes)@.len() && a != b && final(boxes)@[a]
                != old(boxes)@[a] && final(boxes)@[a].occupied.0 > 0 ==> !(final(boxes)@[b] != old(
                boxes,
            )@[b] && final(boxes)@[b].occupied.0 > 0),
        amount.0 == 0 ==> final(boxes)@ == old(boxes)@,
        forall|i: int|
            0 <= i < final(boxes)@.len() ==> final(boxes)@[i].occupied.0 <= CONTAINER_VOLUME && (
            final(boxes)@[i].resource == resource ==> final(boxes)@[i].occupied.0 as int
                % spec_piece_size(resource) == 0),
{
    let ghost b0 = boxes@;
    let ghost vol0 = boxes_volume(b0, resource);
    let size = piece_size(resource);
    proof {
        lemma_piece_size_divides(resource);
        lemma_boxes_volume_nonneg(b0, resource);
    }
    let mut rest: usize = amount.0;
    let mut exhausted = false;
    while rest > 0 && !exhausted
        invariant
            boxes@.len() == b0.len(),
            rest <= amount.0,
            amount.0 == 0 ==> boxes@ == b0,
            size.0 == spec_piece_size(resource),
            1 <= size.0 <= CONTAINER_VOLUME,
            amount.0 * spec_piece_size(resource) <= usize::MAX,
            forall|i: int|
                0 <= i < b0.len() ==> b0[i].occupied.0 <= CONTAINER_VOLUME && (b0[i].resource
                    == resource ==> b0[i].occupied.0 as int % spec_piece_size(resource) == 0),
            forall|i: int|
                0 <= i < b0.len() ==> boxes@[i].occupied.0 <= CONTAINER_VOLUME && (boxes@[i].resource
                    == resource ==> boxes@[i].occupied.0 as int % spec_piece_size(resource) == 0),
            forall|i: int|
                0 <= i < b0.len() ==> boxes@[i] == b0[i] || (b0[i].resource == resource
                    && boxes@[i].occupied.0 < b0[i].occupied.0 && boxes@[i].resource == resource
                    && boxes@[i].room == b0[i].room),
            rest > 0 ==> forall|i: int|
                0 <= i < b0.len() ==> boxes@[i] == b0[i] || boxes@[i].occupied.0 == 0,
            forall|a: int, b: int|
                0 <= a < b0.len() && 0 <= b < b0.len() && boxes@[a] != b0[a] && boxes@[b] == b0[b]
                    && b0[b].resource == resource && b0[b].occupied.0 > 0 ==> b0[b].occupied.0
                    <= b0[a].occupied.0,
            forall|a: int, b: int|
                0 <= a < b0.len() && 0 <= b < b0.len() && a != b && boxes@[a] != b0[a]
                    && boxes@[a].occupied.0 > 0 ==> !(boxes@[b] != b0[b] && boxes@[b].occupied.0
                    > 0),
            boxes_volume(boxes@, resource) == vol0 - (amount.0 - rest) * spec_piece_size(resource),
            forall|r2: Resource|
                r2 != resource ==> boxes_volume(boxes@, r2) == boxes_volume(b0, r2),
            vol0 == boxes_volume(b0, resource),
            exhausted ==> boxes_volume(boxes@, resource) == 0,
        decreases rest, (if exhausted { 0int } else { 1int }),
    {
        let choice = max_box(boxes, resource);
        match choice {
            None => {
                proof {
                    lemma_boxes_volume_zero_when_untagged(boxes@, resource);
                }
                exhausted = true;
            },
            Some(j) => {
                let ghost pre = boxes@;
                let the_box = boxes[j];
                let occ = the_box.occupied.0;
                if occ == 0 {
                    proof {
                        lemma_boxes_volume_zero_when_empty(boxes@, resource);
                    }
                    exhausted = true;
                } else {
                    proof {
                        assert(rest * size.0 <= amount.0 * size.0) by (nonlinear_arith)
                            requires rest <= amount.0 && size.0 >= 1;
                    }
                    let need_vol = rest * size.0;
                    if occ <= need_vol {
                        proof {
                            lemma_positive_multiple_at_least(occ as int, size.0 as int);
                            vstd::arithmetic::div_mod::lemma_div_is_ordered(
                                occ as int,
                                need_vol as int,
                                size.0 as int,
                            );
                            vstd::arithmetic::div_mod::lemma_div_by_multiple(
                                rest as int,
                                size.0 as int,
                            );
                        }
                        let taken_units = occ / size.0;
                        let emptied = FloorBox {
                            resource: the_box.resource,
                            occupied: VolumeOccupied(0),
                            room: the_box.room,
                        };
                        boxes.set(j, emptied);
                        rest = rest - taken_units;
                        proof {
                            vstd::arithmetic::div_mod::lemma_small_mod(0nat, size.0 as nat);
                            lemma_boxes_volume_update(pre, j as int, emptied, resource);
                            assert forall|r2: Resource| r2 != resource implies boxes_volume(
                                boxes@,
                                r2,
                            ) == boxes_volume(pre, r2) by {
                                lemma_boxes_volume_update(pre, j as int, emptied, r2);
                            }
                            assert((amount.0 - (rest + taken_units)) * size.0 + taken_units
                                * size.0 == (amount.0 - rest) * size.0) by (nonlinear_arith);
                        }
                    } else {
                        let ghost rest_pre = rest;
                        proof {
                            vstd::arithmetic::div_mod::lemma_mod_multiples_basic(
                                rest as int,
                                size.0 as int,
                            );
                            vstd::arithmetic::div_mod::lemma_sub_mod_noop(
                                occ as int,
                                need_vol as int,
                                size.0 as int,
                            );
                            vstd::arithmetic::div_mod::lemma_small_mod(0nat, size.0 as nat);
                            assert((occ - need_vol) as int % (size.0 as int) == 0);
                        }
                        let drained = FloorBox {
                            resource: the_box.resource,
                            occupied: VolumeOccupied(occ - need_vol),
                            room: the_box.room,
                        };
                        boxes.set(j, drained);
                        rest = 0;
                        proof {
                            lemma_boxes_volume_update(pre, j as int, drained, resource);
                            assert forall|r2: Resource| r2 != resource implies boxes_volume(
                                boxes@,
                                r2,
                            ) == boxes_volume(pre, r2) by {
                                lemma_boxes_volume_update(pre, j as int, drained, r2);
                            }
                            assert(amount.0 * size.0 == (amount.0 - rest_pre) * size.0 + rest_pre
                                * size.0) by (nonlinear_arith);
                        }
                    }
                }
            },
        }
    }
    proof {
        lemma_boxes_volume_nonneg(boxes@, resource);
        if amount.0 == 0 {
            assert(boxes@ =~= b0);
        }
        if rest == 0 {
            assert(amount.0 * spec_piece_size(resource) <= vol0);
        } else {
            assert(boxes_volume(boxes@, resource) == 0);
            assert(vol0 == (amount.0 - rest) * spec_piece_size(resource));
            vstd::arithmetic::div_mod::lemma_div_by_multiple(
                amount.0 - rest,
                spec_piece_size(resource),
            );
            assert((amount.0 - rest) * spec_piece_size(resource) < amount.0 * spec_piece_size(
                resource,
            )) by (nonlinear_arith)
                requires rest >= 1 && spec_piece_size(resource) >= 1 && rest <= amount.0;
        }
    }
    RealUnits(rest)
}

/// Delete every box of the resource the drain emptied and give each box's
/// footprint back to its room.
fn sweep_empty_boxes(colony: &mut Colony, resource: Resource)
    requires
        forall|i: int|
            0 <= i < old(colony).floor_boxes@.len() ==> {
                let b = #[trigger] old(colony).floor_boxes@[i];
                &&& (b.resource == resource ==> b.occupied.0 <= CONTAINER_VOLUME
                    && b.occupied.0 as int % spec_piece_size(resource) == 0 && (b.room.0 as int)
                    < old(colony).rooms@.len())
                &&& (b.resource != resource ==> b.wf(old(colony).rooms@.len() as int))
            },
        forall|j: int| 0 <= j < old(colony).rooms@.len() ==> old(colony).rooms@[j].wf(),
    ensures
        final(colony).floor_boxes@ == swept_boxes(old(colony).floor_boxes@, resource),
        final(colony).rooms@ == released_rooms(
            old(colony).floor_boxes@,
            resource,
            old(colony).rooms@,
        ),
        final(colony).colonists == old(colony).colonists,
        final(colony).stationaries == old(colony).stationaries,
        final(colony).tasks == old(colony).tasks,
        final(colony).shelves == old(colony).shelves,
        final(colony).barrels == old(colony).barrels,
        final(colony).rooms@.len() == old(colony).rooms@.len(),
        forall|j: int|
            0 <= j < final(colony).rooms@.len() ==> {
                &&& final(colony).rooms@[j].purpose == old(colony).rooms@[j].purpose
                &&& final(colony).rooms@[j].tier == old(colony).rooms@[j].tier
                &&& final(colony).rooms@[j].capacity == old(colony).rooms@[j].capacity
                &&& final(colony).rooms@[j].occupied.0 <= old(colony).rooms@[j].occupied.0
                &&& final(colony).rooms@[j].wf()
            },
        final(colony).floor_boxes@.len() <= old(colony).floor_boxes@.len(),
        forall|i: int|
            0 <= i < final(colony).floor_boxes@.len() ==> final(colony).floor_boxes@[i].wf(
                final(colony).rooms@.len() as int,
            ),
        forall|r2: Resource| #[trigger]
            boxes_volume(final(colony).floor_boxes@, r2) == boxes_volume(
                old(colony).floor_boxes@,
                r2,
            ),
{
    let ghost b0 = colony.floor_boxes@;
    let ghost r0 = colony.rooms@;
    let mut kept: Vec<FloorBox> = Vec::new();
    let mut i: usize = 0;
    while i < colony.floor_boxes.len()
        invariant
            colony.floor_boxes@ == b0,
            colony.colonists == old(colony).colonists,
            colony.stationaries == old(colony).stationaries,
            colony.tasks == old(colony).tasks,
            colony.shelves == old(colony).shelves,
            colony.barrels == old(colony).barrels,
            i <= b0.len(),
            kept@.len() <= i,
            forall|k: int|
                0 <= k < b0.len() ==> {
                    let b = #[trigger] b0[k];
                    &&& (b.resource == resource ==> b.occupied.0 <= CONTAINER_VOLUME
                        && b.occupied.0 as int % spec_piece_size(resource) == 0 && (b.room.0 as int)
                        < r0.len())
                    &&& (b.resource != resource ==> b.wf(r0.len() as int))
                },
            kept@ == swept_boxes(b0.take(i as int), resource),
            colony.rooms@ == released_rooms(b0.take(i as int), resource, r0),
            colony.rooms@.len() == r0.len(),
            forall|j: int|
                0 <= j < r0.len() ==> {
                    &&& (#[trigger] colony.rooms@[j]).purpose == r0[j].purpose
                    &&& colony.rooms@[j].tier == r0[j].tier
                    &&& colony.rooms@[j].capacity == r0[j].capacity
                    &&& colony.rooms@[j].occupied.0 <= r0[j].occupied.0
                    &&& colony.rooms@[j].wf()
                },
            forall|k: int|
                0 <= k < kept@.len() ==> (#[trigger] kept@[k]).wf(r0.len() as int),
            forall|r2: Resource| #[trigger]
                boxes_volume(kept@, r2) == boxes_volume(b0.take(i as int), r2),
        decreases b0.len() - i,
    {
        let b = colony.floor_boxes[i];
        proof {
            assert(b0.take(i as int + 1).drop_last() =~= b0.take(i as int));
            assert(b0.take(i as int + 1).last() == b0[i as int]);
            lemma_boxes_volume_take_step(b0, i as int);
        }
        let ghost kept_pre = kept@;
        if b.resource == resource && b.occupied.0 == 0 {
            let room = b.room.0;
            let here = colony.rooms[room];
            let freed = if here.occupied.0 >= CONTAINER_SIZE {
                here.occupied.0 - CONTAINER_SIZE
            } else {
                0
            };
            colony.rooms.set(
                room,
                Room {
                    purpose: here.purpose,
                    tier: here.tier,
                    capacity: here.capacity,
                    occupied: AreaOccupied(freed),
                },
            );
        } else {
            kept.push(b);
            proof {
                assert forall|r2: Resource| #[trigger]
                    boxes_volume(kept@, r2) == boxes_volume(
                    b0.take(i as int + 1),
                    r2,
                ) by {
                    lemma_boxes_volume_push(kept_pre, b0[i as int], r2);
                }
            }
        }
        i = i + 1;
    }
    proof {
        assert(b0.take(i as int) =~= b0);
    }
    colony.floor_boxes = kept;
}

/// How a floor write-off relates the boxes and rooms before and after: some
/// intermediate drain state `mid` drains only boxes of the resource, most
/// filled first (every box left untouched with stock was no fuller than any
/// drained one), leaves at most one box partially drained, and the sweep
/// then deletes the emptied boxes and gives their footprints back to their
/// rooms.
pub open spec fn floor_writeoff_rel(
    pre_boxes: Seq<FloorBox>,
    pre_rooms: Seq<Room>,
    post_boxes: Seq<FloorBox>,
    post_rooms: Seq<Room>,
    r: Resource,
) -> bool {
    exists|mid: Seq<FloorBox>|
        {
            &&& mid.len() == pre_boxes.len()
            &&& (forall|i: int|
                0 <= i < mid.len() ==> mid[i] == pre_boxes[i] || (pre_boxes[i].resource == r
                    && mid[i].occupied.0 < pre_boxes[i].occupied.0 && mid[i].resource == r
                    && mid[i].room == pre_boxes[i].room))
            &&& (forall|a: int, b: int|
                0 <= a < mid.len() && 0 <= b < mid.len() && mid[a] != pre_boxes[a] && mid[b]
                    == pre_boxes[b] && pre_boxes[b].resource == r && pre_boxes[b].occupied.0 > 0
                    ==> pre_boxes[b].occupied.0 <= pre_boxes[a].occupied.0)
            &&& (forall|a: int, b: int|
                0 <= a < mid.len() && 0 <= b < mid.len() && a != b && mid[a] != pre_boxes[a]
                    && mid[a].occupied.0 > 0 ==> !(mid[b] != pre_boxes[b] && mid[b].occupied.0
                    > 0))
            &&& #[trigger] swept_boxes(mid, r) == post_boxes
            &&& released_rooms(mid, r, pre_rooms) == post_rooms
        }
}

/// Take the resource out of the floor boxes, most filled first, deleting
/// each box it empties and freeing that box's footprint in its room.
/// Returns the amount that the boxes could not provide.
fn writeoff_from_floor(colony: &mut Colony, resource: Resource, amount: RealUnits) -> (ret:
    RealUnits)
    requires
        amount.0 * spec_piece_size(resource) <= usize::MAX,
        forall|j: int| 0 <= j < old(colony).rooms@.len() ==> old(colony).rooms@[j].wf(),
        forall|i: int|
            0 <= i < old(colony).floor_boxes@.len() ==> old(colony).floor_boxes@[i].wf(
                old(colony).rooms@.len() as int,
            ),
    ensures
        ret.0 <= amount.0,
        ret.0 as int == drain_leftover(
            amount.0 as int,
            boxes_volume(old(colony).floor_boxes@, resource),
            resource,
        ),
        boxes_volume(final(colony).floor_boxes@, resource) == boxes_volume(
            old(colony).floor_boxes@,
            resource,
        ) - (amount.0 - ret.0) * spec_piece_size(resource),
        forall|r2: Resource|
            r2 != resource ==> boxes_volume(final(colony).floor_boxes@, r2) == boxes_volume(
                old(colony).floor_boxes@,
                r2,
            ),
        final(colony).colonists == old(colony).colonists,
        final(colony).stationaries == old(colony).stationaries,
        final(colony).tasks == old(colony).tasks,
        final(colony).shelves == old(colony).shelves,
        final(colony).barrels == old(colony).barrels,
        final(colony).rooms@.len() == old(colony).rooms@.len(),
        forall|j: int|
            0 <= j < final(colony).rooms@.len() ==> {
                &&& final(colony).rooms@[j].purpose == old(colony).rooms@[j].purpose
                &&& final(colony).rooms@[j].tier == old(colony).rooms@[j].tier
                &&& final(colony).rooms@[j].capacity == old(colony).rooms@[j].capacity
                &&& final(colony).rooms@[j].occupied.0 <= old(colony).rooms@[j].occupied.0
                &&& final(colony).rooms@[j].wf()
            },
        final(colony).floor_boxes@.len() <= old(colony).floor_boxes@.len(),
        forall|i: int|
            0 <= i < final(colony).floor_boxes@.len() ==> final(colony).floor_boxes@[i].wf(
                final(colony).rooms@.len() as int,
            ),
        floor_writeoff_rel(
            old(colony).floor_boxes@,
            old(colony).rooms@,
            final(colony).floor_boxes@,
            final(colony).rooms@,
            resource,
        ),
{
    let ret = drain_boxes(&mut colony.floor_boxes, resource, amount);
    let ghost mid = colony.floor_boxes@;
    sweep_empty_boxes(colony, resource);
    proof {
        assert(swept_boxes(mid, resource) == colony.floor_boxes@);
    }
    ret
}

/// Take the resource off the shelves, most filled first, clearing the tag of
/// every shelf it empties. Returns the amount the shelves could not provide.
fn drain_shelves(shelves: &mut Vec<Shelf>, resource: Resource, amount: RealUnits) -> (ret:
    RealUnits)
    requires
        amount.0 * spec_piece_size(resource) <= usize::MAX,
        forall|i: int| 0 <= i < old(shelves)@.len() ==> old(shelves)@[i].wf(),
    ensures
        final(shelves)@.len() == old(shelves)@.len(),
        forall|i: int| 0 <= i < final(shelves)@.len() ==> final(shelves)@[i].wf(),
        ret.0 <= amount.0,
        ret.0 as int == drain_leftover(
            amount.0 as int,
            shelves_volume(old(shelves)@, resource),
            resource,
        ),
        shelves_volume(final(shelves)@, resource) == shelves_volume(old(shelves)@, resource) - (
        amount.0 - ret.0) * spec_piece_size(resource),
        forall|r2: Resource|
            r2 != resource ==> shelves_volume(final(shelves)@, r2) == shelves_volume(
                old(shelves)@,
                r2,
            ),
        forall|j: int|
            0 <= j < old(shelves)@.len() ==> final(shelves)@[j] == old(shelves)@[j] || (old(
                shelves,
            )@[j].resource == Some(resource) && final(shelves)@[j].occupied.0 < old(
                shelves,
            )@[j].occupied.0 && (final(shelves)@[j].resource == Some(resource)
                || final(shelves)@[j] == (Shelf { resource: None, occupied: VolumeOccupied(0) }))),
        forall|a: int, b: int|
            0 <= a < old(shelves)@.len() && 0 <= b < old(shelves)@.len() && final(shelves)@[a] != old(
                shelves,
            )@[a] && final(shelves)@[b] == old(shelves)@[b] && old(shelves)@[b].resource == Some(
                resource,
            ) ==> old(shelves)@[b].occupied.0 <= old(shelves)@[a].occupied.0,
        forall|a: int, b: int|
            0 <= a < old(shelves)@.len() && 0 <= b < old(shelves)@.len() && a != b && final(shelves)@[a] != old(shelves)@[a] && final(shelves)@[a].occupied.0 > 0 ==> !(final(shelves)@[b]
                != old(shelves)@[b] && final(shelves)@[b].occupied.0 > 0),
        amount.0 == 0 ==> final(shelves)@ == old(shelves)@,
{
    let ghost s0 = shelves@;
    let ghost vol0 = shelves_volume(s0, resource);
    let size = piece_size(resource);
    proof {
        lemma_piece_size_divides(resource);
        lemma_shelves_volume_nonneg(s0, resource);
    }
    let mut rest: usize = amount.0;
    let mut exhausted = false;
    while rest > 0 && !exhausted
        invariant
            shelves@.len() == s0.len(),
            forall|i: int| 0 <= i < shelves@.len() ==> shelves@[i].wf(),
            rest <= amount.0,
            amount.0 == 0 ==> shelves@ == s0,
            size.0 == spec_piece_size(resource),
            1 <= size.0 <= CONTAINER_VOLUME,
            amount.0 * spec_piece_size(resource) <= usize::MAX,
            forall|j: int|
                0 <= j < s0.len() ==> shelves@[j] == s0[j] || (s0[j].resource == Some(resource)
                    && shelves@[j].occupied.0 < s0[j].occupied.0 && (shelves@[j].resource == Some(
                    resource,
                ) || shelves@[j] == (Shelf { resource: None, occupied: VolumeOccupied(0) }))),
            rest > 0 ==> forall|j: int|
                0 <= j < s0.len() ==> shelves@[j] == s0[j] || shelves@[j] == (Shelf {
                    resource: None,
                    occupied: VolumeOccupied(0),
                }),
            forall|a: int, b: int|
                0 <= a < s0.len() && 0 <= b < s0.len() && shelves@[a] != s0[a] && shelves@[b]
                    == s0[b] && s0[b].resource == Some(resource) ==> s0[b].occupied.0
                    <= s0[a].occupied.0,
            forall|a: int, b: int|
                0 <= a < s0.len() && 0 <= b < s0.len() && a != b && shelves@[a] != s0[a]
                    && shelves@[a].occupied.0 > 0 ==> !(shelves@[b] != s0[b]
                    && shelves@[b].occupied.0 > 0),
            shelves_volume(shelves@, resource) == vol0 - (amount.0 - rest) * spec_piece_size(
                resource,
            ),
            forall|r2: Resource|
                r2 != resource ==> shelves_volume(shelves@, r2) == shelves_volume(s0, r2),
            vol0 == shelves_volume(s0, resource),
            exhausted ==> shelves_volume(shelves@, resource) == 0,
        decreases rest, (if exhausted { 0int } else { 1int }),
    {
        let choice = max_shelf(shelves, resource);
        match choice {
            None => {
                proof {
                    lemma_shelves_volume_zero_when_untagged(shelves@, resource);
                }
                exhausted = true;
            },
            Some(j) => {
                let ghost pre = shelves@;
                let occ = shelves[j].occupied.0;
                proof {
                    assert(rest * size.0 <= amount.0 * size.0) by (nonlinear_arith)
                        requires rest <= amount.0 && size.0 >= 1;
                }
                let need_vol = rest * size.0;
                if occ <= need_vol {
                    proof {
                        lemma_positive_multiple_at_least(occ as int, size.0 as int);
                        vstd::arithmetic::div_mod::lemma_div_is_ordered(
                            occ as int,
                            need_vol as int,
                            size.0 as int,
                        );
                        vstd::arithmetic::div_mod::lemma_div_by_multiple(
                            rest as int,
                            size.0 as int,
                        );
                    }
                    let taken_units = occ / size.0;
                    let cleared = Shelf { resource: None, occupied: VolumeOccupied(0) };
                    shelves.set(j, cleared);
                    rest = rest - taken_units;
                    proof {
                        lemma_shelves_volume_update(pre, j as int, cleared, resource);
                        assert forall|r2: Resource| r2 != resource implies shelves_volume(
                            shelves@,
                            r2,
                        ) == shelves_volume(pre, r2) by {
                            lemma_shelves_volume_update(pre, j as int, cleared, r2);
                        }
                        assert((amount.0 - (rest + taken_units)) * size.0 + taken_units * size.0
                            == (amount.0 - rest) * size.0) by (nonlinear_arith);
                    }
                } else {
                    let ghost rest_pre = rest;
                    proof {
                        vstd::arithmetic::div_mod::lemma_mod_multiples_basic(
                            rest as int,
                            size.0 as int,
                        );
                        vstd::arithmetic::div_mod::lemma_sub_mod_noop(
                            occ as int,
                            need_vol as int,
                            size.0 as int,
                        );
                        vstd::arithmetic::div_mod::lemma_small_mod(0nat, size.0 as nat);
                        assert((occ - need_vol) as int % (size.0 as int) == 0);
                    }
                    let drained = Shelf {
                        resource: Some(resource),
                        occupied: VolumeOccupied(occ - need_vol),
                    };
                    shelves.set(j, drained);
                    rest = 0;
                    proof {
                        lemma_shelves_volume_update(pre, j as int, drained, resource);
                        assert forall|r2: Resource| r2 != resource implies shelves_volume(
                            shelves@,
                            r2,
                        ) == shelves_volume(pre, r2) by {
                            lemma_shelves_volume_update(pre, j as int, drained, r2);
                        }
                        assert(amount.0 * size.0 == (amount.0 - rest_pre) * size.0 + rest_pre
                            * size.0) by (nonlinear_arith);
                    }
                }
            },
        }
    }
    proof {
        lemma_shelves_volume_nonneg(shelves@, resource);
        if rest == 0 {
            assert(amount.0 * spec_piece_size(resource) <= vol0);
        } else {
            assert(vol0 == (amount.0 - rest) * spec_piece_size(resource));
            vstd::arithmetic::div_mod::lemma_div_by_multiple(
                amount.0 - rest,
                spec_piece_size(resource),
            );
            assert((amount.0 - rest) * spec_piece_size(resource) < amount.0 * spec_piece_size(
                resource,
            )) by (nonlinear_arith)
                requires rest >= 1 && spec_piece_size(resource) >= 1 && rest <= amount.0;
        }
    }
    RealUnits(rest)
}

/// Take the resource out of the barrels, most filled first, clearing the tag
/// of every barrel it empties. Returns the amount the barrels could not
/// provide.
fn drain_barrels(barrels: &mut Vec<Barrel>, resource: Resource, amount: RealUnits) -> (ret:
    RealUnits)
    requires
        amount.0 * spec_piece_size(resource) <= usize::MAX,
        forall|i: int| 0 <= i < old(barrels)@.len() ==> old(barrels)@[i].wf(),
    ensures
        final(barrels)@.len() == old(barrels)@.len(),
        forall|i: int| 0 <= i < final(barrels)@.len() ==> final(barrels)@[i].wf(),
        ret.0 <= amount.0,
        ret.0 as int == drain_leftover(
            amount.0 as int,
            barrels_volume(old(barrels)@, resource),
            resource,
        ),
        barrels_volume(final(barrels)@, resource) == barrels_volume(old(barrels)@, resource) - (
        amount.0 - ret.0) * spec_piece_size(resource),
        forall|r2: Resource|
            r2 != resource ==> barrels_volume(final(barrels)@, r2) == barrels_volume(
                old(barrels)@,
                r2,
            ),
        forall|j: int|
            0 <= j < old(barrels)@.len() ==> final(barrels)@[j] == old(barrels)@[j] || (old(
                barrels,
            )@[j].resource == Some(resource) && final(barrels)@[j].occupied.0 < old(
                barrels,
            )@[j].occupied.0 && (final(barrels)@[j].resource == Some(resource)
                || final(barrels)@[j] == (Barrel { resource: None, occupied: VolumeOccupied(0) }))),
        forall|a: int, b: int|
            0 <= a < old(barrels)@.len() && 0 <= b < old(barrels)@.len() && final(barrels)@[a] != old(
                barrels,
            )@[a] && final(barrels)@[b] == old(barrels)@[b] && old(barrels)@[b].resource == Some(
                resource,
            ) ==> old(barrels)@[b].occupied.0 <= old(barrels)@[a].occupied.0,
        forall|a: int, b: int|
            0 <= a < old(barrels)@.len() && 0 <= b < old(barrels)@.len() && a != b && final(barrels)@[a] != old(barrels)@[a] && final(barrels)@[a].occupied.0 > 0 ==> !(final(barrels)@[b]
                != old(barrels)@[b] && final(barrels)@[b].occupied.0 > 0),
        amount.0 == 0 ==> final(barrels)@ == old(barrels)@,
{
    let ghost s0 = barrels@;
    let ghost vol0 = barrels_volume(s0, resource);
    let size = piece_size(resource);
    proof {
        lemma_piece_size_divides(resource);
        lemma_barrels_volume_nonneg(s0, resource);
    }
    let mut rest: usize = amount.0;
    let mut exhausted = false;
    while rest > 0 && !exhausted
        invariant
            barrels@.len() == s0.len(),
            forall|i: int| 0 <= i < barrels@.len() ==> barrels@[i].wf(),
            rest <= amount.0,
            amount.0 == 0 ==> barrels@ == s0,
            size.0 == spec_piece_size(resource),
            1 <= size.0 <= CONTAINER_VOLUME,
            amount.0 * spec_piece_size(resource) <= usize::MAX,
            forall|j: int|
                0 <= j < s0.len() ==> barrels@[j] == s0[j] || (s0[j].resource == Some(resource)
                    && barrels@[j].occupied.0 < s0[j].occupied.0 && (barrels@[j].resource == Some(
                    resource,
                ) || barrels@[j] == (Barrel { resource: None, occupied: VolumeOccupied(0) }))),
            rest > 0 ==> forall|j: int|
                0 <= j < s0.len() ==> barrels@[j] == s0[j] || barrels@[j] == (Barrel {
                    resource: None,
                    occupied: VolumeOccupied(0),
                }),
            forall|a: int, b: int|
                0 <= a < s0.len() && 0 <= b < s0.len() && barrels@[a] != s0[a] && barrels@[b]
                    == s0[b] && s0[b].resource == Some(resource) ==> s0[b].occupied.0
                    <= s0[a].occupied.0,
            forall|a: int, b: int|
                0 <= a < s0.len() && 0 <= b < s0.len() && a != b && barrels@[a] != s0[a]
                    && barrels@[a].occupied.0 > 0 ==> !(barrels@[b] != s0[b]
                    && barrels@[b].occupied.0 > 0),
            barrels_volume(barrels@, resource) == vol0 - (amount.0 - rest) * spec_piece_size(
                resource,
            ),
            forall|r2: Resource|
                r2 != resource ==> barrels_volume(barrels@, r2) == barrels_volume(s0, r2),
            vol0 == barrels_volume(s0, resource),
            exhausted ==> barrels_volume(barrels@, resource) == 0,
        decreases rest, (if exhausted { 0int } else { 1int }),
    {
        let choice = max_barrel(barrels, resource);
        match choice {
            None => {
                proof {
                    lemma_barrels_volume_zero_when_untagged(barrels@, resource);
                }
                exhausted = true;
            },
            Some(j) => {
                let ghost pre = barrels@;
                let occ = barrels[j].occupied.0;
                proof {
                    assert(rest * size.0 <= amount.0 * size.0) by (nonlinear_arith)
                        requires rest <= amount.0 && size.0 >= 1;
                }
                let need_vol = rest * size.0;
                if occ <= need_vol {
                    proof {
                        lemma_positive_multiple_at_least(occ as int, size.0 as int);
                        vstd::arithmetic::div_mod::lemma_div_is_ordered(
                            occ as int,
                            need_vol as int,
                            size.0 as int,
                        );
                        vstd::arithmetic::div_mod::lemma_div_by_multiple(
                            rest as int,
                            size.0 as int,
                        );
                    }
                    let taken_units = occ / size.0;
                    let cleared = Barrel { resource: None, occupied: VolumeOccupied(0) };
                    barrels.set(j, cleared);
                    rest = rest - taken_units;
                    proof {
                        lemma_barrels_volume_update(pre, j as int, cleared, resource);
                        assert forall|r2: Resource| r2 != resource implies barrels_volume(
                            barrels@,
                            r2,
                        ) == barrels_volume(pre, r2) by {
                            lemma_barrels_volume_update(pre, j as int, cleared, r2);
                        }
                        assert((amount.0 - (rest + taken_units)) * size.0 + taken_units * size.0
                            == (amount.0 - rest) * size.0) by (nonlinear_arith);
                    }
                } else {
                    let ghost rest_pre = rest;
                    proof {
                        vstd::arithmetic::div_mod::lemma_mod_multiples_basic(
                            rest as int,
                            size.0 as int,
                        );
                        vstd::arithmetic::div_mod::lemma_sub_mod_noop(
                            occ as int,
                            need_vol as int,
                            size.0 as int,
                        );
                        vstd::arithmetic::div_mod::lemma_small_mod(0nat, size.0 as nat);
                        assert((occ - need_vol) as int % (size.0 as int) == 0);
                    }
                    let drained = Barrel {
                        resource: Some(resource),
                        occupied: VolumeOccupied(occ - need_vol),
                    };
                    barrels.set(j, drained);
                    rest = 0;
                    proof {
                        lemma_barrels_volume_update(pre, j as int, drained, resource);
                        assert forall|r2: Resource| r2 != resource implies barrels_volume(
                            barrels@,
                            r2,
                        ) == barrels_volume(pre, r2) by {
                            lemma_barrels_volume_update(pre, j as int, drained, r2);
                        }
                        assert(amount.0 * size.0 == (amount.0 - rest_pre) * size.0 + rest_pre
                            * size.0) by (nonlinear_arith);
                    }
                }
            },
        }
    }
    proof {
        lemma_barrels_volume_nonneg(barrels@, resource);
        if rest == 0 {
            assert(amount.0 * spec_piece_size(resource) <= vol0);
        } else {
            assert(vol0 == (amount.0 - rest) * spec_piece_size(resource));
            vstd::arithmetic::div_mod::lemma_div_by_multiple(
                amount.0 - rest,
                spec_piece_size(resource),
            );
            assert((amount.0 - rest) * spec_piece_size(resource) < amount.0 * spec_piece_size(
                resource,
            )) by (nonlinear_arith)
                requires rest >= 1 && spec_piece_size(resource) >= 1 && rest <= amount.0;
        }
    }
    RealUnits(rest)
}

/// Take the resource from the reusable containers, shelves before barrels,
/// most filled first within each kind. Returns the amount they could not
/// provide.
fn writeoff_from_storage(colony: &mut Colony, resource: Resource, amount: RealUnits) -> (ret:
    RealUnits)
    requires
        amount.0 * spec_piece_size(resource) <= usize::MAX,
        forall|i: int| 0 <= i < old(colony).shelves@.len() ==> old(colony).shelves@[i].wf(),
        forall|i: int| 0 <= i < old(colony).barrels@.len() ==> old(colony).barrels@[i].wf(),
    ensures
        ret.0 <= amount.0,
        ret.0 as int == drain_leftover(
            amount.0 as int,
            shelves_volume(old(colony).shelves@, resource) + barrels_volume(
                old(colony).barrels@,
                resource,
            ),
            resource,
        ),
        shelves_volume(final(colony).shelves@, resource) + barrels_volume(
            final(colony).barrels@,
            resource,
        ) == shelves_volume(old(colony).shelves@, resource) + barrels_volume(
            old(colony).barrels@,
            resource,
        ) - (amount.0 - ret.0) * spec_piece_size(resource),
        forall|r2: Resource|
            r2 != resource ==> shelves_volume(final(colony).shelves@, r2) == shelves_volume(
                old(colony).shelves@,
                r2,
            ) && barrels_volume(final(colony).barrels@, r2) == barrels_volume(
                old(colony).barrels@,
                r2,
            ),
        final(colony).colonists == old(colony).colonists,
        final(colony).stationaries == old(colony).stationaries,
        final(colony).tasks == old(colony).tasks,
        final(colony).rooms == old(colony).rooms,
        final(colony).floor_boxes == old(colony).floor_boxes,
        final(colony).shelves@.len() == old(colony).shelves@.len(),
        final(colony).barrels@.len() == old(colony).barrels@.len(),
        forall|i: int| 0 <= i < final(colony).shelves@.len() ==> final(colony).shelves@[i].wf(),
        forall|i: int| 0 <= i < final(colony).barrels@.len() ==> final(colony).barrels@[i].wf(),
        forall|j: int|
            0 <= j < old(colony).shelves@.len() ==> final(colony).shelves@[j] == old(
                colony,
            ).shelves@[j] || (old(colony).shelves@[j].resource == Some(resource)
                && final(colony).shelves@[j].occupied.0 < old(colony).shelves@[j].occupied.0 && (
            final(colony).shelves@[j].resource == Some(resource) || final(colony).shelves@[j] == (
            Shelf { resource: None, occupied: VolumeOccupied(0) }))),
        forall|a: int, b: int|
            0 <= a < old(colony).shelves@.len() && 0 <= b < old(colony).shelves@.len()
                && final(colony).shelves@[a] != old(colony).shelves@[a]
                && final(colony).shelves@[b] == old(colony).shelves@[b] && old(
                colony,
            ).shelves@[b].resource == Some(resource) ==> old(colony).shelves@[b].occupied.0 <= old(
                colony,
            ).shelves@[a].occupied.0,
        forall|a: int, b: int|
            0 <= a < old(colony).shelves@.len() && 0 <= b < old(colony).shelves@.len() && a != b
                && final(colony).shelves@[a] != old(colony).shelves@[a]
                && final(colony).shelves@[a].occupied.0 > 0 ==> !(final(colony).shelves@[b] != old(
                colony,
            ).shelves@[b] && final(colony).shelves@[b].occupied.0 > 0),
        forall|j: int|
            0 <= j < old(colony).barrels@.len() ==> final(colony).barrels@[j] == old(
                colony,
            ).barrels@[j] || (old(colony).barrels@[j].resource == Some(resource)
                && final(colony).barrels@[j].occupied.0 < old(colony).barrels@[j].occupied.0 && (
            final(colony).barrels@[j].resource == Some(resource) || final(colony).barrels@[j] == (
            Barrel { resource: None, occupied: VolumeOccupied(0) }))),
        forall|a: int, b: int|
            0 <= a < old(colony).barrels@.len() && 0 <= b < old(colony).barrels@.len()
                && final(colony).barrels@[a] != old(colony).barrels@[a]
                && final(colony).barrels@[b] == old(colony).barrels@[b] && old(
                colony,
            ).barrels@[b].resource == Some(resource) ==> old(colony).barrels@[b].occupied.0 <= old(
                colony,
            ).barrels@[a].occupied.0,
        forall|a: int, b: int|
            0 <= a < old(colony).barrels@.len() && 0 <= b < old(colony).barrels@.len() && a != b
                && final(colony).barrels@[a] != old(colony).barrels@[a]
                && final(colony).barrels@[a].occupied.0 > 0 ==> !(final(colony).barrels@[b] != old(
                colony,
            ).barrels@[b] && final(colony).barrels@[b].occupied.0 > 0),
        amount.0 == 0 ==> final(colony).shelves@ == old(colony).shelves@ && final(colony).barrels@
            == old(colony).barrels@,
        shelves_volume(old(colony).shelves@, resource) >= amount.0 * spec_piece_size(resource)
            ==> final(colony).barrels@ == old(colony).barrels@,
{
    let ghost sv = shelves_volume(colony.shelves@, resource);
    let ghost bv = barrels_volume(colony.barrels@, resource);
    let after_shelves = drain_shelves(&mut colony.shelves, resource, amount);
    proof {
        assert(after_shelves.0 * spec_piece_size(resource) <= amount.0 * spec_piece_size(resource))
            by (nonlinear_arith)
            requires after_shelves.0 <= amount.0 && spec_piece_size(resource) >= 0;
    }
    let ret = drain_barrels(&mut colony.barrels, resource, after_shelves);
    proof {
        lemma_shelves_volume_nonneg(old(colony).shelves@, resource);
        lemma_barrels_volume_nonneg(old(colony).barrels@, resource);
        lemma_shelves_volume_multiple(old(colony).shelves@, resource);
        lemma_barrels_volume_multiple(old(colony).barrels@, resource);
        lemma_drain_compose(amount.0 as int, sv, bv, resource);
        assert((amount.0 - ret.0) * spec_piece_size(resource) == (amount.0 - after_shelves.0)
            * spec_piece_size(resource) + (after_shelves.0 - ret.0) * spec_piece_size(resource))
            by (nonlinear_arith);
    }
    ret
}

/// Remove an amount of the resource from storage: floor boxes first, then
/// shelves and barrels. The caller must have checked availability; the
/// write-off then always succeeds in full.
pub fn writeoff(colony: &mut Colony, resource: Resource, amount: RealUnits)
    requires
        old(colony).wf(),
        spec_have_enough(*old(colony), resource, amount.0 as int),
    ensures
        final(colony).wf(),
        total_volume(*final(colony), resource) == total_volume(*old(colony), resource) - amount.0
            * spec_piece_size(resource),
        forall|r2: Resource|
            r2 != resource ==> total_volume(*final(colony), r2) == total_volume(*old(colony), r2),
        final(colony).colonists == old(colony).colonists,
        final(colony).stationaries == old(colony).stationaries,
        final(colony).tasks == old(colony).tasks,
        final(colony).rooms@.len() == old(colony).rooms@.len(),
        forall|j: int|
            0 <= j < final(colony).rooms@.len() ==> {
                &&& final(colony).rooms@[j].purpose == old(colony).rooms@[j].purpose
                &&& final(colony).rooms@[j].tier == old(colony).rooms@[j].tier
                &&& final(colony).rooms@[j].capacity == old(colony).rooms@[j].capacity
                &&& final(colony).rooms@[j].occupied.0 <= old(colony).rooms@[j].occupied.0
            },
        final(colony).shelves@.len() == old(colony).shelves@.len(),
        final(colony).barrels@.len() == old(colony).barrels@.len(),
        final(colony).floor_boxes@.len() <= old(colony).floor_boxes@.len(),
        floor_writeoff_rel(
            old(colony).floor_boxes@,
            old(colony).rooms@,
            final(colony).floor_boxes@,
            final(colony).rooms@,
            resource,
        ),
        boxes_volume(old(colony).floor_boxes@, resource) >= amount.0 * spec_piece_size(resource)
            ==> final(colony).shelves@ == old(colony).shelves@ && final(colony).barrels@ == old(
            colony,
        ).barrels@,
        forall|j: int|
            0 <= j < old(colony).shelves@.len() ==> final(colony).shelves@[j] == old(
                colony,
            ).shelves@[j] || (old(colony).shelves@[j].resource == Some(resource)
                && final(colony).shelves@[j].occupied.0 < old(colony).shelves@[j].occupied.0 && (
            final(colony).shelves@[j].resource == Some(resource) || final(colony).shelves@[j] == (
            Shelf { resource: None, occupied: VolumeOccupied(0) }))),
        forall|a: int, b: int|
            0 <= a < old(colony).shelves@.len() && 0 <= b < old(colony).shelves@.len()
                && final(colony).shelves@[a] != old(colony).shelves@[a]
                && final(colony).shelves@[b] == old(colony).shelves@[b] && old(
                colony,
            ).shelves@[b].resource == Some(resource) ==> old(colony).shelves@[b].occupied.0 <= old(
                colony,
            ).shelves@[a].occupied.0,
        forall|j: int|
            0 <= j < old(colony).barrels@.len() ==> final(colony).barrels@[j] == old(
                colony,
            ).barrels@[j] || (old(colony).barrels@[j].resource == Some(resource)
                && final(colony).barrels@[j].occupied.0 < old(colony).barrels@[j].occupied.0 && (
            final(colony).barrels@[j].resource == Some(resource) || final(colony).barrels@[j] == (
            Barrel { resource: None, occupied: VolumeOccupied(0) }))),
        forall|a: int, b: int|
            0 <= a < old(colony).barrels@.len() && 0 <= b < old(colony).barrels@.len()
                && final(colony).barrels@[a] != old(colony).barrels@[a]
                && final(colony).barrels@[b] == old(colony).barrels@[b] && old(
                colony,
            ).barrels@[b].resource == Some(resource) ==> old(colony).barrels@[b].occupied.0 <= old(
                colony,
            ).barrels@[a].occupied.0,
{
    let ghost c0 = *colony;
    let ghost s = spec_piece_size(resource);
    proof {
        lemma_piece_size_divides(resource);
        lemma_total_volume_multiple(c0, resource);
        vstd::arithmetic::div_mod::lemma_fundamental_div_mod(total_volume(c0, resource), s);
        lemma_shelves_volume_bound(c0.shelves@);
        lemma_barrels_volume_bound(c0.barrels@);
        lemma_boxes_volume_bound(c0.floor_boxes@, c0.rooms@.len() as int);
        assert(amount.0 * s <= (total_volume(c0, resource) / s) * s) by (nonlinear_arith)
            requires amount.0 <= total_volume(c0, resource) / s && s >= 1;
        assert(c0.shelves@.len() * (CONTAINER_VOLUME as int) <= CONTAINER_LIMIT
            * (CONTAINER_VOLUME as int)) by (nonlinear_arith)
            requires c0.shelves@.len() <= CONTAINER_LIMIT;
        assert(c0.barrels@.len() * (CONTAINER_VOLUME as int) <= CONTAINER_LIMIT
            * (CONTAINER_VOLUME as int)) by (nonlinear_arith)
            requires c0.barrels@.len() <= CONTAINER_LIMIT;
        assert(c0.floor_boxes@.len() * (CONTAINER_VOLUME as int) <= CONTAINER_LIMIT
            * (CONTAINER_VOLUME as int)) by (nonlinear_arith)
            requires c0.floor_boxes@.len() <= CONTAINER_LIMIT;
    }
    let rest = writeoff_from_floor(colony, resource, amount);
    let rest_ = writeoff_from_storage(colony, resource, rest);
    proof {
        lemma_boxes_volume_nonneg(c0.floor_boxes@, resource);
        lemma_shelves_volume_nonneg(c0.shelves@, resource);
        lemma_barrels_volume_nonneg(c0.barrels@, resource);
        lemma_boxes_volume_multiple(c0.floor_boxes@, resource, c0.rooms@.len() as int);
        lemma_shelves_volume_multiple(c0.shelves@, resource);
        lemma_barrels_volume_multiple(c0.barrels@, resource);
        vstd::arithmetic::div_mod::lemma_add_mod_noop(
            shelves_volume(c0.shelves@, resource),
            barrels_volume(c0.barrels@, resource),
            s,
        );
        lemma_drain_compose(
            amount.0 as int,
            boxes_volume(c0.floor_boxes@, resource),
            shelves_volume(c0.shelves@, resource) + barrels_volume(c0.barrels@, resource),
            resource,
        );
        assert(rest_.0 == 0);
        assert((amount.0 - rest.0) * s + (rest.0 - 0) * s == amount.0 * s) by (nonlinear_arith);
    }
}

/// Write off a whole cost table atomically: either every entry is available
/// and every entry is removed, or nothing is touched and the call reports
/// the shortage.
pub fn writeoff_bunch(colony: &mut Colony, bunch: &Vec<(Resource, RealUnits)>) -> (ret: Result<
    (),
    SamosborError,
>)
    requires
        old(colony).wf(),
        forall|i: int, j: int|
            0 <= i < j < bunch@.len() ==> bunch@[i].0 != bunch@[j].0,
    ensures
        final(colony).wf(),
        ret matches Err(e) ==> e == SamosborError::NotEnoughResources,
        ret is Err <==> exists|i: int|
            0 <= i < bunch@.len() && !spec_have_enough(
                *old(colony),
                bunch@[i].0,
                bunch@[i].1.0 as int,
            ),
        ret is Err ==> *final(colony) == *old(colony),
        ret is Ok ==> forall|i: int|
            0 <= i < bunch@.len() ==> total_volume(*final(colony), #[trigger] bunch@[i].0)
                == total_volume(*old(colony), bunch@[i].0) - bunch@[i].1.0 as int
                * spec_piece_size(bunch@[i].0),
        forall|r2: Resource|
            (forall|i: int| 0 <= i < bunch@.len() ==> bunch@[i].0 != r2) ==> total_volume(
                *final(colony),
                r2,
            ) == total_volume(*old(colony), r2),
        final(colony).colonists == old(colony).colonists,
        final(colony).stationaries == old(colony).stationaries,
        final(colony).tasks == old(colony).tasks,
        final(colony).rooms@.len() == old(colony).rooms@.len(),
        forall|j: int|
            0 <= j < final(colony).rooms@.len() ==> {
                &&& final(colony).rooms@[j].purpose == old(colony).rooms@[j].purpose
                &&& final(colony).rooms@[j].tier == old(colony).rooms@[j].tier
                &&& final(colony).rooms@[j].capacity == old(colony).rooms@[j].capacity
                &&& final(colony).rooms@[j].occupied.0 <= old(colony).rooms@[j].occupied.0
            },
{
    if !enough_resources(colony, bunch) {
        return Err(SamosborError::NotEnoughResources);
    }
    let ghost c0 = *colony;
    let mut i: usize = 0;
    while i < bunch.len()
        invariant
            colony.wf(),
            i <= bunch@.len(),
            forall|a: int, b: int| 0 <= a < b < bunch@.len() ==> bunch@[a].0 != bunch@[b].0,
            forall|j: int|
                0 <= j < bunch@.len() ==> spec_have_enough(c0, bunch@[j].0, bunch@[j].1.0 as int),
            forall|j: int|
                0 <= j < i ==> total_volume(*colony, #[trigger] bunch@[j].0) == total_volume(
                    c0,
                    bunch@[j].0,
                ) - bunch@[j].1.0 as int * spec_piece_size(bunch@[j].0),
            forall|r2: Resource|
                (forall|j: int| 0 <= j < i ==> bunch@[j].0 != r2) ==> total_volume(*colony, r2)
                    == total_volume(c0, r2),
            colony.colonists == c0.colonists,
            colony.stationaries == c0.stationaries,
            colony.tasks == c0.tasks,
            colony.rooms@.len() == c0.rooms@.len(),
            forall|j: int|
                0 <= j < colony.rooms@.len() ==> {
                    &&& colony.rooms@[j].purpose == c0.rooms@[j].purpose
                    &&& colony.rooms@[j].tier == c0.rooms@[j].tier
                    &&& colony.rooms@[j].capacity == c0.rooms@[j].capacity
                    &&& colony.rooms@[j].occupied.0 <= c0.rooms@[j].occupied.0
                },
        decreases bunch@.len() - i,
    {
        let (res, req) = bunch[i];
        proof {
            assert(forall|j: int| 0 <= j < i ==> bunch@[j].0 != res);
            assert(total_volume(*colony, res) == total_volume(c0, res));
        }
        writeoff(colony, res, req);
        i = i + 1;
        proof {
            assert forall|r2: Resource|
                (forall|j: int| 0 <= j < i ==> bunch@[j].0 != r2) implies total_volume(
                *colony,
                r2,
            ) == total_volume(c0, r2) by {
                assert(bunch@[i - 1].0 != r2);
            }
            assert forall|j: int| 0 <= j < i implies total_volume(*colony, #[trigger] bunch@[j].0)
                == total_volume(c0, bunch@[j].0) - bunch@[j].1.0 as int * spec_piece_size(
                bunch@[j].0,
            ) by {
                if j < i - 1 {
                    assert(bunch@[j].0 != res);
                }
            }
        }
    }
    Ok(())
}

/// Put an amount of a resource into storage. Solids try the shelves first
/// and overflow to floor boxes in the party rooms; fluids go to barrels
/// only, and what no barrel takes comes back to the caller. The returned
/// leftover is zero exactly when the free capacity of the eligible
/// containers covered the amount.
pub fn put_resource(colony: &mut Colony, resource: Resource, amount: RealUnits) -> (ret: RealUnits)
    requires
        old(colony).wf(),
        amount.0 * spec_piece_size(resource) <= usize::MAX,
        old(colony).floor_boxes@.len() + amount.0 <= CONTAINER_LIMIT,
    ensures
        final(colony).wf(),
        ret.0 <= amount.0,
        spec_container_type(resource) == StorageType::Solid ==> ret.0 as int == pack_leftover(
            amount.0 as int,
            empty_shelves(old(colony).shelves@) + party_slots(old(colony).rooms@),
            resource,
        ),
        spec_container_type(resource) == StorageType::Fluid ==> ret.0 as int == pack_leftover(
            amount.0 as int,
            empty_barrels(old(colony).barrels@),
            resource,
        ),
        total_volume(*final(colony), resource) == total_volume(*old(colony), resource) + (amount.0
            - ret.0) * spec_piece_size(resource),
        forall|r2: Resource|
            r2 != resource ==> total_volume(*final(colony), r2) == total_volume(*old(colony), r2),
        final(colony).colonists == old(colony).colonists,
        final(colony).stationaries == old(colony).stationaries,
        final(colony).tasks == old(colony).tasks,
        final(colony).rooms@.len() == old(colony).rooms@.len(),
        final(colony).shelves@.len() == old(colony).shelves@.len(),
        final(colony).barrels@.len() == old(colony).barrels@.len(),
        final(colony).floor_boxes@.len() <= old(colony).floor_boxes@.len() + (amount.0 - ret.0),
        forall|j: int|
            0 <= j < final(colony).rooms@.len() ==> {
                &&& final(colony).rooms@[j].purpose == old(colony).rooms@[j].purpose
                &&& final(colony).rooms@[j].tier == old(colony).rooms@[j].tier
                &&& final(colony).rooms@[j].capacity == old(colony).rooms@[j].capacity
                &&& final(colony).rooms@[j].occupied.0 >= old(colony).rooms@[j].occupied.0
            },
        spec_container_type(resource) == StorageType::Fluid ==> final(colony).shelves == old(
            colony,
        ).shelves && final(colony).floor_boxes == old(colony).floor_boxes && final(colony).rooms
            == old(colony).rooms,
        spec_container_type(resource) == StorageType::Solid ==> final(colony).barrels == old(
            colony,
        ).barrels,
        spec_container_type(resource) == StorageType::Solid && amount.0 <= empty_shelves(
            old(colony).shelves@,
        ) * cap_units(resource) ==> final(colony).floor_boxes@ == old(colony).floor_boxes@
            && final(colony).rooms@ == old(colony).rooms@,
        forall|j: int|
            0 <= j < old(colony).shelves@.len() ==> final(colony).shelves@[j] == old(
                colony,
            ).shelves@[j] || (old(colony).shelves@[j].resource is None
                && final(colony).shelves@[j].resource == Some(resource)
                && final(colony).shelves@[j].occupied.0 > 0),
        forall|j: int|
            0 <= j < old(colony).barrels@.len() ==> final(colony).barrels@[j] == old(
                colony,
            ).barrels@[j] || (old(colony).barrels@[j].resource is None
                && final(colony).barrels@[j].resource == Some(resource)
                && final(colony).barrels@[j].occupied.0 > 0),
        forall|i: int|
            0 <= i < old(colony).floor_boxes@.len() ==> final(colony).floor_boxes@[i] == old(
                colony,
            ).floor_boxes@[i],
        forall|i: int|
            old(colony).floor_boxes@.len() <= i < final(colony).floor_boxes@.len()
                ==> (#[trigger] final(colony).floor_boxes@[i]).resource == resource,
        party_slots(final(colony).rooms@) == party_slots(old(colony).rooms@) - (final(colony).floor_boxes@.len() - old(colony).floor_boxes@.len()),
        (pack_leftover(amount.0 as int, empty_shelves(old(colony).shelves@), resource) - ret.0)
            * spec_piece_size(resource) <= (final(colony).floor_boxes@.len() - old(
            colony,
        ).floor_boxes@.len()) * (CONTAINER_VOLUME as int) || spec_container_type(resource)
            == StorageType::Fluid,
        spec_container_type(resource) == StorageType::Solid && final(colony).floor_boxes@.len()
            > old(colony).floor_boxes@.len() ==> (final(colony).floor_boxes@.len() - old(
            colony,
        ).floor_boxes@.len() - 1) * (CONTAINER_VOLUME as int) < (pack_leftover(
            amount.0 as int,
            empty_shelves(old(colony).shelves@),
            resource,
        ) - ret.0) * spec_piece_size(resource),
{
    let class = container_type(resource);
    match class {
        StorageType::Solid => {
            let ghost mid = *colony;
            let after_shelves = store_on_shelves(&mut colony.shelves, amount, resource);
            let ghost e = empty_shelves(old(colony).shelves@);
            let ghost s = party_slots(old(colony).rooms@);
            let ret = store_on_floor(colony, after_shelves, resource);
            proof {
                lemma_cap_units(resource);
                assert((e + s) * cap_units(resource) == e * cap_units(resource) + s * cap_units(
                    resource,
                )) by (nonlinear_arith);
                lemma_party_slots_nonneg(old(colony).rooms@);
                assert((amount.0 - ret.0) * spec_piece_size(resource) == (amount.0
                    - after_shelves.0) * spec_piece_size(resource) + (after_shelves.0 - ret.0)
                    * spec_piece_size(resource)) by (nonlinear_arith);
            }
            ret
        },
        StorageType::Fluid => {
            store_in_barrels(&mut colony.barrels, amount, resource)
        },
    }
}

} // verus!
