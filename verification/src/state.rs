//! The simulation state: explicit typed stores for rooms, colonists,
//! equipment, the task backlog and the storage containers, with the global
//! well-formedness invariant every public operation preserves.

use vstd::prelude::*;
use crate::area::AreaCapacity;
use crate::area::AreaOccupied;
use crate::area::AreaType;
use crate::common::Tier;
use crate::people::Colonist;
use crate::people::MilitaryDep;
use crate::people::Profession;
use crate::people::SciSpec;
use crate::resources::Resource;
use crate::storage::RealUnits;
use crate::production::StationaryStatus;
use crate::production::StationaryUnit;
use crate::production::Task;
use crate::storage::Barrel;
use crate::storage::FloorBox;
use crate::storage::Shelf;
use crate::area::Room;

verus! {

/// Upper bound on the number of rooms.
pub const MAX_ROOMS: usize = 10000;

/// Upper bound on the number of colonists.
pub const MAX_COMRADS: usize = 10000;

/// Upper bound on the number of installed stationaries.
pub const MAX_STATIONARIES: usize = 10000;

/// Upper bound on the length of the task backlog.
pub const MAX_TASKS: usize = 100000;

/// Upper bound on the number of containers of each kind.
pub const CONTAINER_LIMIT: usize = 60000;

/// Upper bound on a room's area capacity.
pub const MAX_AREA: usize = 1000000;

/// Upper bound on a room's occupied area.
pub const MAX_ROOM_OCCUPIED: usize = 100000000;

/// The whole simulation state of one block, passed explicitly through the
/// turn pipeline.
#[derive(Clone, Debug)]
pub struct Colony {
    pub rooms: Vec<Room>,
    pub colonists: Vec<Colonist>,
    pub stationaries: Vec<StationaryUnit>,
    pub tasks: Vec<Task>,
    pub shelves: Vec<Shelf>,
    pub barrels: Vec<Barrel>,
    pub floor_boxes: Vec<FloorBox>,
}

impl Colony {
    /// An empty block: no rooms, nobody, nothing stored.
    pub fn new() -> (ret: Colony)
        ensures
            ret.rooms@.len() == 0,
            ret.colonists@.len() == 0,
            ret.stationaries@.len() == 0,
            ret.tasks@.len() == 0,
            ret.shelves@.len() == 0,
            ret.barrels@.len() == 0,
            ret.floor_boxes@.len() == 0,
            ret.wf(),
    {
        Colony {
            rooms: Vec::new(),
            colonists: Vec::new(),
            stationaries: Vec::new(),
            tasks: Vec::new(),
            shelves: Vec::new(),
            barrels: Vec::new(),
            floor_boxes: Vec::new(),
        }
    }

    /// Machine bounds on the sizes of all stores.
    pub open spec fn wf_counts(self) -> bool {
        &&& self.rooms@.len() <= MAX_ROOMS
        &&& self.colonists@.len() <= MAX_COMRADS
        &&& self.stationaries@.len() <= MAX_STATIONARIES
        &&& self.tasks@.len() <= MAX_TASKS
        &&& self.shelves@.len() <= CONTAINER_LIMIT
        &&& self.barrels@.len() <= CONTAINER_LIMIT
        &&& self.floor_boxes@.len() <= CONTAINER_LIMIT
    }

    /// Every room, colonist and stationary is well-formed and points at an
    /// existing room.
    pub open spec fn wf_entities(self) -> bool {
        &&& forall|i: int| 0 <= i < self.rooms@.len() ==> self.rooms@[i].wf()
        &&& forall|i: int|
            0 <= i < self.colonists@.len() ==> self.colonists@[i].wf(self.rooms@.len() as int)
        &&& forall|i: int|
            0 <= i < self.stationaries@.len() ==> (self.stationaries@[i].room.0 as int)
                < self.rooms@.len()
    }

    /// Every container is well-formed; floor boxes stand in existing rooms.
    pub open spec fn wf_storage(self) -> bool {
        &&& forall|i: int| 0 <= i < self.shelves@.len() ==> self.shelves@[i].wf()
        &&& forall|i: int| 0 <= i < self.barrels@.len() ==> self.barrels@[i].wf()
        &&& forall|i: int|
            0 <= i < self.floor_boxes@.len() ==> self.floor_boxes@[i].wf(self.rooms@.len() as int)
    }

    /// The backlog discipline: every task belongs to a stationary that is
    /// still under construction, and the backlog is kept ordered by
    /// priority, ties standing in insertion order.
    pub open spec fn wf_tasks(self) -> bool {
        &&& forall|i: int|
            0 <= i < self.tasks@.len() ==> (self.tasks@[i].owner.0 as int)
                < self.stationaries@.len()
        &&& forall|i: int|
            0 <= i < self.tasks@.len() ==> self.stationaries@[self.tasks@[i].owner.0 as int].status
                == StationaryStatus::Constructing
        &&& forall|i: int, j: int|
            0 <= i < j < self.tasks@.len() ==> self.tasks@[i].priority.0
                <= self.tasks@[j].priority.0
    }

    /// The global invariant of the simulation state.
    pub open spec fn wf(self) -> bool {
        self.wf_counts() && self.wf_entities() && self.wf_storage() && self.wf_tasks()
    }
}

/// Found the starting colony: a barracks with the standard liquidator squad,
/// an industrial hall, a party storage room, a science room, a living cell
/// with one scientist, thirty-three worker cells of three workers each, and
/// the opening stock of materials. The stock room takes the concentrate in
/// full; the scrap and polymers fill it to the brim and the rest of those
/// deliveries is turned away.
#[verifier::rlimit(100)]
#[verifier::spinoff_prover]
pub fn init_colony(colony: &mut Colony)
    requires
        old(colony).wf(),
        old(colony).rooms@.len() == 0,
        old(colony).colonists@.len() == 0,
        old(colony).stationaries@.len() == 0,
        old(colony).tasks@.len() == 0,
        old(colony).shelves@.len() == 0,
        old(colony).barrels@.len() == 0,
        old(colony).floor_boxes@.len() == 0,
    ensures
        final(colony).wf(),
        final(colony).rooms@.len() == 38,
        final(colony).colonists@.len() == 114,
        crate::storage::spec_units_of(*final(colony), Resource::ConcentratT1) == 1100,
        crate::storage::spec_units_of(*final(colony), Resource::ScrapT1) == 280,
{
    let barracks = crate::production::install_germ(colony, Tier::T2, AreaType::Military);
    crate::people::spawn_1_g(colony, barracks);
    let _manufactory = crate::production::install_germ(colony, Tier::T2, AreaType::Industrial);
    let _stock = crate::production::install_germ(colony, Tier::T2, AreaType::Party);
    crate::production::install_germ(colony, Tier::T1, AreaType::Science);
    let start_sci_spec = crate::people::random_sci_spec();
    let cell_sciencists = crate::production::install_germ(colony, Tier::T1, AreaType::Living);
    crate::people::spawn_comrad(
        colony,
        Profession::Scientist,
        Tier::T1,
        MilitaryDep::NoDep,
        start_sci_spec,
        cell_sciencists,
    );
    proof {
        assert(colony.rooms@.len() == 5);
        assert(colony.rooms@[2] == (Room {
            purpose: AreaType::Party,
            tier: Tier::T2,
            capacity: AreaCapacity(150),
            occupied: AreaOccupied(0),
        }));
        assert(forall|j: int|
            0 <= j < colony.rooms@.len() && j != 2 ==> crate::storage::room_slots(
                #[trigger] colony.rooms@[j],
            ) == 0);
    }
    let ghost rooms_base = colony.rooms@.len();
    let ghost comrads_base = colony.colonists@.len();
    let mut k: usize = 0;
    while k < 33
        invariant
            colony.wf(),
            k <= 33,
            colony.rooms@.len() == rooms_base + k,
            colony.colonists@.len() == comrads_base + 3 * k,
            rooms_base == 5,
            comrads_base == 15,
            colony.rooms@[2] == (Room {
                purpose: AreaType::Party,
                tier: Tier::T2,
                capacity: AreaCapacity(150),
                occupied: AreaOccupied(0),
            }),
            forall|j: int|
                0 <= j < colony.rooms@.len() && j != 2 ==> crate::storage::room_slots(
                    #[trigger] colony.rooms@[j],
                ) == 0,
            colony.shelves@.len() == 0,
            colony.barrels@.len() == 0,
            colony.floor_boxes@.len() == 0,
        decreases 33 - k,
    {
        let cell = crate::production::install_germ(colony, Tier::T1, AreaType::Living);
        proof {
            assert(crate::storage::room_slots(colony.rooms@[cell as int]) == 0);
        }
        let mut w: usize = 0;
        while w < 3
            invariant
                colony.wf(),
                w <= 3,
                (cell as int) < colony.rooms@.len(),
                cell as int == rooms_base + k,
                rooms_base == 5,
                comrads_base == 15,
                k < 33,
                colony.rooms@.len() == rooms_base + k + 1,
                colony.colonists@.len() == comrads_base + 3 * k + w,
                colony.rooms@[cell as int].occupied.0 <= w * crate::people::COMRAD_RENTED_PLACE,
                colony.rooms@[cell as int].purpose == AreaType::Living,
                colony.rooms@[2] == (Room {
                    purpose: AreaType::Party,
                    tier: Tier::T2,
                    capacity: AreaCapacity(150),
                    occupied: AreaOccupied(0),
                }),
                forall|j: int|
                    0 <= j < colony.rooms@.len() && j != 2 ==> crate::storage::room_slots(
                        #[trigger] colony.rooms@[j],
                    ) == 0,
                colony.shelves@.len() == 0,
                colony.barrels@.len() == 0,
                colony.floor_boxes@.len() == 0,
            decreases 3 - w,
        {
            let ghost pre_rooms = colony.rooms@;
            crate::people::spawn_comrad(
                colony,
                Profession::Worker,
                Tier::T1,
                MilitaryDep::NoDep,
                SciSpec::NoSpec,
                cell,
            );
            proof {
                assert forall|j: int|
                    0 <= j < colony.rooms@.len() && j != 2 implies crate::storage::room_slots(
                    #[trigger] colony.rooms@[j],
                ) == 0 by {
                    if j == cell as int {
                        assert(colony.rooms@[j].purpose == AreaType::Living);
                    } else {
                        assert(colony.rooms@[j] == pre_rooms[j]);
                    }
                }
            }
            w = w + 1;
        }
        k = k + 1;
    }
    proof {
        crate::storage::lemma_party_slots_single(colony.rooms@, 2);
        assert(crate::storage::party_slots(colony.rooms@) == 30);
        assert(crate::storage::empty_shelves(colony.shelves@) == 0);
        assert(crate::storage::total_volume(*colony, Resource::ConcentratT1) == 0);
        assert(crate::storage::total_volume(*colony, Resource::ScrapT1) == 0);
    }
    let ghost c1 = *colony;
    crate::storage::put_resource(colony, Resource::ConcentratT1, RealUnits(100));
    proof {
        assert(crate::storage::cap_units(Resource::ConcentratT1) == 1000);
        assert(colony.shelves@ =~= c1.shelves@);
        let n1 = colony.floor_boxes@.len() - c1.floor_boxes@.len();
        assert(n1 == 1) by {
            assert(100 <= n1 * 1000 && (n1 > 0 ==> (n1 - 1) * 1000 < 100));
        }
        assert(crate::storage::party_slots(colony.rooms@) == 29);
        assert(crate::storage::total_volume(*colony, Resource::ConcentratT1) == 100);
        assert(crate::storage::total_volume(*colony, Resource::ScrapT1) == 0);
        assert(crate::storage::empty_shelves(colony.shelves@) == 0);
    }
    let ghost c2 = *colony;
    crate::storage::put_resource(colony, Resource::ConcentratT1, RealUnits(1000));
    proof {
        assert(colony.shelves@ =~= c2.shelves@);
        let n2 = colony.floor_boxes@.len() - c2.floor_boxes@.len();
        assert(n2 == 1) by {
            assert(1000 <= n2 * 1000 && (n2 > 0 ==> (n2 - 1) * 1000 < 1000));
        }
        assert(crate::storage::party_slots(colony.rooms@) == 28);
        assert(crate::storage::total_volume(*colony, Resource::ConcentratT1) == 1100);
        assert(crate::storage::total_volume(*colony, Resource::ScrapT1) == 0);
        assert(crate::storage::empty_shelves(colony.shelves@) == 0);
    }
    let ghost c3 = *colony;
    crate::storage::put_resource(colony, Resource::ScrapT1, RealUnits(500));
    proof {
        assert(crate::storage::cap_units(Resource::ScrapT1) == 10);
        assert(colony.shelves@ =~= c3.shelves@);
        let n3 = colony.floor_boxes@.len() - c3.floor_boxes@.len();
        assert(n3 == 28) by {
            assert(280 * 100 <= n3 * 1000 && (n3 > 0 ==> (n3 - 1) * 1000 < 280 * 100));
        }
        assert(crate::storage::party_slots(colony.rooms@) == 0);
        assert(crate::storage::total_volume(*colony, Resource::ConcentratT1) == 1100);
        assert(crate::storage::total_volume(*colony, Resource::ScrapT1) == 28000);
        assert(crate::storage::empty_shelves(colony.shelves@) == 0);
    }
    let ghost c4 = *colony;
    crate::storage::put_resource(colony, Resource::ScrapT2, RealUnits(50));
    proof {
        assert(colony.shelves@ =~= c4.shelves@);
        assert(crate::storage::party_slots(colony.rooms@) == 0);
        assert(crate::storage::total_volume(*colony, Resource::ConcentratT1) == 1100);
        assert(crate::storage::total_volume(*colony, Resource::ScrapT1) == 28000);
        assert(crate::storage::empty_shelves(colony.shelves@) == 0);
    }
    let ghost c5 = *colony;
    crate::storage::put_resource(colony, Resource::PolymerT1, RealUnits(100));
    proof {
        assert(colony.shelves@ =~= c5.shelves@);
        assert(crate::storage::party_slots(colony.rooms@) == 0);
        assert(crate::storage::total_volume(*colony, Resource::ConcentratT1) == 1100);
        assert(crate::storage::total_volume(*colony, Resource::ScrapT1) == 28000);
        assert(crate::storage::empty_shelves(colony.shelves@) == 0);
    }
    crate::storage::put_resource(colony, Resource::PolymerT2, RealUnits(10));
    proof {
        assert(crate::storage::total_volume(*colony, Resource::ConcentratT1) == 1100);
        assert(crate::storage::total_volume(*colony, Resource::ScrapT1) == 28000);
    }
}

/// Law: in a well-formed colony a stationary is never observed `Ready` while
/// a task still references it; every task's owner is under construction.
pub proof fn ready_stationary_has_no_tasks(c: Colony, i: int)
    requires
        c.wf(),
        0 <= i < c.tasks@.len(),
    ensures
        (c.tasks@[i].owner.0 as int) < c.stationaries@.len(),
        c.stationaries@[c.tasks@[i].owner.0 as int].status == StationaryStatus::Constructing,
        c.stationaries@[c.tasks@[i].owner.0 as int].status != StationaryStatus::Ready,
{
}

} // verus!
