//! The stationary registry and the task backlog: equipment kinds, their
//! static attributes, and the work orders that build them.

use vstd::prelude::*;
use crate::area::AreaOccupied;
use crate::area::AreaCapacity;
use crate::area::AreaType;
use crate::area::BelongsToRoom;
use crate::area::Room;
use crate::common::SamosborError;
use crate::common::Tier;
use crate::people::Profession;
use crate::people::SciSpec;
use crate::resources::Resource;
use crate::state::Colony;
use crate::state::MAX_ROOMS;
use crate::state::MAX_STATIONARIES;
use crate::state::MAX_TASKS;
use crate::storage::RealUnits;

verus! {

/// Priority of a work order; a smaller value is serviced first.
#[derive(Clone, Copy, Debug, PartialEq, Eq, Structural)]
pub struct Priority(pub usize);

/// Reference to the stationary a task builds: an index into the colony's
/// stationary table.
#[derive(Clone, Copy, Debug, PartialEq, Eq, Structural)]
pub struct BelongsToStationary(pub usize);

/// Kinds of stationary equipment and infrastructure. `NoStationary` marks a
/// task that needs no equipment at all.
#[derive(Clone, Copy, Debug, PartialEq, Eq, Hash, Structural)]
pub enum Stationary {
    NoStationary,
    BenchToolT1,
    BenchToolT2,
    BenchToolT3,
    FormatFurnace,
    LabT1,
    LabT2,
    LabT3,
    Barrel,
    Rack,
    NeuroTerminal,
}

/// Infrastructure kit of a sealed room.
#[derive(Clone, Copy, Debug, PartialEq, Eq, Structural)]
pub struct Germ();

/// Lifecycle of an installed stationary. It is created `Constructing` and
/// transitions exactly once to `Ready`.
#[derive(Clone, Copy, Debug, PartialEq, Eq, Structural)]
pub enum StationaryStatus {
    Constructing,
    Ready,
}

/// Labor: the amount of work a worker or a machine produces, or a task
/// still needs, per shift.
#[derive(PartialEq, Eq, Clone, Copy, Debug, Structural)]
pub struct BuildPower(pub usize);

/// A piece of equipment installed in a room.
#[derive(Clone, Copy, Debug, PartialEq, Eq, Structural)]
pub struct StationaryUnit {
    pub kind: Stationary,
    pub status: StationaryStatus,
    pub room: BelongsToRoom,
}

/// A pending work order: who may do it, on what equipment, and how much
/// labor it still needs.
#[derive(PartialEq, Eq, Clone, Copy, Debug, Structural)]
pub struct TaskMeta {
    pub prof: Profession,
    pub tier: Tier,
    pub bp: BuildPower,
    pub stationary: Stationary,
    pub sci_spec: SciSpec,
}

/// Priority of a task in the backlog.
#[derive(PartialEq, Eq, Clone, Copy, Debug, PartialOrd, Ord, Structural)]
pub struct TaskPriority(pub usize);

/// One entry of the task backlog: the work order, its priority, and the
/// stationary under construction it belongs to.
#[derive(PartialEq, Eq, Clone, Copy, Debug, Structural)]
pub struct Task {
    pub meta: TaskMeta,
    pub priority: TaskPriority,
    pub owner: BelongsToStationary,
}

/// Area units a stationary of this kind takes in its room.
pub fn stationary_size(stationary: Stationary) -> (ret: AreaOccupied)
    ensures
        ret.0 == spec_stationary_size(stationary),
{
    match stationary {
        Stationary::NoStationary => AreaOccupied(0),
        Stationary::BenchToolT1 => AreaOccupied(20),
        Stationary::BenchToolT2 => AreaOccupied(25),
        Stationary::BenchToolT3 => AreaOccupied(50),
        Stationary::FormatFurnace => AreaOccupied(50),
        Stationary::LabT1 => AreaOccupied(20),
        Stationary::LabT2 => AreaOccupied(40),
        Stationary::LabT3 => AreaOccupied(60),
        Stationary::Barrel => AreaOccupied(15),
        Stationary::Rack => AreaOccupied(5),
        Stationary::NeuroTerminal => AreaOccupied(5),
    }
}

/// Spec-level table of `stationary_size`.
pub open spec fn spec_stationary_size(stationary: Stationary) -> int {
    match stationary {
        Stationary::NoStationary => 0,
        Stationary::BenchToolT1 => 20,
        Stationary::BenchToolT2 => 25,
        Stationary::BenchToolT3 => 50,
        Stationary::FormatFurnace => 50,
        Stationary::LabT1 => 20,
        Stationary::LabT2 => 40,
        Stationary::LabT3 => 60,
        Stationary::Barrel => 15,
        Stationary::Rack => 5,
        Stationary::NeuroTerminal => 5,
    }
}

/// Area capacity a sealed room of the given tier offers.
pub fn tier2germ_capacity(tier: Tier) -> (ret: AreaCapacity)
    requires
        tier.is_labor_tier(),
    ensures
        ret.0 == spec_tier2germ_capacity(tier),
{
    match tier {
        Tier::NoTier => AreaCapacity(0),
        Tier::T1 => AreaCapacity(30),
        Tier::T2 => AreaCapacity(150),
        Tier::T3 => AreaCapacity(500),
    }
}

/// Spec-level table of `tier2germ_capacity`.
pub open spec fn spec_tier2germ_capacity(tier: Tier) -> int {
    match tier {
        Tier::NoTier => 0,
        Tier::T1 => 30,
        Tier::T2 => 150,
        Tier::T3 => 500,
    }
}

/// Labor output of one worker of the given tier per turn.
pub fn tier2comrad_buildpower(tier: Tier) -> (ret: BuildPower)
    requires
        tier.is_labor_tier(),
    ensures
        ret.0 == spec_tier2comrad_buildpower(tier),
{
    match tier {
        Tier::NoTier => BuildPower(0),
        Tier::T1 => BuildPower(10),
        Tier::T2 => BuildPower(20),
        Tier::T3 => BuildPower(40),
    }
}

/// Spec-level table of `tier2comrad_buildpower`.
pub open spec fn spec_tier2comrad_buildpower(tier: Tier) -> int {
    match tier {
        Tier::NoTier => 0,
        Tier::T1 => 10,
        Tier::T2 => 20,
        Tier::T3 => 40,
    }
}

/// Amplification a worker of `worker_tier` applies when doing a task of
/// `target_tier`: build power doubles per tier of downgrade. A mismatch the
/// other way, or a tierless side, yields zero.
pub fn buildpower_downgrage_coef(worker_tier: Tier, target_tier: Tier, bp: BuildPower) -> (ret:
    BuildPower)
    requires
        bp.0 * 4 <= usize::MAX,
    ensures
        ret.0 == bp.0 * spec_downgrade_coef(worker_tier, target_tier),
{
    let coef: usize = match (worker_tier, target_tier) {
        (Tier::T1, Tier::T1) => 1,
        (Tier::T2, Tier::T2) => 1,
        (Tier::T3, Tier::T3) => 1,
        (Tier::T2, Tier::T1) => 2,
        (Tier::T3, Tier::T2) => 2,
        (Tier::T3, Tier::T1) => 4,
        _ => 0,
    };
    proof {
        assert(coef == spec_downgrade_coef(worker_tier, target_tier));
        assert(bp.0 * coef <= bp.0 * 4) by (nonlinear_arith)
            requires coef <= 4;
    }
    BuildPower(bp.0 * coef)
}

/// The bare amplification coefficient of `buildpower_downgrage_coef`.
pub open spec fn spec_downgrade_coef(worker_tier: Tier, target_tier: Tier) -> int {
    match (worker_tier, target_tier) {
        (Tier::T1, Tier::T1) => 1,
        (Tier::T2, Tier::T2) => 1,
        (Tier::T3, Tier::T3) => 1,
        (Tier::T2, Tier::T1) => 2,
        (Tier::T3, Tier::T2) => 2,
        (Tier::T3, Tier::T1) => 4,
        _ => 0,
    }
}

/// Labor the equipment of this kind adds to the pool per turn while it is
/// operational.
pub fn stationary_build_power(stationary: Stationary) -> (ret: BuildPower)
    ensures
        ret.0 == spec_stationary_build_power(stationary),
{
    match stationary {
        Stationary::NoStationary => BuildPower(0),
        Stationary::BenchToolT1 => BuildPower(10),
        Stationary::BenchToolT2 => BuildPower(20),
        Stationary::BenchToolT3 => BuildPower(40),
        Stationary::FormatFurnace => BuildPower(10),
        Stationary::LabT1 => BuildPower(10),
        Stationary::LabT2 => BuildPower(10),
        Stationary::LabT3 => BuildPower(10),
        Stationary::Barrel => BuildPower(10),
        Stationary::Rack => BuildPower(0),
        Stationary::NeuroTerminal => BuildPower(10),
    }
}

/// Spec-level table of `stationary_build_power`.
pub open spec fn spec_stationary_build_power(stationary: Stationary) -> int {
    match stationary {
        Stationary::NoStationary => 0,
        Stationary::BenchToolT1 => 10,
        Stationary::BenchToolT2 => 20,
        Stationary::BenchToolT3 => 40,
        Stationary::FormatFurnace => 10,
        Stationary::LabT1 => 10,
        Stationary::LabT2 => 10,
        Stationary::LabT3 => 10,
        Stationary::Barrel => 10,
        Stationary::Rack => 0,
        Stationary::NeuroTerminal => 10,
    }
}

/// Materials a build of this kind consumes, as a cost table with unique
/// keys. Every real kind currently costs one unit of tier-one scrap.
pub fn stationary_required_resources(stationary: Stationary) -> (ret: Vec<(Resource, RealUnits)>)
    ensures
        ret@ == spec_stationary_required_resources(stationary),
{
    let mut ret: Vec<(Resource, RealUnits)> = Vec::new();
    match stationary {
        Stationary::NoStationary => (),
        _ => {
            ret.push((Resource::ScrapT1, RealUnits(1)));
        },
    }
    proof {
        assert(ret@ =~= spec_stationary_required_resources(stationary));
    }
    ret
}

/// Spec-level table of `stationary_required_resources`.
pub open spec fn spec_stationary_required_resources(stationary: Stationary) -> Seq<
    (Resource, RealUnits),
> {
    match stationary {
        Stationary::NoStationary => Seq::empty(),
        _ => seq![(Resource::ScrapT1, RealUnits(1))],
    }
}

/// The single construction work order behind every real stationary kind: ten
/// units of tier-one worker labor needing no equipment. The list is the
/// extension point for multi-stage builds.
pub fn stationary_requirements(target: Stationary) -> (ret: Vec<TaskMeta>)
    ensures
        ret@ == spec_stationary_requirements(target),
{
    let mut ret: Vec<TaskMeta> = Vec::new();
    match target {
        Stationary::NoStationary => (),
        _ => {
            ret.push(
                TaskMeta {
                    prof: Profession::Worker,
                    tier: Tier::T1,
                    bp: BuildPower(10),
                    stationary: Stationary::NoStationary,
                    sci_spec: SciSpec::NoSpec,
                },
            );
        },
    }
    proof {
        assert(ret@ =~= spec_stationary_requirements(target));
    }
    ret
}

/// Spec-level table of `stationary_requirements`.
pub open spec fn spec_stationary_requirements(target: Stationary) -> Seq<TaskMeta> {
    match target {
        Stationary::NoStationary => Seq::empty(),
        _ => seq![
            TaskMeta {
                prof: Profession::Worker,
                tier: Tier::T1,
                bp: BuildPower(10),
                stationary: Stationary::NoStationary,
                sci_spec: SciSpec::NoSpec,
            },
        ],
    }
}

/// The work orders that build a sealed room of the given tier: one order of
/// tier-one worker labor for every real tier, none for `NoTier`.
pub fn germ_requirements(tier: Tier) -> (ret: Vec<TaskMeta>)
    ensures
        ret@ == spec_germ_requirements(tier),
{
    let mut ret: Vec<TaskMeta> = Vec::new();
    match tier {
        Tier::NoTier => (),
        _ => {
            ret.push(
                TaskMeta {
                    prof: Profession::Worker,
                    tier: Tier::T1,
                    bp: BuildPower(10),
                    stationary: Stationary::NoStationary,
                    sci_spec: SciSpec::NoSpec,
                },
            );
        },
    }
    proof {
        assert(ret@ =~= spec_germ_requirements(tier));
    }
    ret
}

/// Spec-level table of `germ_requirements`.
pub open spec fn spec_germ_requirements(tier: Tier) -> Seq<TaskMeta> {
    match tier {
        Tier::NoTier => Seq::empty(),
        _ => seq![
            TaskMeta {
                prof: Profession::Worker,
                tier: Tier::T1,
                bp: BuildPower(10),
                stationary: Stationary::NoStationary,
                sci_spec: SciSpec::NoSpec,
            },
        ],
    }
}

/// Seal and outfit a new room of the given tier and purpose; returns the new
/// room's index. The room starts empty.
pub fn install_germ(colony: &mut Colony, tier: Tier, purpose: AreaType) -> (id: usize)
    requires
        old(colony).wf(),
        tier.is_labor_tier(),
        old(colony).rooms@.len() < MAX_ROOMS,
    ensures
        final(colony).wf(),
        id == old(colony).rooms@.len(),
        final(colony).rooms@ == old(colony).rooms@.push(
            (Room {
                purpose,
                tier,
                capacity: AreaCapacity(spec_tier2germ_capacity(tier) as usize),
                occupied: AreaOccupied(0),
            }),
        ),
        final(colony).colonists == old(colony).colonists,
        final(colony).stationaries == old(colony).stationaries,
        final(colony).tasks == old(colony).tasks,
        final(colony).shelves == old(colony).shelves,
        final(colony).barrels == old(colony).barrels,
        final(colony).floor_boxes == old(colony).floor_boxes,
{
    let id = colony.rooms.len();
    let capacity = tier2germ_capacity(tier);
    colony.rooms.push(
        Room { purpose, tier, capacity, occupied: AreaOccupied(0) },
    );
    id
}

/// Insert a task into the backlog at its priority position, after every task
/// of the same or smaller priority, so equal priorities keep insertion
/// order.
fn insert_task_sorted(tasks: &mut Vec<Task>, t: Task) -> (pos: Ghost<int>)
    requires
        old(tasks)@.len() < MAX_TASKS,
        forall|i: int, j: int|
            0 <= i < j < old(tasks)@.len() ==> old(tasks)@[i].priority.0
                <= old(tasks)@[j].priority.0,
    ensures
        0 <= pos@ <= old(tasks)@.len(),
        final(tasks)@ == old(tasks)@.insert(pos@, t),
        forall|i: int| 0 <= i < pos@ ==> old(tasks)@[i].priority.0 <= t.priority.0,
        forall|i: int| pos@ <= i < old(tasks)@.len() ==> old(tasks)@[i].priority.0 > t.priority.0,
        forall|i: int, j: int|
            0 <= i < j < final(tasks)@.len() ==> final(tasks)@[i].priority.0
                <= final(tasks)@[j].priority.0,
{
    let ghost t0 = tasks@;
    let mut k: usize = 0;
    while k < tasks.len() && tasks[k].priority.0 <= t.priority.0
        invariant
            k <= t0.len(),
            tasks@ == t0,
            forall|i: int| 0 <= i < k ==> t0[i].priority.0 <= t.priority.0,
            forall|i: int, j: int| 0 <= i < j < t0.len() ==> t0[i].priority.0 <= t0[j].priority.0,
        decreases t0.len() - k,
    {
        k = k + 1;
    }
    proof {
        assert forall|i: int| k <= i < t0.len() implies t0[i].priority.0 > t.priority.0 by {
            if i > k {
                assert(t0[k as int].priority.0 <= t0[i].priority.0);
            }
        }
    }
    tasks.insert(k, t);
    proof {
        let s = t0.insert(k as int, t);
        assert forall|i: int, j: int| 0 <= i < j < s.len() implies s[i].priority.0
            <= s[j].priority.0 by {
            if i < k && j < k {
            } else if i < k && j == k {
            } else if i == k && j > k {
            } else if i < k && j > k {
                assert(s[i] == t0[i] && s[j] == t0[j - 1]);
                if j - 1 >= k {
                } else {
                }
            } else {
                assert(s[i] == t0[i - 1] && s[j] == t0[j - 1]);
            }
        }
    }
    Ghost(k as int)
}

/// Order the construction of a stationary in a room. The area check comes
/// first, then the material cost is written off atomically; only then are
/// the stationary (as `Constructing`) and its construction work orders
/// created. On either failure nothing is created and nothing is consumed.
pub fn start_build_task(
    colony: &mut Colony,
    stationary: Stationary,
    room: usize,
    priority: TaskPriority,
) -> (ret: Result<usize, SamosborError>)
    requires
        old(colony).wf(),
        room < old(colony).rooms@.len(),
        old(colony).stationaries@.len() < MAX_STATIONARIES,
        old(colony).tasks@.len() < MAX_TASKS,
    ensures
        final(colony).wf(),
        ret matches Err(e) ==> (e == SamosborError::NotEnoughArea || e
            == SamosborError::NotEnoughResources) && *final(colony) == *old(colony),
        (ret matches Err(e) && e == SamosborError::NotEnoughArea) <==> old(
            colony,
        ).rooms@[room as int].free_space() < spec_stationary_size(stationary),
        (ret matches Err(e) && e == SamosborError::NotEnoughResources) <==> (old(
            colony,
        ).rooms@[room as int].free_space() >= spec_stationary_size(stationary) && exists|i: int|
            0 <= i < spec_stationary_required_resources(stationary).len()
                && !crate::storage::spec_have_enough(
                *old(colony),
                spec_stationary_required_resources(stationary)[i].0,
                spec_stationary_required_resources(stationary)[i].1.0 as int,
            )),
        ret matches Ok(id) ==> {
            &&& id == old(colony).stationaries@.len()
            &&& final(colony).stationaries@ == old(colony).stationaries@.push(
                (StationaryUnit {
                    kind: stationary,
                    status: StationaryStatus::Constructing,
                    room: BelongsToRoom(room),
                }),
            )
            &&& final(colony).rooms@.len() == old(colony).rooms@.len()
            &&& forall|j: int|
                0 <= j < final(colony).rooms@.len() ==> {
                    &&& final(colony).rooms@[j].purpose == old(colony).rooms@[j].purpose
                    &&& final(colony).rooms@[j].tier == old(colony).rooms@[j].tier
                    &&& final(colony).rooms@[j].capacity == old(colony).rooms@[j].capacity
                }
            &&& final(colony).rooms@[room as int].occupied.0 <= old(
                colony,
            ).rooms@[room as int].occupied.0 + spec_stationary_size(stationary)
            &&& forall|i: int|
                0 <= i < spec_stationary_required_resources(stationary).len()
                    ==> crate::storage::total_volume(
                    *final(colony),
                    #[trigger] spec_stationary_required_resources(stationary)[i].0,
                ) == crate::storage::total_volume(
                    *old(colony),
                    spec_stationary_required_resources(stationary)[i].0,
                ) - spec_stationary_required_resources(stationary)[i].1.0 as int
                    * crate::storage::spec_piece_size(
                    spec_stationary_required_resources(stationary)[i].0,
                )
            &&& final(colony).tasks@.len() == old(colony).tasks@.len()
                + spec_stationary_requirements(stationary).len()
            &&& (spec_stationary_requirements(stationary).len() == 1 ==> exists|k: int|
                0 <= k <= old(colony).tasks@.len() && final(colony).tasks@ == #[trigger] old(
                    colony,
                ).tasks@.insert(
                    k,
                    (Task {
                        meta: spec_stationary_requirements(stationary)[0],
                        priority,
                        owner: BelongsToStationary(old(colony).stationaries@.len() as usize),
                    }),
                ))
            &&& final(colony).colonists == old(colony).colonists
        },
{
    let free_space = crate::area::get_room_free_space(colony, room);
    let required_space = stationary_size(stationary);
    if free_space < required_space.0 as i32 {
        return Err(SamosborError::NotEnoughArea);
    }
    let required_resources = stationary_required_resources(stationary);
    let bunch_result = crate::storage::writeoff_bunch(colony, &required_resources);
    let ghost tbl = spec_stationary_required_resources(stationary);
    match bunch_result {
        Err(e) => {
            proof {
                let i = choose|i: int|
                    0 <= i < required_resources@.len() && !crate::storage::spec_have_enough(
                        *old(colony),
                        required_resources@[i].0,
                        required_resources@[i].1.0 as int,
                    );
                assert(0 <= i < tbl.len() && !crate::storage::spec_have_enough(
                    *old(colony),
                    tbl[i].0,
                    tbl[i].1.0 as int,
                ));
            }
            return Err(e);
        },
        Ok(()) => {
            proof {
                assert forall|i: int| 0 <= i < tbl.len() implies crate::storage::spec_have_enough(
                    *old(colony),
                    tbl[i].0,
                    tbl[i].1.0 as int,
                ) by {
                    assert(tbl[i] == required_resources@[i]);
                    if !crate::storage::spec_have_enough(
                        *old(colony),
                        required_resources@[i].0,
                        required_resources@[i].1.0 as int,
                    ) {
                        assert(false);
                    }
                }
            }
        },
    }
    let task_id = colony.stationaries.len();
    colony.stationaries.push(
        StationaryUnit {
            kind: stationary,
            status: StationaryStatus::Constructing,
            room: BelongsToRoom(room),
        },
    );
    let here = colony.rooms[room];
    proof {
        assert(here.capacity == old(colony).rooms@[room as int].capacity);
        assert(here.occupied.0 <= old(colony).rooms@[room as int].occupied.0);
        assert(here.occupied.0 + required_space.0 <= here.capacity.0);
    }
    let updated = Room {
        purpose: here.purpose,
        tier: here.tier,
        capacity: here.capacity,
        occupied: AreaOccupied(here.occupied.0 + required_space.0),
    };
    colony.rooms.set(room, updated);
    let ghost mid = *colony;
    let requirements = stationary_requirements(stationary);
    if requirements.len() > 0 {
        let meta = requirements[0];
        let new_task = Task { meta, priority, owner: BelongsToStationary(task_id) };
        let pos = insert_task_sorted(&mut colony.tasks, new_task);
        proof {
            assert forall|i: int| 0 <= i < colony.tasks@.len() implies {
                &&& (colony.tasks@[i].owner.0 as int) < colony.stationaries@.len()
                &&& colony.stationaries@[colony.tasks@[i].owner.0 as int].status
                    == StationaryStatus::Constructing
            } by {
                if i != pos@ {
                    let j = if i < pos@ {
                        i
                    } else {
                        i - 1
                    };
                    assert(colony.tasks@[i] == mid.tasks@[j]);
                }
            }
        }
    }
    Ok(task_id)
}

} // verus!
