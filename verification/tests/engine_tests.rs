//! Tests of the labor allocator, the build orders, and the turn pipeline.

use glavblock::area::AreaCapacity;
use glavblock::area::AreaOccupied;
use glavblock::area::AreaType;
use glavblock::area::BelongsToRoom;
use glavblock::area::Room;
use glavblock::area::get_room_free_space;
use glavblock::area::get_sufficent_room;
use glavblock::common::SamosborError;
use glavblock::common::Tier;
use glavblock::common::d;
use glavblock::people::Colonist;
use glavblock::people::MilitaryDep;
use glavblock::people::Mood;
use glavblock::people::Profession;
use glavblock::people::Satiety;
use glavblock::people::SciSpec;
use glavblock::people::block_mood;
use glavblock::people::block_satiety;
use glavblock::people::people_by_profession;
use glavblock::people::random_sci_spec;
use glavblock::people::spawn_1_g;
use glavblock::people::spawn_comrad;
use glavblock::production::BelongsToStationary;
use glavblock::production::BuildPower;
use glavblock::production::Stationary;
use glavblock::production::StationaryStatus;
use glavblock::production::StationaryUnit;
use glavblock::production::Task;
use glavblock::production::TaskMeta;
use glavblock::production::TaskPriority;
use glavblock::production::buildpower_downgrage_coef;
use glavblock::production::install_germ;
use glavblock::production::start_build_task;
use glavblock::production::stationary_build_power;
use glavblock::production::stationary_size;
use glavblock::production::tier2comrad_buildpower;
use glavblock::resources::Resource;
use glavblock::state::Colony;
use glavblock::state::init_colony;
use glavblock::storage::RealUnits;
use glavblock::storage::Shelf;
use glavblock::storage::VolumeOccupied;
use glavblock::storage::how_much_we_have;
use glavblock::storage::put_resource;
use glavblock::turn::BuildPowerPool;
use glavblock::turn::calc_buildpower;
use glavblock::turn::clean_up_completed_tasks;
use glavblock::turn::consume_concentrat;
use glavblock::turn::hunger_tick;
use glavblock::turn::pool_index;
use glavblock::turn::process_tasks;
use glavblock::turn::setup_completed_stationaries;
use glavblock::turn::turn;

fn worker(room: usize) -> Colonist {
    Colonist {
        prof: Profession::Worker,
        tier: Tier::T1,
        mdep: MilitaryDep::NoDep,
        sci_spec: SciSpec::NoSpec,
        room: BelongsToRoom(room),
        satiety: Satiety(100),
        mood: Mood(5),
    }
}

fn living_room() -> Room {
    Room {
        purpose: AreaType::Living,
        tier: Tier::T1,
        capacity: AreaCapacity(30),
        occupied: AreaOccupied(0),
    }
}

#[test]
fn allocation_scenario_bench_tool() {
    // Two tier-one workers give a pool of twenty build power; one ready
    // bench tool supplies ten; one task of ten remains. After one pass the
    // task is done, the equipment pool is drained, and ten build power of
    // labor is left over.
    let mut colony = Colony::new();
    colony.rooms.push(living_room());
    colony.colonists.push(worker(0));
    colony.colonists.push(worker(0));
    colony.stationaries.push(StationaryUnit {
        kind: Stationary::BenchToolT1,
        status: StationaryStatus::Ready,
        room: BelongsToRoom(0),
    });
    colony.stationaries.push(StationaryUnit {
        kind: Stationary::BenchToolT1,
        status: StationaryStatus::Constructing,
        room: BelongsToRoom(0),
    });
    colony.tasks.push(Task {
        meta: TaskMeta {
            prof: Profession::Worker,
            tier: Tier::T1,
            bp: BuildPower(10),
            stationary: Stationary::BenchToolT1,
            sci_spec: SciSpec::NoSpec,
        },
        priority: TaskPriority(1),
        owner: BelongsToStationary(1),
    });
    let mut pool = BuildPowerPool::new();
    calc_buildpower(&colony, &mut pool);
    assert_eq!(pool.slots[pool_index(Profession::Worker, Tier::T1)], 20);
    process_tasks(&mut colony, &mut pool);
    assert_eq!(colony.tasks[0].meta.bp, BuildPower(0));
    assert_eq!(pool.slots[pool_index(Profession::Worker, Tier::T1)], 10);
    clean_up_completed_tasks(&mut colony);
    assert!(colony.tasks.is_empty());
    setup_completed_stationaries(&mut colony);
    assert_eq!(colony.stationaries[1].status, StationaryStatus::Ready);
}

#[test]
fn higher_tiers_serve_lower_tasks_amplified() {
    // One tier-two worker (twenty build power) serves a tier-one task
    // through the doubling coefficient; the task needs no equipment.
    let mut colony = Colony::new();
    colony.rooms.push(living_room());
    colony.colonists.push(Colonist { tier: Tier::T2, ..worker(0) });
    colony.stationaries.push(StationaryUnit {
        kind: Stationary::BenchToolT1,
        status: StationaryStatus::Constructing,
        room: BelongsToRoom(0),
    });
    colony.tasks.push(Task {
        meta: TaskMeta {
            prof: Profession::Worker,
            tier: Tier::T1,
            bp: BuildPower(40),
            stationary: Stationary::NoStationary,
            sci_spec: SciSpec::NoSpec,
        },
        priority: TaskPriority(1),
        owner: BelongsToStationary(0),
    });
    let mut pool = BuildPowerPool::new();
    calc_buildpower(&colony, &mut pool);
    assert_eq!(pool.slots[pool_index(Profession::Worker, Tier::T2)], 20);
    process_tasks(&mut colony, &mut pool);
    // Twenty tier-two build power does forty tier-one work.
    assert_eq!(colony.tasks[0].meta.bp, BuildPower(0));
    assert_eq!(pool.slots[pool_index(Profession::Worker, Tier::T2)], 0);
}

#[test]
fn downgrade_coefficient_values() {
    let bp = BuildPower(10);
    assert_eq!(buildpower_downgrage_coef(Tier::T1, Tier::T1, bp), BuildPower(10));
    assert_eq!(buildpower_downgrage_coef(Tier::T2, Tier::T1, bp), BuildPower(20));
    assert_eq!(buildpower_downgrage_coef(Tier::T3, Tier::T2, bp), BuildPower(20));
    assert_eq!(buildpower_downgrage_coef(Tier::T3, Tier::T1, bp), BuildPower(40));
    assert_eq!(buildpower_downgrage_coef(Tier::T1, Tier::T2, bp), BuildPower(0));
    assert_eq!(buildpower_downgrage_coef(Tier::NoTier, Tier::T1, bp), BuildPower(0));
}

#[test]
fn start_build_rejects_small_room() {
    // Free area four against a footprint of five: the build is refused, no
    // entity appears, and no resources are consumed.
    let mut colony = Colony::new();
    colony.rooms.push(Room {
        purpose: AreaType::Party,
        tier: Tier::T1,
        capacity: AreaCapacity(4),
        occupied: AreaOccupied(0),
    });
    colony.shelves.push(Shelf { resource: None, occupied: VolumeOccupied(0) });
    put_resource(&mut colony, Resource::ScrapT1, RealUnits(1));
    assert_eq!(stationary_size(Stationary::Rack), AreaOccupied(5));
    let result = start_build_task(&mut colony, Stationary::Rack, 0, TaskPriority(1));
    assert_eq!(result, Err(SamosborError::NotEnoughArea));
    assert!(colony.stationaries.is_empty());
    assert!(colony.tasks.is_empty());
    assert_eq!(how_much_we_have(&colony, Resource::ScrapT1), RealUnits(1));
}

#[test]
fn start_build_rejects_missing_resources() {
    let mut colony = Colony::new();
    colony.rooms.push(Room {
        purpose: AreaType::Industrial,
        tier: Tier::T2,
        capacity: AreaCapacity(100),
        occupied: AreaOccupied(0),
    });
    let result = start_build_task(&mut colony, Stationary::BenchToolT1, 0, TaskPriority(1));
    assert_eq!(result, Err(SamosborError::NotEnoughResources));
    assert!(colony.stationaries.is_empty());
    assert!(colony.tasks.is_empty());
}

#[test]
fn start_build_creates_stationary_and_task() {
    let mut colony = Colony::new();
    colony.rooms.push(Room {
        purpose: AreaType::Industrial,
        tier: Tier::T2,
        capacity: AreaCapacity(100),
        occupied: AreaOccupied(0),
    });
    colony.shelves.push(Shelf { resource: None, occupied: VolumeOccupied(0) });
    put_resource(&mut colony, Resource::ScrapT1, RealUnits(1));
    let result = start_build_task(&mut colony, Stationary::BenchToolT1, 0, TaskPriority(2));
    assert_eq!(result, Ok(0));
    assert_eq!(colony.stationaries.len(), 1);
    assert_eq!(colony.stationaries[0].status, StationaryStatus::Constructing);
    assert_eq!(colony.tasks.len(), 1);
    assert_eq!(colony.tasks[0].owner, BelongsToStationary(0));
    assert_eq!(colony.tasks[0].priority, TaskPriority(2));
    // The scrap was consumed and the footprint taken.
    assert_eq!(how_much_we_have(&colony, Resource::ScrapT1), RealUnits(0));
    assert_eq!(colony.rooms[0].occupied, AreaOccupied(20));
    assert_eq!(get_room_free_space(&colony, 0), 80);
}

#[test]
fn room_lookup_prefers_most_occupied() {
    let mut colony = Colony::new();
    colony.rooms.push(Room {
        purpose: AreaType::Party,
        tier: Tier::T1,
        capacity: AreaCapacity(100),
        occupied: AreaOccupied(10),
    });
    colony.rooms.push(Room {
        purpose: AreaType::Party,
        tier: Tier::T1,
        capacity: AreaCapacity(100),
        occupied: AreaOccupied(60),
    });
    colony.rooms.push(Room {
        purpose: AreaType::Living,
        tier: Tier::T1,
        capacity: AreaCapacity(100),
        occupied: AreaOccupied(90),
    });
    // The fullest party room that still fits wins; the living room never
    // competes.
    assert_eq!(get_sufficent_room(&colony, AreaOccupied(5), AreaType::Party), Some(1));
    // Ask for more than the fullest can take: the emptier one is chosen.
    assert_eq!(get_sufficent_room(&colony, AreaOccupied(50), AreaType::Party), Some(0));
    assert_eq!(get_sufficent_room(&colony, AreaOccupied(95), AreaType::Party), None);
}

#[test]
fn hunger_tick_kills_the_starving() {
    let mut colony = Colony::new();
    colony.rooms.push(living_room());
    spawn_comrad(
        &mut colony,
        Profession::Worker,
        Tier::T1,
        MilitaryDep::NoDep,
        SciSpec::NoSpec,
        0,
    );
    colony.colonists.push(Colonist { satiety: Satiety(15), ..worker(0) });
    assert_eq!(colony.rooms[0].occupied, AreaOccupied(10));
    hunger_tick(&mut colony);
    // The well-fed colonist lives on with ninety satiety; the starving one
    // fell to five and died, freeing nothing (they paid no rent here).
    assert_eq!(colony.colonists.len(), 1);
    assert_eq!(colony.colonists[0].satiety, Satiety(90));
    assert_eq!(colony.colonists[0].mood, Mood(4));
    assert_eq!(colony.rooms[0].occupied, AreaOccupied(0));
}

#[test]
fn concentrat_feeds_in_order() {
    let mut colony = Colony::new();
    colony.rooms.push(living_room());
    colony.colonists.push(worker(0));
    colony.colonists.push(worker(0));
    colony.shelves.push(Shelf { resource: None, occupied: VolumeOccupied(0) });
    put_resource(&mut colony, Resource::ConcentratT1, RealUnits(1));
    consume_concentrat(&mut colony);
    // The first colonist eats, the second goes without and sours.
    assert_eq!(colony.colonists[0].satiety, Satiety(110));
    assert_eq!(colony.colonists[0].mood, Mood(6));
    assert_eq!(colony.colonists[1].satiety, Satiety(100));
    assert_eq!(colony.colonists[1].mood, Mood(4));
    assert_eq!(how_much_we_have(&colony, Resource::ConcentratT1), RealUnits(0));
}

#[test]
fn full_turn_keeps_the_block_running() {
    let mut colony = Colony::new();
    let mut pool = BuildPowerPool::new();
    init_colony(&mut colony);
    assert_eq!(colony.rooms.len(), 38);
    assert_eq!(colony.colonists.len(), 114);
    let concentrat_before = how_much_we_have(&colony, Resource::ConcentratT1);
    // The founding deliveries leave exactly this much concentrate and scrap.
    assert_eq!(concentrat_before, RealUnits(1100));
    assert_eq!(how_much_we_have(&colony, Resource::ScrapT1), RealUnits(280));
    turn(&mut colony, &mut pool);
    // Everyone ate: one unit per colonist left the stores, nobody died.
    assert_eq!(colony.colonists.len(), 114);
    let concentrat_after = how_much_we_have(&colony, Resource::ConcentratT1);
    assert_eq!(concentrat_before.0 - concentrat_after.0, 114);
    assert_eq!(colony.colonists[0].satiety, Satiety(100));
}

#[test]
fn ledger_counts_by_profession() {
    let mut colony = Colony::new();
    colony.rooms.push(living_room());
    colony.rooms.push(Room {
        purpose: AreaType::Military,
        tier: Tier::T2,
        capacity: AreaCapacity(150),
        occupied: AreaOccupied(0),
    });
    colony.colonists.push(worker(0));
    colony.colonists.push(worker(0));
    spawn_1_g(&mut colony, 1);
    let table = people_by_profession(&colony);
    assert_eq!(table.len(), 6);
    assert_eq!(table[4], (Profession::Worker, 2));
    assert_eq!(table[2], (Profession::Likvidator, 14));
    assert_eq!(block_mood(&colony), 16 * 5);
    assert_eq!(block_satiety(&colony), Satiety(16 * 100));
}

#[test]
fn labor_and_equipment_tables() {
    assert_eq!(tier2comrad_buildpower(Tier::T1), BuildPower(10));
    assert_eq!(tier2comrad_buildpower(Tier::T2), BuildPower(20));
    assert_eq!(tier2comrad_buildpower(Tier::T3), BuildPower(40));
    assert_eq!(stationary_build_power(Stationary::BenchToolT3), BuildPower(40));
    assert_eq!(stationary_build_power(Stationary::Rack), BuildPower(0));
    assert_eq!(stationary_size(Stationary::LabT3), AreaOccupied(60));
}

#[test]
fn germ_installation_opens_a_room() {
    let mut colony = Colony::new();
    let id = install_germ(&mut colony, Tier::T2, AreaType::Science);
    assert_eq!(id, 0);
    assert_eq!(colony.rooms[0].capacity, AreaCapacity(150));
    assert_eq!(colony.rooms[0].purpose, AreaType::Science);
    assert_eq!(colony.rooms[0].occupied, AreaOccupied(0));
}

#[test]
fn dice_stay_in_range() {
    // A one-sided die always lands on its only face.
    assert_eq!(d(5, 1), 0);
    assert_eq!(d(0, 6), 0);
    for _ in 0..50 {
        assert!(d(2, 6) <= 10);
        let spec = random_sci_spec();
        assert!(spec != SciSpec::NoSpec);
    }
}
