//! Tests of the storage engine: packing, availability, and write-offs.

use glavblock::area::AreaCapacity;
use glavblock::area::AreaOccupied;
use glavblock::area::AreaType;
use glavblock::area::Room;
use glavblock::common::Tier;
use glavblock::resources::Resource;
use glavblock::state::Colony;
use glavblock::storage::Barrel;
use glavblock::storage::RealUnits;
use glavblock::storage::Shelf;
use glavblock::storage::VolumeOccupied;
use glavblock::storage::enough_resources;
use glavblock::storage::have_enough;
use glavblock::storage::how_much_we_have;
use glavblock::storage::piece_size;
use glavblock::storage::put_resource;
use glavblock::storage::real2volume;
use glavblock::storage::volume2real;
use glavblock::storage::writeoff;
use glavblock::storage::writeoff_bunch;

fn empty_shelf() -> Shelf {
    Shelf { resource: None, occupied: VolumeOccupied(0) }
}

fn party_room(capacity: usize) -> Room {
    Room {
        purpose: AreaType::Party,
        tier: Tier::T2,
        capacity: AreaCapacity(capacity),
        occupied: AreaOccupied(0),
    }
}

#[test]
fn store_three_concentrat_on_one_shelf() {
    // One empty shelf of a thousand volume units; concentrate has unit
    // volume one, so three units fit with nothing left over.
    let mut colony = Colony::new();
    colony.shelves.push(empty_shelf());
    let leftover = put_resource(&mut colony, Resource::ConcentratT1, RealUnits(3));
    assert_eq!(leftover, RealUnits(0));
    assert!(have_enough(&colony, Resource::ConcentratT1, RealUnits(3)));
    assert_eq!(how_much_we_have(&colony, Resource::ConcentratT1), RealUnits(3));
}

#[test]
fn store_overflows_to_floor() {
    // A single shelf holds ten units of scrap (unit volume one hundred);
    // the rest goes to floor boxes in the party room.
    let mut colony = Colony::new();
    colony.shelves.push(empty_shelf());
    colony.rooms.push(party_room(100));
    let leftover = put_resource(&mut colony, Resource::ScrapT1, RealUnits(25));
    assert_eq!(leftover, RealUnits(0));
    assert_eq!(how_much_we_have(&colony, Resource::ScrapT1), RealUnits(25));
    // Ten on the shelf, fifteen in two floor boxes of ten and five.
    assert_eq!(colony.shelves[0].occupied, VolumeOccupied(1000));
    assert_eq!(colony.floor_boxes.len(), 2);
}

#[test]
fn store_returns_leftover_when_full() {
    // No shelves and no rooms: nothing can be stored.
    let mut colony = Colony::new();
    let leftover = put_resource(&mut colony, Resource::ScrapT1, RealUnits(7));
    assert_eq!(leftover, RealUnits(7));
    assert_eq!(how_much_we_have(&colony, Resource::ScrapT1), RealUnits(0));
}

#[test]
fn fluids_go_to_barrels_only() {
    // A shelf and a room cannot take slime; only a barrel can.
    let mut colony = Colony::new();
    colony.shelves.push(empty_shelf());
    colony.rooms.push(party_room(1000));
    let leftover = put_resource(&mut colony, Resource::BlackSlime, RealUnits(4));
    assert_eq!(leftover, RealUnits(4));
    colony.barrels.push(Barrel { resource: None, occupied: VolumeOccupied(0) });
    let leftover2 = put_resource(&mut colony, Resource::BlackSlime, RealUnits(4));
    assert_eq!(leftover2, RealUnits(0));
    assert_eq!(how_much_we_have(&colony, Resource::BlackSlime), RealUnits(4));
}

#[test]
fn store_writeoff_round_trip_clears_floor() {
    // Storing and writing off the same amount leaves no stock and no floor
    // box behind.
    let mut colony = Colony::new();
    colony.rooms.push(party_room(50));
    let leftover = put_resource(&mut colony, Resource::ScrapT1, RealUnits(5));
    assert_eq!(leftover, RealUnits(0));
    assert!(!colony.floor_boxes.is_empty());
    writeoff(&mut colony, Resource::ScrapT1, RealUnits(5));
    assert_eq!(how_much_we_have(&colony, Resource::ScrapT1), RealUnits(0));
    assert!(!have_enough(&colony, Resource::ScrapT1, RealUnits(1)));
    assert!(colony.floor_boxes.is_empty());
    // The boxes gave their footprint back to the room.
    assert_eq!(colony.rooms[0].occupied, AreaOccupied(0));
}

#[test]
fn writeoff_drains_most_filled_first() {
    let mut colony = Colony::new();
    colony.shelves.push(Shelf {
        resource: Some(Resource::ConcentratT1),
        occupied: VolumeOccupied(200),
    });
    colony.shelves.push(Shelf {
        resource: Some(Resource::ConcentratT1),
        occupied: VolumeOccupied(500),
    });
    writeoff(&mut colony, Resource::ConcentratT1, RealUnits(400));
    // The fuller shelf is drained first; it keeps its tag while something
    // is left on it, and the other shelf is untouched.
    assert_eq!(colony.shelves[1].occupied, VolumeOccupied(100));
    assert_eq!(colony.shelves[1].resource, Some(Resource::ConcentratT1));
    assert_eq!(colony.shelves[0].occupied, VolumeOccupied(200));
    assert_eq!(how_much_we_have(&colony, Resource::ConcentratT1), RealUnits(300));
    // Draining the rest empties both shelves and clears their tags.
    writeoff(&mut colony, Resource::ConcentratT1, RealUnits(300));
    assert_eq!(colony.shelves[0].resource, None);
    assert_eq!(colony.shelves[1].resource, None);
    assert_eq!(how_much_we_have(&colony, Resource::ConcentratT1), RealUnits(0));
}

#[test]
fn bunch_writeoff_is_atomic() {
    // One entry of the bunch is short: nothing at all is consumed, not even
    // the entry that was individually available.
    let mut colony = Colony::new();
    colony.shelves.push(empty_shelf());
    let leftover = put_resource(&mut colony, Resource::ScrapT1, RealUnits(1));
    assert_eq!(leftover, RealUnits(0));
    let bunch = vec![
        (Resource::ScrapT1, RealUnits(1)),
        (Resource::ScrapT2, RealUnits(5)),
    ];
    let result = writeoff_bunch(&mut colony, &bunch);
    assert!(result.is_err());
    assert_eq!(how_much_we_have(&colony, Resource::ScrapT1), RealUnits(1));
    assert_eq!(how_much_we_have(&colony, Resource::ScrapT2), RealUnits(0));
}

#[test]
fn bunch_writeoff_takes_all_when_stocked() {
    let mut colony = Colony::new();
    colony.shelves.push(empty_shelf());
    colony.shelves.push(empty_shelf());
    put_resource(&mut colony, Resource::ScrapT1, RealUnits(2));
    put_resource(&mut colony, Resource::PolymerT1, RealUnits(10));
    let bunch = vec![
        (Resource::ScrapT1, RealUnits(1)),
        (Resource::PolymerT1, RealUnits(4)),
    ];
    assert!(enough_resources(&colony, &bunch));
    let result = writeoff_bunch(&mut colony, &bunch);
    assert!(result.is_ok());
    assert_eq!(how_much_we_have(&colony, Resource::ScrapT1), RealUnits(1));
    assert_eq!(how_much_we_have(&colony, Resource::PolymerT1), RealUnits(6));
}

#[test]
fn volume_conversions_are_exact() {
    assert_eq!(piece_size(Resource::ConcentratT1), VolumeOccupied(1));
    assert_eq!(piece_size(Resource::ScrapT1), VolumeOccupied(100));
    assert_eq!(piece_size(Resource::Concrete), VolumeOccupied(1000));
    assert_eq!(piece_size(Resource::BlackSlime), VolumeOccupied(50));
    assert_eq!(piece_size(Resource::PolymerT2), VolumeOccupied(10));
    assert_eq!(real2volume(Resource::ScrapT1, RealUnits(3)), VolumeOccupied(300));
    assert_eq!(volume2real(Resource::ScrapT1, VolumeOccupied(300)), RealUnits(3));
    // A fractional remainder is lost on the way back to units.
    assert_eq!(volume2real(Resource::ScrapT1, VolumeOccupied(399)), RealUnits(3));
}
