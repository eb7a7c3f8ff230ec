//! The shared world of units on a map, and the event evaluation that
//! advances it deterministically.

use vstd::prelude::*;
use crate::location::Location;
use crate::location::Position;
use crate::location::Tile;
use crate::location::Unit;
use crate::location::eval_direction;
use crate::location::idx2pos;
use crate::location::pos2idx;
use crate::location::Direction;
use crate::protocol::Event;
use crate::protocol::SamosborError;
use crate::protocol::SamosborMessage;
use crate::render::Renderable;
use crate::render::get_segment;

verus! {

/// One unit standing on the map, with the glyph it is drawn as. Every unit
/// blocks its tile.
#[derive(PartialEq, Eq, Debug, Clone, Copy, Structural)]
pub struct UnitEntry {
    pub unit: Unit,
    pub pos: Position,
    pub renderable: Renderable,
}

/// The whole shared world: the units and the map they stand on.
#[derive(Debug, Clone)]
pub struct WorldState {
    pub units: Vec<UnitEntry>,
    pub location: Location,
}

impl WorldState {
    /// The map is consistent and every unit stands on it.
    pub open spec fn wf(self) -> bool {
        &&& self.location.wf()
        &&& forall|i: int|
            0 <= i < self.units@.len() ==> (#[trigger] self.units@[i]).pos.x < self.location.width
                && self.units@[i].pos.y < self.location.height
    }

    /// A fresh world on a new map of the given dimensions.
    pub fn new(width: usize, height: usize) -> (ret: WorldState)
        requires
            width >= 1,
            height >= 1,
            width * height <= usize::MAX,
        ensures
            ret.wf(),
            ret.units@.len() == 0,
            ret.location.width == width,
            ret.location.height == height,
    {
        WorldState { units: Vec::new(), location: Location::new(width, height) }
    }
}

/// Spawn a unit on the first free tile of the map, blocking it. Reports
/// `NoEmptyTiles` when the map is full.
pub fn spawn_unit(state: &mut WorldState, unit: Unit) -> (ret: Result<Position, SamosborError>)
    requires
        old(state).wf(),
    ensures
        final(state).wf(),
        final(state).location.width == old(state).location.width,
        final(state).location.height == old(state).location.height,
        match ret {
            Ok(pos) => final(state).units@ == old(state).units@.push(
                (UnitEntry { unit, pos, renderable: Renderable { glyph: '@' } }),
            ),
            Err(e) => e == SamosborError::NoEmptyTiles && final(state).units == old(state).units
                && final(state).location == old(state).location,
        },
{
    let width = state.location.width;
    let height = state.location.height;
    let spawned = state.location.try_to_spawn_blocking();
    match spawned {
        None => Err(SamosborError::NoEmptyTiles),
        Some(pos) => {
            state.units.push(UnitEntry { unit, pos, renderable: Renderable { glyph: '@' } });
            Ok(pos)
        },
    }
}

/// Place a unit at a known position, blocking that tile.
pub fn add_unit(state: &mut WorldState, unit: Unit, pos: Position) -> (ret: Result<
    (),
    SamosborError,
>)
    requires
        old(state).wf(),
        pos.x < old(state).location.width,
        pos.y < old(state).location.height,
    ensures
        final(state).wf(),
        ret is Ok,
        final(state).units@ == old(state).units@.push(
            (UnitEntry { unit, pos, renderable: Renderable { glyph: '@' } }),
        ),
        final(state).location.width == old(state).location.width,
        final(state).location.height == old(state).location.height,
{
    proof {
        assert(pos.y * state.location.width + pos.x < state.location.width
            * state.location.height) by (nonlinear_arith)
            requires
                (pos.x as int) < state.location.width as int,
                (pos.y as int) < state.location.height as int,
                state.location.width >= 1,
                0 <= pos.x,
                0 <= pos.y,
        ;
    }
    state.location.block_tile_by_position(pos);
    state.units.push(UnitEntry { unit, pos, renderable: Renderable { glyph: '@' } });
    Ok(())
}

/// The units left when every entry of the given unit is removed.
pub open spec fn without_unit(s: Seq<UnitEntry>, unit: Unit) -> Seq<UnitEntry>
    decreases s.len(),
{
    if s.len() == 0 {
        Seq::empty()
    } else {
        let prefix = without_unit(s.drop_last(), unit);
        if s.last().unit == unit {
            prefix
        } else {
            prefix.push(s.last())
        }
    }
}

/// Remove every entry of the unit from the world. The tiles the unit blocked
/// stay blocked.
pub fn remove_unit(state: &mut WorldState, unit: Unit) -> (ret: Result<(), SamosborError>)
    requires
        old(state).wf(),
    ensures
        final(state).wf(),
        ret is Ok,
        final(state).units@ == without_unit(old(state).units@, unit),
        final(state).location == old(state).location,
{
    let ghost u0 = state.units@;
    let mut kept: Vec<UnitEntry> = Vec::new();
    let mut i: usize = 0;
    while i < state.units.len()
        invariant
            state.units@ == u0,
            state.location == old(state).location,
            old(state).wf(),
            i <= u0.len(),
            kept@ == without_unit(u0.take(i as int), unit),
            forall|k: int|
                0 <= k < kept@.len() ==> (#[trigger] kept@[k]).pos.x < state.location.width
                    && kept@[k].pos.y < state.location.height,
        decreases u0.len() - i,
    {
        proof {
            assert(u0.take(i as int + 1).drop_last() =~= u0.take(i as int));
            assert(u0.take(i as int + 1).last() == u0[i as int]);
            assert(u0[i as int].pos.x < state.location.width);
        }
        let entry = state.units[i];
        if !(entry.unit == unit) {
            kept.push(entry);
        }
        i = i + 1;
    }
    proof {
        assert(u0.take(i as int) =~= u0);
    }
    state.units = kept;
    Ok(())
}

/// The first free tile of the map in row-major order, if any tile is still
/// passable.
pub fn get_first_free_tile(state: &WorldState) -> (ret: Option<Position>)
    requires
        state.wf(),
    ensures
        match ret {
            Some(pos) => {
                let idx = pos.y * state.location.width + pos.x;
                &&& 0 <= idx < state.location.passable@.len()
                &&& state.location.passable@[idx as int]
            },
            None => forall|k: int|
                0 <= k < state.location.passable@.len() ==> !state.location.passable@[k],
        },
{
    let width = state.location.width;
    let mut i: usize = 0;
    while i < state.location.passable.len()
        invariant
            state.wf(),
            width == state.location.width,
            i <= state.location.passable@.len(),
            forall|k: int| 0 <= k < i ==> !state.location.passable@[k],
        decreases state.location.passable@.len() - i,
    {
        if state.location.passable[i] {
            proof {
                vstd::arithmetic::div_mod::lemma_fundamental_div_mod(i as int, width as int);
                vstd::arithmetic::div_mod::lemma_mod_bound(i as int, width as int);
                vstd::arithmetic::div_mod::lemma_div_pos_is_pos(i as int, width as int);
                vstd::arithmetic::mul::lemma_mul_is_commutative(
                    width as int,
                    i as int / width as int,
                );
            }
            return Some(idx2pos(width, i));
        }
        i = i + 1;
    }
    None
}

/// Mark every wall tile of the map as blocked, so nothing can step into it.
pub fn block_tiles_from_location(state: &mut WorldState)
    requires
        old(state).wf(),
    ensures
        final(state).wf(),
        final(state).units == old(state).units,
        final(state).location.width == old(state).location.width,
        final(state).location.height == old(state).location.height,
        final(state).location.tiles == old(state).location.tiles,
        final(state).location.passable@.len() == old(state).location.passable@.len(),
        forall|k: int| #![trigger final(state).location.passable@[k]]
            0 <= k < final(state).location.passable@.len()
                ==> final(state).location.passable@[k] == (old(state).location.passable@[k]
                && old(state).location.tiles@[k] != Tile::Wall),
{
    let ghost p0 = state.location.passable@;
    let mut out: Vec<bool> = Vec::new();
    let mut i: usize = 0;
    while i < state.location.tiles.len()
        invariant
            old(state).wf(),
            state == old(state),
            p0 == old(state).location.passable@,
            state.location.tiles@.len() == p0.len(),
            i <= state.location.tiles@.len(),
            out@.len() == i,
            forall|k: int| #![trigger out@[k]]
                0 <= k < i ==> out@[k] == (p0[k] && old(state).location.tiles@[k] != Tile::Wall),
        decreases state.location.tiles@.len() - i,
    {
        let tile_here = state.location.tiles[i];
        let is_wall = match tile_here {
            Tile::Wall => true,
            Tile::Floor => false,
        };
        let open_tile = state.location.passable[i] && !is_wall;
        out.push(open_tile);
        proof {
            assert(state.location.passable@[i as int] == p0[i as int]);
            assert(is_wall == (old(state).location.tiles@[i as int] == Tile::Wall));
            assert(out@[i as int] == (p0[i as int] && old(state).location.tiles@[i as int]
                != Tile::Wall));
        }
        i = i + 1;
    }
    state.location.passable = out;
    proof {
        assert forall|m: int|
            0 <= m < state.units@.len() implies (#[trigger] state.units@[m]).pos.x
            < state.location.width && state.units@[m].pos.y < state.location.height by {
            assert(old(state).units@[m].pos.x < old(state).location.width);
        }
    }
}

/// Step a unit one tile in a direction. Fails with `NoSuchUnit` when the
/// unit is not in the world, `OutOfBorders` when the step leaves the map,
/// and `Collision` when the destination tile is blocked.
pub fn unit_step(state: &mut WorldState, unit: Unit, dir: Direction) -> (ret: Result<
    (),
    SamosborError,
>)
    requires
        old(state).wf(),
    ensures
        final(state).wf(),
        final(state).units@.len() == old(state).units@.len(),
        final(state).location.width == old(state).location.width,
        final(state).location.height == old(state).location.height,
        final(state).location.tiles == old(state).location.tiles,
        ret matches Err(e) ==> (e == SamosborError::NoSuchUnit || e == SamosborError::OutOfBorders
            || e == SamosborError::Collision),
        (ret matches Err(e) && e == SamosborError::NoSuchUnit) <==> (forall|k: int|
            0 <= k < old(state).units@.len() ==> (#[trigger] old(state).units@[k]).unit != unit),
        ret is Err ==> final(state).units == old(state).units,
        forall|k: int|
            0 <= k < final(state).units@.len() ==> (#[trigger] final(state).units@[k]).unit == old(
                state,
            ).units@[k].unit && final(state).units@[k].renderable == old(
                state,
            ).units@[k].renderable,
        ret is Ok ==> exists|k: int|
            0 <= k < old(state).units@.len() && (#[trigger] old(state).units@[k]).unit == unit,
{
    let ghost u0 = state.units@;
    let mut found: Option<usize> = None;
    let mut i: usize = 0;
    while i < state.units.len()
        invariant
            state.units@ == u0,
            i <= u0.len(),
            match found {
                Some(j) => j < i && u0[j as int].unit == unit,
                None => forall|k: int| 0 <= k < i ==> (#[trigger] u0[k]).unit != unit,
            },
        decreases u0.len() - i,
    {
        match found {
            None => {
                if state.units[i].unit == unit {
                    found = Some(i);
                }
            },
            Some(_) => {},
        }
        i = i + 1;
    }
    let j = match found {
        None => {
            return Err(SamosborError::NoSuchUnit);
        },
        Some(j) => j,
    };
    let old_pos = state.units[j].pos;
    let dest = eval_direction(old_pos, dir);
    let dest_pos = match dest {
        None => {
            return Err(SamosborError::OutOfBorders);
        },
        Some(p) => p,
    };
    if !(dest_pos.x < state.location.width && dest_pos.y < state.location.height) {
        return Err(SamosborError::OutOfBorders);
    }
    let width = state.location.width;
    proof {
        assert(old_pos.y * width + old_pos.x < width * state.location.height)
            by (nonlinear_arith)
            requires
                (old_pos.x as int) < width as int,
                (old_pos.y as int) < state.location.height as int,
                width >= 1,
                0 <= old_pos.x,
                0 <= old_pos.y,
        ;
        assert(dest_pos.y * width + dest_pos.x < width * state.location.height)
            by (nonlinear_arith)
            requires
                (dest_pos.x as int) < width as int,
                (dest_pos.y as int) < state.location.height as int,
                width >= 1,
                0 <= dest_pos.x,
                0 <= dest_pos.y,
        ;
    }
    let moved = state.location.move_blocking_thing(old_pos, dest_pos);
    proof {
        assert forall|m: int|
            0 <= m < state.units@.len() implies (#[trigger] state.units@[m]).pos.x
            < state.location.width && state.units@[m].pos.y < state.location.height by {
            assert(state.units@[m] == old(state).units@[m]);
            assert(old(state).units@[m].pos.x < old(state).location.width);
            assert(old(state).units@[m].pos.y < old(state).location.height);
        }
    }
    match moved {
        Err(()) => Err(SamosborError::Collision),
        Ok(()) => {
            let ghost pre = state.units@;
            let ghost loc_after = state.location;
            let mut k: usize = 0;
            while k < state.units.len()
                invariant
                    state.location == loc_after,
                    loc_after.wf(),
                    loc_after.width == old(state).location.width,
                    loc_after.height == old(state).location.height,
                    loc_after.tiles == old(state).location.tiles,
                    state.units@.len() == pre.len(),
                    k <= pre.len(),
                    dest_pos.x < state.location.width,
                    dest_pos.y < state.location.height,
                    forall|m: int|
                        0 <= m < state.units@.len() ==> (#[trigger] state.units@[m]).pos.x
                            < state.location.width && state.units@[m].pos.y
                            < state.location.height,
                    forall|m: int|
                        0 <= m < pre.len() ==> (#[trigger] state.units@[m]).unit == pre[m].unit
                            && state.units@[m].renderable == pre[m].renderable,
                    forall|m: int|
                        0 <= m < pre.len() ==> (#[trigger] state.units@[m]).pos == (if pre[m].unit
                            == unit && m < k {
                            dest_pos
                        } else {
                            pre[m].pos
                        }),
                decreases pre.len() - k,
            {
                if state.units[k].unit == unit {
                    let entry = state.units[k];
                    state.units.set(
                        k,
                        UnitEntry { unit: entry.unit, pos: dest_pos, renderable: entry.renderable },
                    );
                }
                k = k + 1;
            }
            Ok(())
        },
    }
}

/// A faithful copy of the world, element by element, for the snapshot a
/// newcomer receives.
pub fn snapshot_world(state: &WorldState) -> (ret: WorldState)
    ensures
        ret.units@ == state.units@,
        ret.location.width == state.location.width,
        ret.location.height == state.location.height,
        ret.location.tiles@ == state.location.tiles@,
        ret.location.passable@ == state.location.passable@,
{
    let mut units: Vec<UnitEntry> = Vec::new();
    let mut i: usize = 0;
    while i < state.units.len()
        invariant
            i <= state.units@.len(),
            units@ == state.units@.take(i as int),
        decreases state.units@.len() - i,
    {
        units.push(state.units[i]);
        proof {
            assert(state.units@.take(i as int + 1) =~= state.units@.take(i as int).push(
                state.units@[i as int],
            ));
        }
        i = i + 1;
    }
    let mut tiles: Vec<Tile> = Vec::new();
    let mut j: usize = 0;
    while j < state.location.tiles.len()
        invariant
            j <= state.location.tiles@.len(),
            tiles@ == state.location.tiles@.take(j as int),
        decreases state.location.tiles@.len() - j,
    {
        tiles.push(state.location.tiles[j]);
        proof {
            assert(state.location.tiles@.take(j as int + 1) =~= state.location.tiles@.take(
                j as int,
            ).push(state.location.tiles@[j as int]));
        }
        j = j + 1;
    }
    let mut passable: Vec<bool> = Vec::new();
    let mut k: usize = 0;
    while k < state.location.passable.len()
        invariant
            k <= state.location.passable@.len(),
            passable@ == state.location.passable@.take(k as int),
        decreases state.location.passable@.len() - k,
    {
        passable.push(state.location.passable[k]);
        proof {
            assert(state.location.passable@.take(k as int + 1) =~= state.location.passable@.take(
                k as int,
            ).push(state.location.passable@[k as int]));
        }
        k = k + 1;
    }
    proof {
        assert(units@ =~= state.units@);
        assert(tiles@ =~= state.location.tiles@);
        assert(passable@ =~= state.location.passable@);
    }
    WorldState {
        units,
        location: Location {
            width: state.location.width,
            height: state.location.height,
            tiles,
            passable,
        },
    }
}

/// Apply an event to the world and say what to answer: the first message
/// goes to the client that caused the event, the second to everyone else.
pub fn eval_event(state: &mut WorldState, e: Event) -> (ret: (
    Option<SamosborMessage>,
    Option<SamosborMessage>,
))
    requires
        old(state).wf(),
    ensures
        final(state).wf(),
        final(state).location.width == old(state).location.width,
        final(state).location.height == old(state).location.height,
        match e {
            Event::AddUnit { unit, position } => {
                if position.x < old(state).location.width && position.y < old(
                    state,
                ).location.height {
                    &&& final(state).units@ == old(state).units@.push(
                        (UnitEntry { unit, pos: position, renderable: Renderable { glyph: '@' } }),
                    )
                    &&& ret == (
                        Some(SamosborMessage::SmsbrEvent(e)),
                        Some(SamosborMessage::SmsbrEvent(e)),
                    )
                } else {
                    &&& *final(state) == *old(state)
                    &&& ret.1 is None
                }
            },
            Event::RemoveUnit(unit) => {
                &&& final(state).units@ == without_unit(old(state).units@, unit)
                &&& final(state).location == old(state).location
                &&& ret == (
                    Some(SamosborMessage::SmsbrEvent(e)),
                    Some(SamosborMessage::SmsbrEvent(e)),
                )
            },
            Event::ClientDisconnect(unit) => {
                &&& final(state).units@ == without_unit(old(state).units@, unit)
                &&& final(state).location == old(state).location
                &&& ret.0 is None
                &&& ret.1 == Some(SamosborMessage::SmsbrEvent(Event::RemoveUnit(unit)))
            },
            Event::Step { unit, direction } => {
                &&& final(state).units@.len() == old(state).units@.len()
                &&& forall|k: int|
                    0 <= k < final(state).units@.len()
                        ==> (#[trigger] final(state).units@[k]).unit == old(
                        state,
                    ).units@[k].unit
                &&& (ret.0 matches Some(m) && m is SmsbrEvent ==> ret == (
                    Some(SamosborMessage::SmsbrEvent(e)),
                    Some(SamosborMessage::SmsbrEvent(e)),
                ))
                &&& (ret.0 matches Some(m) && m is SmsbrError ==> final(state).units == old(
                    state,
                ).units && ret.1 is None)
            },
            Event::ClientConnect(unit) => {
                ||| (exists|pos: Position|
                    final(state).units@ == old(state).units@.push(
                        (UnitEntry { unit, pos, renderable: Renderable { glyph: '@' } }),
                    )) && (ret.0 matches Some(m) ==> m matches SamosborMessage::SmsbrState(
                    u2,
                    snap,
                ) && u2 == unit && snap.units@ == final(state).units@)
                ||| (*final(state) == *old(state) && ret.0 == Some(
                    SamosborMessage::SmsbrError(SamosborError::NoEmptyTiles),
                ) && ret.1 is None)
            },
        },
{
    match e {
        Event::AddUnit { unit, position } => {
            if position.x < state.location.width && position.y < state.location.height {
                let r = add_unit(state, unit, position);
                match r {
                    Ok(()) => (
                        Some(SamosborMessage::SmsbrEvent(e)),
                        Some(SamosborMessage::SmsbrEvent(e)),
                    ),
                    Err(err) => (Some(SamosborMessage::SmsbrError(err)), None),
                }
            } else {
                (Some(SamosborMessage::SmsbrError(SamosborError::OutOfBorders)), None)
            }
        },
        Event::RemoveUnit(unit) => {
            let r = remove_unit(state, unit);
            match r {
                Ok(()) => (
                    Some(SamosborMessage::SmsbrEvent(e)),
                    Some(SamosborMessage::SmsbrEvent(e)),
                ),
                Err(err) => (Some(SamosborMessage::SmsbrError(err)), None),
            }
        },
        Event::Step { unit, direction } => {
            let r = unit_step(state, unit, direction);
            match r {
                Ok(()) => (
                    Some(SamosborMessage::SmsbrEvent(e)),
                    Some(SamosborMessage::SmsbrEvent(e)),
                ),
                Err(err) => (Some(SamosborMessage::SmsbrError(err)), None),
            }
        },
        Event::ClientConnect(unit) => {
            let mbpos = spawn_unit(state, unit);
            match mbpos {
                Ok(position) => {
                    let snapshot = snapshot_world(state);
                    let to_target = SamosborMessage::SmsbrState(unit, snapshot);
                    let to_others = SamosborMessage::SmsbrEvent(
                        Event::AddUnit { unit, position },
                    );
                    (Some(to_target), Some(to_others))
                },
                Err(err) => (Some(SamosborMessage::SmsbrError(err)), None),
            }
        },
        Event::ClientDisconnect(unit) => {
            let r = remove_unit(state, unit);
            match r {
                Ok(()) => (None, Some(SamosborMessage::SmsbrEvent(Event::RemoveUnit(unit)))),
                Err(err) => (Some(SamosborMessage::SmsbrError(err)), None),
            }
        },
    }
}

/// The base rendering of the map: number signs for walls, dots for floor.
pub open spec fn rendered_tiles(tiles: Seq<Tile>) -> Seq<char> {
    Seq::new(
        tiles.len(),
        |i: int|
            if tiles[i] == Tile::Wall {
                '#'
            } else {
                '.'
            },
    )
}

/// The map rendering with the units drawn over it, in store order.
pub open spec fn overlay_units(base: Seq<char>, units: Seq<UnitEntry>, width: int) -> Seq<char>
    decreases units.len(),
{
    if units.len() == 0 {
        base
    } else {
        let prev = overlay_units(base, units.drop_last(), width);
        let u = units.last();
        let idx = u.pos.y * width + u.pos.x;
        if 0 <= idx < prev.len() {
            prev.update(idx, u.renderable.glyph)
        } else {
            prev
        }
    }
}

/// Render the world and cut out the segment a viewer at the view point sees:
/// walls as number signs, floor as dots, units as their glyphs, one text
/// line per map row of the window.
pub fn display_world_segment(
    state: &WorldState,
    view_point: Position,
    window_radius: usize,
) -> (ret: String)
    requires
        state.wf(),
        2 * window_radius <= state.location.width,
        2 * window_radius <= state.location.height,
        view_point.x + window_radius <= usize::MAX,
        view_point.y + window_radius <= usize::MAX,
    ensures
        ({
            let width = state.location.width as int;
            let height = state.location.height as int;
            let grid = overlay_units(
                rendered_tiles(state.location.tiles@),
                state.units@,
                width,
            );
            let rs = crate::render::border_lo(height, window_radius as int, view_point.y as int);
            let re_raw = crate::render::border_hi(
                height,
                window_radius as int,
                view_point.y as int,
            );
            let re = if re_raw <= height - 1 {
                re_raw
            } else {
                height - 1
            };
            let cs = crate::render::border_lo(width, window_radius as int, view_point.x as int);
            let ce_raw = crate::render::border_hi(
                width,
                window_radius as int,
                view_point.x as int,
            );
            let ce = if ce_raw <= width - 1 {
                ce_raw
            } else {
                width - 1
            };
            ret@ == crate::render::segment_rows(grid, width, rs, cs, ce, re - rs + 1)
        }),
{
    let width = state.location.width;
    let height = state.location.height;
    let mut rendered: Vec<char> = Vec::new();
    let mut i: usize = 0;
    while i < state.location.tiles.len()
        invariant
            state.wf(),
            width == state.location.width,
            i <= state.location.tiles@.len(),
            rendered@.len() == i,
            forall|k: int|
                0 <= k < i ==> rendered@[k] == (if state.location.tiles@[k] == Tile::Wall {
                    '#'
                } else {
                    '.'
                }),
        decreases state.location.tiles@.len() - i,
    {
        let glyph = match state.location.tiles[i] {
            Tile::Wall => '#',
            Tile::Floor => '.',
        };
        rendered.push(glyph);
        i = i + 1;
    }
    proof {
        assert(rendered@ =~= rendered_tiles(state.location.tiles@));
    }
    let ghost base = rendered@;
    let mut u: usize = 0;
    while u < state.units.len()
        invariant
            state.wf(),
            width == state.location.width,
            u <= state.units@.len(),
            rendered@.len() == state.location.tiles@.len(),
            rendered@ == overlay_units(base, state.units@.take(u as int), width as int),
            base.len() == state.location.tiles@.len(),
        decreases state.units@.len() - u,
    {
        proof {
            assert(state.units@.take(u as int + 1).drop_last() =~= state.units@.take(u as int));
            assert(state.units@.take(u as int + 1).last() == state.units@[u as int]);
        }
        let entry = state.units[u];
        proof {
            assert(entry.pos.y * width + entry.pos.x < width * state.location.height)
                by (nonlinear_arith)
                requires
                    (entry.pos.x as int) < width as int,
                    (entry.pos.y as int) < state.location.height as int,
                    width >= 1,
                    0 <= entry.pos.x,
                    0 <= entry.pos.y,
            ;
        }
        let idx = pos2idx(width, entry.pos);
        rendered.set(idx, entry.renderable.glyph);
        u = u + 1;
    }
    proof {
        assert(state.units@.take(u as int) =~= state.units@);
    }
    get_segment(width, height, window_radius, view_point, rendered)
}

} // verus!
