//! The tile map: positions, directions, and the grid of walls and passable
//! tiles that units move on.

use vstd::prelude::*;

verus! {

/// Mark: this tile is occupied and nothing can step into it.
#[derive(PartialEq, Eq, Debug, Clone, Copy, Structural)]
pub struct Block();

/// A tile position on the map.
#[derive(PartialEq, Eq, Debug, Clone, Copy, Structural)]
pub struct Position {
    pub x: usize,
    pub y: usize,
}

/// A step between positions.
#[derive(PartialEq, Eq, Debug, Clone, Copy, Structural)]
pub struct PositionDelta {
    pub x: i32,
    pub y: i32,
}

/// The eight directions of the wind rose.
#[derive(PartialEq, Eq, Debug, Clone, Copy, Structural)]
pub enum Direction {
    N,
    NE,
    E,
    SE,
    S,
    SW,
    W,
    NW,
}

/// A unit on the map, carrying its global identity.
#[derive(PartialEq, Eq, Debug, Hash, Clone, Copy, Structural)]
pub struct Unit(pub u128);

/// What a tile is made of.
#[derive(PartialEq, Eq, Debug, Clone, Copy, Structural)]
pub enum Tile {
    Wall,
    Floor,
}

/// The map: its dimensions, the tiles, and which tiles can still be stepped
/// into.
#[derive(PartialEq, Eq, Debug, Clone)]
pub struct Location {
    pub width: usize,
    pub height: usize,
    pub tiles: Vec<Tile>,
    pub passable: Vec<bool>,
}

/// Whether an index lies on the border of a map of the given dimensions.
pub open spec fn on_border(width: int, height: int, idx: int) -> bool {
    idx % width == 0 || idx % width == width - 1 || idx / width == 0 || idx / width == height - 1
}

/// Index of the tile at the given coordinates in the map's single-dimension
/// tile array.
pub fn xy2idx(width: usize, x: usize, y: usize) -> (idx: usize)
    requires
        y * width + x <= usize::MAX,
    ensures
        idx == y * width + x,
{
    proof {
        assert(y * width >= 0) by (nonlinear_arith);
    }
    (y * width) + x
}

/// Index of the tile at the given position.
pub fn pos2idx(width: usize, pos: Position) -> (idx: usize)
    requires
        pos.y * width + pos.x <= usize::MAX,
    ensures
        idx == pos.y * width + pos.x,
{
    xy2idx(width, pos.x, pos.y)
}

/// Coordinates of the tile at the given index.
pub fn idx2xy(width: usize, idx: usize) -> (xy: (usize, usize))
    requires
        width >= 1,
    ensures
        xy.0 == idx as int % width as int,
        xy.1 == idx as int / width as int,
{
    (idx % width, idx / width)
}

/// Position of the tile at the given index.
pub fn idx2pos(width: usize, idx: usize) -> (pos: Position)
    requires
        width >= 1,
    ensures
        pos.x == idx as int % width as int,
        pos.y == idx as int / width as int,
{
    let (x, y) = idx2xy(width, idx);
    Position { x, y }
}

/// The unit step of a direction.
pub open spec fn spec_dir2delta(dir: Direction) -> PositionDelta {
    match dir {
        Direction::N => PositionDelta { x: 0i32, y: -1i32 },
        Direction::NE => PositionDelta { x: 1i32, y: -1i32 },
        Direction::E => PositionDelta { x: 1i32, y: 0i32 },
        Direction::SE => PositionDelta { x: 1i32, y: 1i32 },
        Direction::S => PositionDelta { x: 0i32, y: 1i32 },
        Direction::SW => PositionDelta { x: -1i32, y: 1i32 },
        Direction::W => PositionDelta { x: -1i32, y: 0i32 },
        Direction::NW => PositionDelta { x: -1i32, y: -1i32 },
    }
}

/// The unit step of a direction.
pub fn dir2delta(dir: Direction) -> (ret: PositionDelta)
    ensures
        ret == spec_dir2delta(dir),
{
    match dir {
        Direction::N => PositionDelta { x: 0, y: -1 },
        Direction::NE => PositionDelta { x: 1, y: -1 },
        Direction::E => PositionDelta { x: 1, y: 0 },
        Direction::SE => PositionDelta { x: 1, y: 1 },
        Direction::S => PositionDelta { x: 0, y: 1 },
        Direction::SW => PositionDelta { x: -1, y: 1 },
        Direction::W => PositionDelta { x: -1, y: 0 },
        Direction::NW => PositionDelta { x: -1, y: -1 },
    }
}

/// The direction whose unit step is the given delta, if there is one.
pub fn delta2dir(delta: PositionDelta) -> (ret: Option<Direction>)
    ensures
        match ret {
            Some(d) => spec_dir2delta(d) == delta,
            None => forall|d: Direction| spec_dir2delta(d) != delta,
        },
{
    if delta.x == 0 && delta.y == -1 {
        Some(Direction::N)
    } else if delta.x == 1 && delta.y == -1 {
        Some(Direction::NE)
    } else if delta.x == 1 && delta.y == 0 {
        Some(Direction::E)
    } else if delta.x == 1 && delta.y == 1 {
        Some(Direction::SE)
    } else if delta.x == 0 && delta.y == 1 {
        Some(Direction::S)
    } else if delta.x == -1 && delta.y == 1 {
        Some(Direction::SW)
    } else if delta.x == -1 && delta.y == 0 {
        Some(Direction::W)
    } else if delta.x == -1 && delta.y == -1 {
        Some(Direction::NW)
    } else {
        None
    }
}

/// The position one delta away, or `None` when the step would leave the
/// map's nonnegative quadrant.
pub fn apply_delta(pos: Position, delta: PositionDelta) -> (ret: Option<Position>)
    requires
        pos.x + delta.x <= usize::MAX,
        pos.y + delta.y <= usize::MAX,
    ensures
        match ret {
            Some(p) => pos.x + delta.x >= 0 && pos.y + delta.y >= 0 && p.x == pos.x + delta.x
                && p.y == pos.y + delta.y,
            None => pos.x + delta.x < 0 || pos.y + delta.y < 0,
        },
{
    let step_x = (-(delta.x as i64)) as usize;
    let step_y = (-(delta.y as i64)) as usize;
    if delta.x < 0 && pos.x < step_x {
        None
    } else if delta.y < 0 && pos.y < step_y {
        None
    } else {
        let x = if delta.x >= 0 {
            pos.x + (delta.x as usize)
        } else {
            pos.x - step_x
        };
        let y = if delta.y >= 0 {
            pos.y + (delta.y as usize)
        } else {
            pos.y - step_y
        };
        Some(Position { x, y })
    }
}

/// The direction from one position to a neighboring one, if they are
/// neighbors.
pub fn coords2dir(from: Position, to: Position) -> (ret: Option<Direction>)
    requires
        from.x <= i32::MAX,
        from.y <= i32::MAX,
        to.x <= i32::MAX,
        to.y <= i32::MAX,
    ensures
        match ret {
            Some(d) => spec_dir2delta(d) == (PositionDelta {
                x: (to.x - from.x) as i32,
                y: (to.y - from.y) as i32,
            }),
            None => forall|d: Direction|
                spec_dir2delta(d) != (PositionDelta {
                    x: (to.x - from.x) as i32,
                    y: (to.y - from.y) as i32,
                }),
        },
{
    proof {
        assert(to.x - from.x <= i32::MAX && to.x - from.x >= i32::MIN);
        assert(to.y - from.y <= i32::MAX && to.y - from.y >= i32::MIN);
    }
    let dx = to.x as i64 - from.x as i64;
    let dy = to.y as i64 - from.y as i64;
    delta2dir(PositionDelta { x: dx as i32, y: dy as i32 })
}

/// The direction from one tile index to a neighboring one, if they are
/// neighbors.
pub fn idxs2dir(width: usize, from: usize, to: usize) -> (ret: Option<Direction>)
    requires
        width >= 1,
        from / width <= i32::MAX,
        to / width <= i32::MAX,
        width <= i32::MAX,
    ensures
        ({
            let delta = PositionDelta {
                x: ((to as int % width as int) - (from as int % width as int)) as i32,
                y: ((to as int / width as int) - (from as int / width as int)) as i32,
            };
            match ret {
                Some(d) => spec_dir2delta(d) == delta,
                None => forall|d: Direction| spec_dir2delta(d) != delta,
            }
        }),
{
    proof {
        vstd::arithmetic::div_mod::lemma_mod_bound(from as int, width as int);
        vstd::arithmetic::div_mod::lemma_mod_bound(to as int, width as int);
        vstd::arithmetic::div_mod::lemma_div_pos_is_pos(from as int, width as int);
        vstd::arithmetic::div_mod::lemma_div_pos_is_pos(to as int, width as int);
    }
    let from_pos = idx2pos(width, from);
    let to_pos = idx2pos(width, to);
    coords2dir(from_pos, to_pos)
}

/// The neighboring position in the given direction, or `None` off the map's
/// nonnegative quadrant.
pub fn eval_direction(pos: Position, dir: Direction) -> (ret: Option<Position>)
    requires
        pos.x + 1 <= usize::MAX,
        pos.y + 1 <= usize::MAX,
    ensures
        match ret {
            Some(p) => p.x == pos.x + spec_dir2delta(dir).x && p.y == pos.y + spec_dir2delta(
                dir,
            ).y,
            None => pos.x + spec_dir2delta(dir).x < 0 || pos.y + spec_dir2delta(dir).y < 0,
        },
{
    apply_delta(pos, dir2delta(dir))
}

/// All positions of the rectangle between the two corners, inclusive, in
/// row-major order.
pub fn rectangle_tiles(left_top: Position, right_bottom: Position) -> (ret: Vec<Position>)
    requires
        left_top.x <= right_bottom.x,
        left_top.y <= right_bottom.y,
        (right_bottom.y - left_top.y + 1) * (right_bottom.x - left_top.x + 1) <= usize::MAX,
        right_bottom.x < usize::MAX,
        right_bottom.y < usize::MAX,
    ensures
        ret@.len() == (right_bottom.y - left_top.y + 1) * (right_bottom.x - left_top.x + 1),
        forall|k: int|
            0 <= k < ret@.len() ==> {
                let w = right_bottom.x - left_top.x + 1;
                (#[trigger] ret@[k]).x == left_top.x + k % w && ret@[k].y == left_top.y + k / w
            },
{
    let ghost w = right_bottom.x - left_top.x + 1;
    let mut ret: Vec<Position> = Vec::new();
    let mut y = left_top.y;
    while y <= right_bottom.y
        invariant
            left_top.y <= y <= right_bottom.y + 1,
            left_top.x <= right_bottom.x,
            right_bottom.x < usize::MAX,
            right_bottom.y < usize::MAX,
            w == right_bottom.x - left_top.x + 1,
            (right_bottom.y - left_top.y + 1) * w <= usize::MAX,
            ret@.len() == (y - left_top.y) * w,
            forall|k: int|
                0 <= k < ret@.len() ==> (#[trigger] ret@[k]).x == left_top.x + k % w && ret@[k].y
                    == left_top.y + k / w,
        decreases right_bottom.y + 1 - y,
    {
        let mut x = left_top.x;
        proof {
            assert((y - left_top.y) * w + w == (y + 1 - left_top.y) * w) by (nonlinear_arith);
            assert((y + 1 - left_top.y) * w <= (right_bottom.y - left_top.y + 1) * w)
                by (nonlinear_arith)
                requires y <= right_bottom.y && w >= 1;
            assert((y - left_top.y) * w >= 0) by (nonlinear_arith)
                requires y >= left_top.y && w >= 1;
        }
        while x <= right_bottom.x
            invariant
                left_top.x <= x <= right_bottom.x + 1,
                left_top.y <= y <= right_bottom.y,
                right_bottom.x < usize::MAX,
                w == right_bottom.x - left_top.x + 1,
                ret@.len() == (y - left_top.y) * w + (x - left_top.x),
                (y - left_top.y) * w + w <= usize::MAX,
                (y - left_top.y) * w >= 0,
                forall|k: int|
                    0 <= k < ret@.len() ==> (#[trigger] ret@[k]).x == left_top.x + k % w
                        && ret@[k].y == left_top.y + k / w,
            decreases right_bottom.x + 1 - x,
        {
            proof {
                let k = (y - left_top.y) * w + (x - left_top.x);
                vstd::arithmetic::div_mod::lemma_fundamental_div_mod_converse(
                    k,
                    w,
                    y - left_top.y,
                    x - left_top.x,
                );
            }
            ret.push(Position { x, y });
            x = x + 1;
        }
        y = y + 1;
    }
    ret
}

/// The tiles and passability of a freshly generated map: floor everywhere
/// but for walls along all four borders.
pub fn gen_map(width: usize, height: usize) -> (ret: (Vec<Tile>, Vec<bool>))
    requires
        width >= 1,
        height >= 1,
        width * height <= usize::MAX,
    ensures
        ret.0@.len() == width * height,
        ret.1@.len() == width * height,
        forall|idx: int|
            0 <= idx < ret.0@.len() ==> ret.0@[idx] == (if on_border(
                width as int,
                height as int,
                idx,
            ) {
                Tile::Wall
            } else {
                Tile::Floor
            }),
        forall|idx: int|
            0 <= idx < ret.1@.len() ==> ret.1@[idx] == !on_border(
                width as int,
                height as int,
                idx,
            ),
{
    let mut tiles: Vec<Tile> = Vec::new();
    let mut passable: Vec<bool> = Vec::new();
    let total = width * height;
    let mut idx: usize = 0;
    while idx < total
        invariant
            idx <= total,
            total == width * height,
            width >= 1,
            height >= 1,
            tiles@.len() == idx,
            passable@.len() == idx,
            forall|k: int|
                0 <= k < idx ==> tiles@[k] == (if on_border(width as int, height as int, k) {
                    Tile::Wall
                } else {
                    Tile::Floor
                }),
            forall|k: int|
                0 <= k < idx ==> passable@[k] == !on_border(width as int, height as int, k),
        decreases total - idx,
    {
        let x = idx % width;
        let y = idx / width;
        proof {
            vstd::arithmetic::div_mod::lemma_fundamental_div_mod(idx as int, width as int);
            vstd::arithmetic::div_mod::lemma_mod_bound(idx as int, width as int);
            vstd::arithmetic::div_mod::lemma_div_pos_is_pos(idx as int, width as int);
            assert(idx as int / width as int <= height - 1) by (nonlinear_arith)
                requires
                    idx as int == width as int * (idx as int / width as int) + idx as int
                        % width as int,
                    (idx as int) < width as int * height as int,
                    width >= 1,
                    0 <= idx as int % width as int,
                    (idx as int % width as int) < width as int,
                    idx as int / width as int >= 0,
            ;
        }
        let wall = x == 0 || x == width - 1 || y == 0 || y == height - 1;
        tiles.push(
            if wall {
                Tile::Wall
            } else {
                Tile::Floor
            },
        );
        passable.push(!wall);
        idx = idx + 1;
    }
    (tiles, passable)
}

impl Location {
    /// The map is consistent: both grids cover exactly width times height
    /// tiles.
    pub open spec fn wf(self) -> bool {
        &&& self.width >= 1
        &&& self.height >= 1
        &&& self.width * self.height <= usize::MAX
        &&& self.tiles@.len() == self.width * self.height
        &&& self.passable@.len() == self.width * self.height
    }

    /// A fresh map of the given dimensions, walls along the borders.
    pub fn new(width: usize, height: usize) -> (ret: Location)
        requires
            width >= 1,
            height >= 1,
            width * height <= usize::MAX,
        ensures
            ret.wf(),
            ret.width == width,
            ret.height == height,
            forall|idx: int|
                0 <= idx < ret.passable@.len() ==> ret.passable@[idx] == !on_border(
                    width as int,
                    height as int,
                    idx,
                ),
            forall|idx: int|
                0 <= idx < ret.tiles@.len() ==> ret.tiles@[idx] == (if on_border(
                    width as int,
                    height as int,
                    idx,
                ) {
                    Tile::Wall
                } else {
                    Tile::Floor
                }),
    {
        let (tiles, passable) = gen_map(width, height);
        Location { width, height, tiles, passable }
    }

    /// Occupy the first passable tile and return its position, or `None`
    /// when the whole map is blocked.
    pub fn try_to_spawn_blocking(&mut self) -> (ret: Option<Position>)
        requires
            old(self).wf(),
        ensures
            final(self).wf(),
            final(self).width == old(self).width,
            final(self).height == old(self).height,
            final(self).tiles == old(self).tiles,
            match ret {
                Some(pos) => {
                    let idx = pos.y * old(self).width + pos.x;
                    &&& pos.x < old(self).width
                    &&& pos.y < old(self).height
                    &&& 0 <= idx < old(self).passable@.len()
                    &&& old(self).passable@[idx as int]
                    &&& final(self).passable@ == old(self).passable@.update(idx as int, false)
                    &&& forall|k: int| 0 <= k < idx ==> !old(self).passable@[k]
                },
                None => {
                    &&& final(self).passable == old(self).passable
                    &&& forall|k: int|
                        0 <= k < old(self).passable@.len() ==> !old(self).passable@[k]
                },
            },
    {
        let width = self.width;
        let mut i: usize = 0;
        while i < self.passable.len()
            invariant
                self == old(self),
                width == self.width,
                self.wf(),
                i <= self.passable@.len(),
                forall|k: int| 0 <= k < i ==> !self.passable@[k],
            decreases self.passable@.len() - i,
        {
            if self.passable[i] {
                self.passable.set(i, false);
                proof {
                    vstd::arithmetic::div_mod::lemma_fundamental_div_mod(
                        i as int,
                        width as int,
                    );
                    vstd::arithmetic::div_mod::lemma_mod_bound(i as int, width as int);
                    vstd::arithmetic::div_mod::lemma_div_pos_is_pos(i as int, width as int);
                }
                let pos = idx2pos(width, i);
                proof {
                    vstd::arithmetic::mul::lemma_mul_is_commutative(
                        width as int,
                        i as int / width as int,
                    );
                    assert((i as int / width as int) < self.height as int) by (nonlinear_arith)
                        requires
                            i as int == width as int * (i as int / width as int) + i as int
                                % width as int,
                            (i as int) < width as int * self.height as int,
                            width >= 1,
                            0 <= i as int % width as int,
                            (i as int % width as int) < width as int,
                            i as int / width as int >= 0,
                    ;
                }
                return Some(pos);
            }
            i = i + 1;
        }
        None
    }

    /// Mark the tile at the position as blocked.
    pub fn block_tile_by_position(&mut self, pos: Position)
        requires
            old(self).wf(),
            pos.y * old(self).width + pos.x < old(self).passable@.len(),
        ensures
            final(self).wf(),
            final(self).width == old(self).width,
            final(self).height == old(self).height,
            final(self).tiles == old(self).tiles,
            final(self).passable@ == old(self).passable@.update(
                pos.y * old(self).width + pos.x,
                false,
            ),
    {
        let idx = pos2idx(self.width, pos);
        self.passable.set(idx, false);
    }

    /// Move a blocking thing from one tile to another: the move happens only
    /// when the destination is still passable, else it reports a collision.
    pub fn move_blocking_thing(&mut self, old_pos: Position, new_pos: Position) -> (ret: Result<
        (),
        (),
    >)
        requires
            old(self).wf(),
            old_pos.y * old(self).width + old_pos.x < old(self).passable@.len(),
            new_pos.y * old(self).width + new_pos.x < old(self).passable@.len(),
        ensures
            final(self).wf(),
            final(self).width == old(self).width,
            final(self).height == old(self).height,
            final(self).tiles == old(self).tiles,
            ret is Ok <==> old(self).passable@[new_pos.y * old(self).width + new_pos.x],
            ret is Ok ==> final(self).passable@ == old(self).passable@.update(
                new_pos.y * old(self).width + new_pos.x,
                false,
            ).update(old_pos.y * old(self).width + old_pos.x, true),
            ret is Err ==> final(self).passable == old(self).passable,
    {
        let width = self.width;
        let old_idx = pos2idx(width, old_pos);
        let new_idx = pos2idx(width, new_pos);
        if self.passable[new_idx] {
            self.passable.set(new_idx, false);
            self.passable.set(old_idx, true);
            Ok(())
        } else {
            Err(())
        }
    }

    /// Mark the tile at the position as passable again.
    pub fn unblock_tile(&mut self, pos: Position)
        requires
            old(self).wf(),
            pos.y * old(self).width + pos.x < old(self).passable@.len(),
        ensures
            final(self).wf(),
            final(self).width == old(self).width,
            final(self).height == old(self).height,
            final(self).tiles == old(self).tiles,
            final(self).passable@ == old(self).passable@.update(
                pos.y * old(self).width + pos.x,
                true,
            ),
    {
        let width = self.width;
        let idx = pos2idx(width, pos);
        self.passable.set(idx, true);
    }
}

} // verus!
