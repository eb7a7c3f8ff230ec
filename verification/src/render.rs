//! Rendering the visible segment of the map as text.

use vstd::prelude::*;
use std::ops::RangeInclusive;
use crate::location::Position;

verus! {

/// The glyph an entity is drawn with.
#[derive(PartialEq, Eq, Debug, Clone, Copy, Structural)]
pub struct Renderable {
    pub glyph: char,
}

/// First coordinate of the window of `2 * radius + 1` tiles centered on
/// `coord`, shifted back inside an axis of `axis` tiles when the window
/// sticks out past its end.
pub open spec fn border_lo(axis: int, radius: int, coord: int) -> int {
    if coord + radius > axis {
        axis - 2 * radius
    } else if coord >= radius {
        coord - radius
    } else {
        0
    }
}

/// Last coordinate of the window (the axis length itself counts as a valid
/// inclusive end here; a caller clamps to existing tiles).
pub open spec fn border_hi(axis: int, radius: int, coord: int) -> int {
    if coord < radius {
        2 * radius
    } else if coord + radius <= axis {
        coord + radius
    } else {
        axis
    }
}

/// The inclusive window of the view on one axis: `2 * radius + 1` tiles
/// around `coord`, shifted to start at zero or end at the axis bound when
/// the viewer stands near a border.
pub fn make_border_interval(axis_size: usize, segment_radius: usize, coord: usize) -> (ret:
    RangeInclusive<usize>)
    requires
        2 * segment_radius <= axis_size,
        coord + segment_radius <= usize::MAX,
    ensures
        ret@.start == border_lo(axis_size as int, segment_radius as int, coord as int),
        ret@.end == border_hi(axis_size as int, segment_radius as int, coord as int),
        !ret@.exhausted,
{
    let (start, end) = border_bounds(axis_size, segment_radius, coord);
    start..=end
}

/// The window of `make_border_interval` as a plain pair of bounds.
pub fn border_bounds(axis_size: usize, segment_radius: usize, coord: usize) -> (ret: (
    usize,
    usize,
))
    requires
        2 * segment_radius <= axis_size,
        coord + segment_radius <= usize::MAX,
    ensures
        ret.0 as int == border_lo(axis_size as int, segment_radius as int, coord as int),
        ret.1 as int == border_hi(axis_size as int, segment_radius as int, coord as int),
        ret.0 <= ret.1,
{
    let start = if coord + segment_radius > axis_size {
        coord - segment_radius - (coord + segment_radius - axis_size)
    } else {
        if coord >= segment_radius {
            coord - segment_radius
        } else {
            0
        }
    };
    let end = if coord < segment_radius {
        coord + segment_radius + (segment_radius - coord)
    } else {
        if coord + segment_radius <= axis_size {
            coord + segment_radius
        } else {
            axis_size
        }
    };
    (start, end)
}

/// One rendered row of the visible segment: the window's columns of that
/// row, closed by a line break.
pub open spec fn segment_row(world: Seq<char>, width: int, row: int, cs: int, ce: int) -> Seq<
    char,
> {
    Seq::new((ce - cs + 1) as nat, |j: int| world[row * width + cs + j]).push('\n')
}

/// The first `n` rendered rows of the visible segment, starting at row `rs`.
pub open spec fn segment_rows(
    world: Seq<char>,
    width: int,
    rs: int,
    cs: int,
    ce: int,
    n: int,
) -> Seq<char>
    decreases n,
{
    if n <= 0 {
        Seq::empty()
    } else {
        segment_rows(world, width, rs, cs, ce, n - 1) + segment_row(
            world,
            width,
            rs + n - 1,
            cs,
            ce,
        )
    }
}

/// Relies on `String::from_iter` over characters (through `collect`): the
/// resulting string holds exactly the characters of the vector, in order.
#[verifier::external_body]
fn chars_to_string(chars: &Vec<char>) -> (ret: String)
    ensures
        ret@ == chars@,
{
    chars.iter().collect()
}

/// The segment of the map a viewer at `view_point` sees: the window of
/// `segment_radius` tiles around the view point on both axes, clamped to the
/// map, one text line per map row.
pub fn get_segment(
    world_width: usize,
    world_height: usize,
    segment_radius: usize,
    view_point: Position,
    world: Vec<char>,
) -> (ret: String)
    requires
        world_width >= 1,
        world_height >= 1,
        2 * segment_radius <= world_width,
        2 * segment_radius <= world_height,
        view_point.x + segment_radius <= usize::MAX,
        view_point.y + segment_radius <= usize::MAX,
        world_width * world_height <= usize::MAX,
        world@.len() == world_width * world_height,
    ensures
        ({
            let rs = border_lo(world_height as int, segment_radius as int, view_point.y as int);
            let re_raw = border_hi(world_height as int, segment_radius as int, view_point.y as int);
            let re = if re_raw <= world_height - 1 {
                re_raw
            } else {
                world_height - 1
            };
            let cs = border_lo(world_width as int, segment_radius as int, view_point.x as int);
            let ce_raw = border_hi(world_width as int, segment_radius as int, view_point.x as int);
            let ce = if ce_raw <= world_width - 1 {
                ce_raw
            } else {
                world_width - 1
            };
            ret@ == segment_rows(world@, world_width as int, rs, cs, ce, re - rs + 1)
        }),
{
    let (rs, re_raw) = border_bounds(world_height, segment_radius, view_point.y);
    let (cs, ce_raw) = border_bounds(world_width, segment_radius, view_point.x);
    let re = if re_raw <= world_height - 1 {
        re_raw
    } else {
        world_height - 1
    };
    let ce = if ce_raw <= world_width - 1 {
        ce_raw
    } else {
        world_width - 1
    };
    let mut out: Vec<char> = Vec::new();
    let mut row = rs;
    while row <= re
        invariant
            rs <= row <= re + 1,
            re <= world_height - 1,
            cs <= ce + 1,
            ce <= world_width - 1,
            world_width >= 1,
            world_width * world_height <= usize::MAX,
            world@.len() == world_width * world_height,
            out@ == segment_rows(world@, world_width as int, rs as int, cs as int, ce as int, row - rs),
        decreases re + 1 - row,
    {
        let mut col = cs;
        while col <= ce
            invariant
                cs <= col <= ce + 1,
                rs <= row <= re,
                re <= world_height - 1,
                ce <= world_width - 1,
                world_width >= 1,
                world_width * world_height <= usize::MAX,
                world@.len() == world_width * world_height,
                out@ == segment_rows(
                    world@,
                    world_width as int,
                    rs as int,
                    cs as int,
                    ce as int,
                    row - rs,
                ) + Seq::new((col - cs) as nat, |j: int| world@[row * world_width + cs + j]),
            decreases ce + 1 - col,
        {
            proof {
                assert(row * world_width + col < world_width * world_height) by (nonlinear_arith)
                    requires
                        0 <= row,
                        (row as int) < world_height as int,
                        0 <= col,
                        (col as int) < world_width as int,
                        world_width >= 1,
                ;
                assert(row * world_width + cs >= 0) by (nonlinear_arith)
                    requires 0 <= row && 0 <= cs && world_width >= 1;
            }
            let idx = row * world_width + col;
            out.push(world[idx]);
            proof {
                assert(out@.drop_last() + seq![out@.last()] =~= out@);
                assert(Seq::new((col + 1 - cs) as nat, |j: int| world@[row * world_width + cs + j])
                    =~= Seq::new((col - cs) as nat, |j: int| world@[row * world_width + cs + j]).push(
                    world@[row * world_width + col],
                ));
            }
            col = col + 1;
        }
        out.push('\n');
        proof {
            let wi = world_width as int;
            assert(segment_rows(world@, wi, rs as int, cs as int, ce as int, row + 1 - rs)
                == segment_rows(world@, wi, rs as int, cs as int, ce as int, row - rs)
                + segment_row(world@, wi, row as int, cs as int, ce as int));
            assert(out@ =~= segment_rows(world@, wi, rs as int, cs as int, ce as int, row - rs)
                + segment_row(world@, wi, row as int, cs as int, ce as int));
        }
        row = row + 1;
    }
    chars_to_string(&out)
}

} // verus!
