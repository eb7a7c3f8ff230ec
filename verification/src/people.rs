//! Colonists: profession, skill tier, and subsistence state.

use vstd::prelude::*;
use crate::area::AreaOccupied;
use crate::area::BelongsToRoom;
use crate::area::Room;
use crate::common::Tier;
use crate::common::d;
use crate::state::Colony;
use crate::state::MAX_COMRADS;
use crate::state::MAX_ROOM_OCCUPIED;

verus! {

/// Area units a colonist takes in the room they live in.
pub const COMRAD_RENTED_PLACE: usize = 10;

/// Which liquidator department a fighter belongs to.
#[derive(Clone, Copy, Debug, PartialEq, Eq, Structural)]
pub enum MilitaryDep {
    NoDep,
    OLPS,
    OBCU,
    OGB,
}

/// Which research institute a scientist gravitates to.
#[derive(Clone, Copy, Debug, PartialEq, Eq, Structural)]
pub enum SciSpec {
    NoSpec,
    Samosbor,
    Nervonet,
    Culture,
    Space,
    Industry,
    Weapon,
    Bio,
}

/// Satiety of a colonist. Nominal decay is ten units per turn; below one
/// hundred the colonist goes hungry, below ten they die.
#[derive(Clone, Copy, Debug, PartialEq, Eq, Structural)]
pub struct Satiety(pub u16);

/// Mood of a colonist, nominally between zero (miserable) and ten (happy).
#[derive(Clone, Copy, Debug, PartialEq, Eq, Structural)]
pub struct Mood(pub u8);

/// Worker roles. Immutable once assigned to a colonist.
#[derive(Clone, Copy, Debug, PartialEq, Eq, Hash, Structural)]
pub enum Profession {
    NoProf,
    Stalker,
    Likvidator,
    Scientist,
    Worker,
    Party,
}

/// One colonist of the block.
#[derive(Clone, Copy, Debug, PartialEq, Eq, Structural)]
pub struct Colonist {
    pub prof: Profession,
    pub tier: Tier,
    pub mdep: MilitaryDep,
    pub sci_spec: SciSpec,
    pub room: BelongsToRoom,
    pub satiety: Satiety,
    pub mood: Mood,
}

impl Colonist {
    /// Colonists are labor: their tier is a real one, and they live in an
    /// existing room.
    pub open spec fn wf(self, n_rooms: int) -> bool {
        self.tier.is_labor_tier() && (self.room.0 as int) < n_rooms
    }
}

/// Which research institute a freshly drafted scientist gets, one of the
/// seven real institutes with equal chance.
pub fn random_sci_spec() -> (ret: SciSpec)
    ensures
        ret != SciSpec::NoSpec,
{
    let face = d(1, 7);
    sci_spec_of_roll(face)
}

/// The institute behind one face of a seven-sided die.
pub fn sci_spec_of_roll(face: usize) -> (ret: SciSpec)
    ensures
        ret == spec_sci_spec_of_roll(face as int),
        ret != SciSpec::NoSpec,
{
    match face {
        0 => SciSpec::Samosbor,
        1 => SciSpec::Nervonet,
        2 => SciSpec::Culture,
        3 => SciSpec::Space,
        4 => SciSpec::Industry,
        5 => SciSpec::Weapon,
        _ => SciSpec::Bio,
    }
}

/// Spec-level table of `sci_spec_of_roll`.
pub open spec fn spec_sci_spec_of_roll(face: int) -> SciSpec {
    if face == 0 {
        SciSpec::Samosbor
    } else if face == 1 {
        SciSpec::Nervonet
    } else if face == 2 {
        SciSpec::Culture
    } else if face == 3 {
        SciSpec::Space
    } else if face == 4 {
        SciSpec::Industry
    } else if face == 5 {
        SciSpec::Weapon
    } else {
        SciSpec::Bio
    }
}

/// Register a colonist in a room. The newcomer starts with satiety one
/// hundred and a neutral mood, and takes their rented place from the room's
/// free area. Returns the colonist's index.
pub fn spawn_comrad(
    colony: &mut Colony,
    prof: Profession,
    tier: Tier,
    mdep: MilitaryDep,
    nii: SciSpec,
    room: usize,
) -> (id: usize)
    requires
        room < old(colony).rooms@.len(),
        tier.is_labor_tier(),
        old(colony).colonists@.len() < MAX_COMRADS,
        old(colony).rooms@[room as int].occupied.0 + COMRAD_RENTED_PLACE <= MAX_ROOM_OCCUPIED,
    ensures
        id == old(colony).colonists@.len(),
        final(colony).colonists@ == old(colony).colonists@.push(
            Colonist {
                prof,
                tier,
                mdep,
                sci_spec: nii,
                room: BelongsToRoom(room),
                satiety: Satiety(100),
                mood: Mood(5),
            },
        ),
        final(colony).rooms@ == old(colony).rooms@.update(
            room as int,
            (Room {
                purpose: old(colony).rooms@[room as int].purpose,
                tier: old(colony).rooms@[room as int].tier,
                capacity: old(colony).rooms@[room as int].capacity,
                occupied: AreaOccupied(
                    (old(colony).rooms@[room as int].occupied.0 + COMRAD_RENTED_PLACE) as usize,
                ),
            }),
        ),
        final(colony).stationaries == old(colony).stationaries,
        final(colony).tasks == old(colony).tasks,
        final(colony).shelves == old(colony).shelves,
        final(colony).barrels == old(colony).barrels,
        final(colony).floor_boxes == old(colony).floor_boxes,
{
    let id = colony.colonists.len();
    colony.colonists.push(
        Colonist {
            prof,
            tier,
            mdep,
            sci_spec: nii,
            room: BelongsToRoom(room),
            satiety: Satiety(100),
            mood: Mood(5),
        },
    );
    let here = colony.rooms[room];
    let updated = Room {
        purpose: here.purpose,
        tier: here.tier,
        capacity: here.capacity,
        occupied: AreaOccupied(here.occupied.0 + COMRAD_RENTED_PLACE),
    };
    colony.rooms.set(room, updated);
    id
}

/// Register the standard liquidator squad in a room: one tier-two sergeant
/// and thirteen tier-one fighters, fourteen colonists in all.
pub fn spawn_1_g(colony: &mut Colony, room: usize)
    requires
        old(colony).wf(),
        room < old(colony).rooms@.len(),
        old(colony).colonists@.len() + 14 <= MAX_COMRADS,
        old(colony).rooms@[room as int].occupied.0 + 14 * COMRAD_RENTED_PLACE
            <= crate::state::MAX_ROOM_OCCUPIED,
    ensures
        final(colony).wf(),
        final(colony).colonists@.len() == old(colony).colonists@.len() + 14,
        forall|j: int|
            old(colony).colonists@.len() <= j < final(colony).colonists@.len() ==> {
                &&& (#[trigger] final(colony).colonists@[j]).prof == Profession::Likvidator
                &&& final(colony).colonists@[j].mdep == MilitaryDep::OLPS
                &&& final(colony).colonists@[j].room == BelongsToRoom(room)
                &&& final(colony).colonists@[j].tier == (if j == old(colony).colonists@.len() {
                    Tier::T2
                } else {
                    Tier::T1
                })
            },
        forall|j: int|
            0 <= j < old(colony).colonists@.len() ==> final(colony).colonists@[j] == old(
                colony,
            ).colonists@[j],
        final(colony).stationaries == old(colony).stationaries,
        final(colony).tasks == old(colony).tasks,
        final(colony).shelves == old(colony).shelves,
        final(colony).barrels == old(colony).barrels,
        final(colony).floor_boxes == old(colony).floor_boxes,
        final(colony).rooms@.len() == old(colony).rooms@.len(),
        forall|j: int|
            0 <= j < final(colony).rooms@.len() && j != room ==> final(colony).rooms@[j] == old(
                colony,
            ).rooms@[j],
        final(colony).rooms@[room as int].purpose == old(colony).rooms@[room as int].purpose,
        final(colony).rooms@[room as int].tier == old(colony).rooms@[room as int].tier,
        final(colony).rooms@[room as int].capacity == old(colony).rooms@[room as int].capacity,
        final(colony).rooms@[room as int].occupied.0 == old(colony).rooms@[room as int].occupied.0
            + 14 * COMRAD_RENTED_PLACE,
{
    spawn_comrad(colony, Profession::Likvidator, Tier::T2, MilitaryDep::OLPS, SciSpec::NoSpec, room);
    let mut i: usize = 0;
    while i < 13
        invariant
            i <= 13,
            colony.rooms@.len() == old(colony).rooms@.len(),
            room < colony.rooms@.len(),
            colony.colonists@.len() == old(colony).colonists@.len() + 1 + i,
            old(colony).colonists@.len() + 14 <= MAX_COMRADS,
            colony.colonists@.len() <= MAX_COMRADS,
            colony.rooms@[room as int].occupied.0 == old(colony).rooms@[room as int].occupied.0 + (
            1 + i) * COMRAD_RENTED_PLACE,
            old(colony).rooms@[room as int].occupied.0 + 14 * COMRAD_RENTED_PLACE
                <= crate::state::MAX_ROOM_OCCUPIED,
            forall|j: int|
                0 <= j < old(colony).colonists@.len() ==> colony.colonists@[j] == old(
                    colony,
                ).colonists@[j],
            forall|j: int|
                old(colony).colonists@.len() <= j < colony.colonists@.len() ==> {
                    &&& (#[trigger] colony.colonists@[j]).prof == Profession::Likvidator
                    &&& colony.colonists@[j].mdep == MilitaryDep::OLPS
                    &&& colony.colonists@[j].room == BelongsToRoom(room)
                    &&& colony.colonists@[j].tier == (if j == old(colony).colonists@.len() {
                        Tier::T2
                    } else {
                        Tier::T1
                    })
                },
            colony.stationaries == old(colony).stationaries,
            colony.tasks == old(colony).tasks,
            colony.shelves == old(colony).shelves,
            colony.barrels == old(colony).barrels,
            colony.floor_boxes == old(colony).floor_boxes,
            forall|j: int|
                0 <= j < colony.rooms@.len() && j != room ==> colony.rooms@[j] == old(
                    colony,
                ).rooms@[j],
            colony.rooms@[room as int].purpose == old(colony).rooms@[room as int].purpose,
            colony.rooms@[room as int].tier == old(colony).rooms@[room as int].tier,
            colony.rooms@[room as int].capacity == old(colony).rooms@[room as int].capacity,
            colony.wf(),
        decreases 13 - i,
    {
        spawn_comrad(
            colony,
            Profession::Likvidator,
            Tier::T1,
            MilitaryDep::OLPS,
            SciSpec::NoSpec,
            room,
        );
        i = i + 1;
    }
}

/// Headcount of the block by profession, in the catalog's order.
pub fn people_by_profession(colony: &Colony) -> (ret: Vec<(Profession, usize)>)
    requires
        colony.wf(),
    ensures
        ret@.len() == 6,
        forall|k: int|
            0 <= k < 6 ==> #[trigger] ret@[k] == (
            profession_of_index(k),
            count_profession(colony.colonists@, profession_of_index(k)) as usize,
            ),
{
    let mut ret: Vec<(Profession, usize)> = Vec::new();
    ret.push((Profession::NoProf, count_of_profession(colony, Profession::NoProf)));
    ret.push((Profession::Stalker, count_of_profession(colony, Profession::Stalker)));
    ret.push((Profession::Likvidator, count_of_profession(colony, Profession::Likvidator)));
    ret.push((Profession::Scientist, count_of_profession(colony, Profession::Scientist)));
    ret.push((Profession::Worker, count_of_profession(colony, Profession::Worker)));
    ret.push((Profession::Party, count_of_profession(colony, Profession::Party)));
    ret
}

/// The profession at a row of the headcount table.
pub open spec fn profession_of_index(k: int) -> Profession {
    if k == 0 {
        Profession::NoProf
    } else if k == 1 {
        Profession::Stalker
    } else if k == 2 {
        Profession::Likvidator
    } else if k == 3 {
        Profession::Scientist
    } else if k == 4 {
        Profession::Worker
    } else {
        Profession::Party
    }
}

/// Number of colonists with the given profession.
pub open spec fn count_profession(s: Seq<Colonist>, p: Profession) -> int
    decreases s.len(),
{
    if s.len() == 0 {
        0
    } else {
        count_profession(s.drop_last(), p) + if s.last().prof == p {
            1int
        } else {
            0int
        }
    }
}

/// Count the colonists of one profession.
pub fn count_of_profession(colony: &Colony, p: Profession) -> (ret: usize)
    requires
        colony.wf(),
    ensures
        ret as int == count_profession(colony.colonists@, p),
{
    let ghost s = colony.colonists@;
    let mut count: usize = 0;
    let mut i: usize = 0;
    while i < colony.colonists.len()
        invariant
            s == colony.colonists@,
            i <= s.len(),
            s.len() <= MAX_COMRADS,
            count <= i,
            count as int == count_profession(s.take(i as int), p),
        decreases s.len() - i,
    {
        proof {
            assert(s.take(i as int + 1).drop_last() =~= s.take(i as int));
            assert(s.take(i as int + 1).last() == s[i as int]);
        }
        if colony.colonists[i].prof == p {
            count = count + 1;
        }
        i = i + 1;
    }
    proof {
        assert(s.take(i as int) =~= s);
    }
    count
}

/// Sum of the moods of all colonists.
pub open spec fn sum_mood(s: Seq<Colonist>) -> int
    decreases s.len(),
{
    if s.len() == 0 {
        0
    } else {
        sum_mood(s.drop_last()) + s.last().mood.0
    }
}

/// Sum of the satieties of all colonists.
pub open spec fn sum_satiety(s: Seq<Colonist>) -> int
    decreases s.len(),
{
    if s.len() == 0 {
        0
    } else {
        sum_satiety(s.drop_last()) + s.last().satiety.0
    }
}

/// Total mood of the block.
pub fn block_mood(colony: &Colony) -> (ret: usize)
    requires
        colony.wf(),
    ensures
        ret as int == sum_mood(colony.colonists@),
{
    let ghost s = colony.colonists@;
    let mut total: usize = 0;
    let mut i: usize = 0;
    while i < colony.colonists.len()
        invariant
            s == colony.colonists@,
            i <= s.len(),
            s.len() <= MAX_COMRADS,
            total <= i * 255,
            total as int == sum_mood(s.take(i as int)),
        decreases s.len() - i,
    {
        proof {
            assert(s.take(i as int + 1).drop_last() =~= s.take(i as int));
            assert(s.take(i as int + 1).last() == s[i as int]);
        }
        total = total + colony.colonists[i].mood.0 as usize;
        i = i + 1;
    }
    proof {
        assert(s.take(i as int) =~= s);
    }
    total
}

/// Total satiety of the block. The sum must fit the satiety counter.
pub fn block_satiety(colony: &Colony) -> (ret: Satiety)
    requires
        colony.wf(),
        sum_satiety(colony.colonists@) <= u16::MAX,
    ensures
        ret.0 as int == sum_satiety(colony.colonists@),
{
    let ghost s = colony.colonists@;
    let mut total: u16 = 0;
    let mut i: usize = 0;
    while i < colony.colonists.len()
        invariant
            s == colony.colonists@,
            i <= s.len(),
            total as int == sum_satiety(s.take(i as int)),
            sum_satiety(s) <= u16::MAX,
        decreases s.len() - i,
    {
        proof {
            assert(s.take(i as int + 1).drop_last() =~= s.take(i as int));
            assert(s.take(i as int + 1).last() == s[i as int]);
            lemma_sum_satiety_take_le(s, i as int + 1);
        }
        total = total + colony.colonists[i].satiety.0;
        i = i + 1;
    }
    proof {
        assert(s.take(i as int) =~= s);
    }
    Satiety(total)
}

/// A prefix of the satiety sum never exceeds the whole sum.
proof fn lemma_sum_satiety_take_le(s: Seq<Colonist>, i: int)
    requires
        0 <= i <= s.len(),
    ensures
        sum_satiety(s.take(i)) <= sum_satiety(s),
    decreases s.len() - i,
{
    if i == s.len() {
        assert(s.take(i) =~= s);
    } else {
        assert(s.take(i + 1).drop_last() =~= s.take(i));
        assert(s.take(i + 1).last() == s[i]);
        lemma_sum_satiety_take_le(s, i + 1);
    }
}

} // verus!
