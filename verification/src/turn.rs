//! The turn pipeline: the population ledger, the labor allocator, the
//! completion sweep, stationary promotion, and the subsistence tick.

use vstd::prelude::*;
use crate::common::Tier;
use crate::area::AreaOccupied;
use crate::area::Room;
use crate::people::COMRAD_RENTED_PLACE;
use crate::people::Colonist;
use crate::people::Mood;
use crate::people::Profession;
use crate::people::Satiety;
use crate::resources::Resource;
use crate::storage::RealUnits;
use crate::state::Colony;
use crate::state::MAX_COMRADS;
use crate::production::BuildPower;
use crate::production::Stationary;
use crate::production::StationaryStatus;
use crate::production::StationaryUnit;
use crate::production::Task;
use crate::production::TaskMeta;
use crate::production::buildpower_downgrage_coef;
use crate::production::spec_downgrade_coef;
use crate::production::spec_stationary_build_power;
use crate::production::spec_tier2comrad_buildpower;
use crate::production::stationary_build_power;
use crate::production::tier2comrad_buildpower;

verus! {

/// Upper bound on one slot of the labor pool; enough for the largest
/// possible workforce and small enough that the downgrade amplification
/// never overflows.
pub const POOL_LIMIT: usize = 1000000;

/// The labor pool of one turn: build power per profession and tier, in a
/// fixed table of profession-times-tier slots.
#[derive(Clone, Debug)]
pub struct BuildPowerPool {
    pub slots: Vec<usize>,
}

/// Number of slots of the labor pool: one per profession and labor tier.
pub const POOL_SLOTS: usize = 18;

/// Number of stationary kinds, the size of the equipment pool.
pub const N_STATIONARY_KINDS: usize = 11;

impl BuildPowerPool {
    /// A pool with every slot empty.
    pub fn new() -> (ret: BuildPowerPool)
        ensures
            ret.wf(),
            forall|ix: int| 0 <= ix < POOL_SLOTS ==> ret.slots@[ix] == 0,
    {
        let mut slots: Vec<usize> = Vec::new();
        let mut i: usize = 0;
        while i < POOL_SLOTS
            invariant
                i <= POOL_SLOTS,
                slots@.len() == i,
                forall|ix: int| 0 <= ix < i ==> slots@[ix] == 0,
            decreases POOL_SLOTS - i,
        {
            slots.push(0);
            i = i + 1;
        }
        BuildPowerPool { slots }
    }

    /// The pool's shape and bounds.
    pub open spec fn wf(self) -> bool {
        self.slots@.len() == POOL_SLOTS && forall|ix: int|
            0 <= ix < POOL_SLOTS ==> self.slots@[ix] <= POOL_LIMIT
    }
}

/// Position of a profession in the pool table.
pub open spec fn spec_prof_ix(p: Profession) -> int {
    match p {
        Profession::NoProf => 0,
        Profession::Stalker => 1,
        Profession::Likvidator => 2,
        Profession::Scientist => 3,
        Profession::Worker => 4,
        Profession::Party => 5,
    }
}

/// Position of a labor tier in the pool table; `NoTier` never indexes it.
pub open spec fn spec_tier_ix(t: Tier) -> int {
    match t {
        Tier::NoTier => 0,
        Tier::T1 => 0,
        Tier::T2 => 1,
        Tier::T3 => 2,
    }
}

/// Slot of a profession and tier in the labor pool.
pub open spec fn pool_ix(p: Profession, t: Tier) -> int {
    spec_prof_ix(p) * 3 + spec_tier_ix(t)
}

/// Slot of a profession and tier in the labor pool.
pub fn pool_index(p: Profession, t: Tier) -> (ix: usize)
    ensures
        ix as int == pool_ix(p, t),
        ix < POOL_SLOTS,
{
    let pi: usize = match p {
        Profession::NoProf => 0,
        Profession::Stalker => 1,
        Profession::Likvidator => 2,
        Profession::Scientist => 3,
        Profession::Worker => 4,
        Profession::Party => 5,
    };
    let ti: usize = match t {
        Tier::NoTier => 0,
        Tier::T1 => 0,
        Tier::T2 => 1,
        Tier::T3 => 2,
    };
    pi * 3 + ti
}

/// Position of a stationary kind in the equipment pool.
pub open spec fn spec_stat_ix(k: Stationary) -> int {
    match k {
        Stationary::NoStationary => 0,
        Stationary::BenchToolT1 => 1,
        Stationary::BenchToolT2 => 2,
        Stationary::BenchToolT3 => 3,
        Stationary::FormatFurnace => 4,
        Stationary::LabT1 => 5,
        Stationary::LabT2 => 6,
        Stationary::LabT3 => 7,
        Stationary::Barrel => 8,
        Stationary::Rack => 9,
        Stationary::NeuroTerminal => 10,
    }
}

/// Position of a stationary kind in the equipment pool.
pub fn stationary_index(k: Stationary) -> (ix: usize)
    ensures
        ix as int == spec_stat_ix(k),
        ix < N_STATIONARY_KINDS,
{
    match k {
        Stationary::NoStationary => 0,
        Stationary::BenchToolT1 => 1,
        Stationary::BenchToolT2 => 2,
        Stationary::BenchToolT3 => 3,
        Stationary::FormatFurnace => 4,
        Stationary::LabT1 => 5,
        Stationary::LabT2 => 6,
        Stationary::LabT3 => 7,
        Stationary::Barrel => 8,
        Stationary::Rack => 9,
        Stationary::NeuroTerminal => 10,
    }
}

/// Labor the colonists of a profession and tier contribute per turn.
pub open spec fn total_labor(s: Seq<Colonist>, p: Profession, t: Tier) -> int
    decreases s.len(),
{
    if s.len() == 0 {
        0
    } else {
        total_labor(s.drop_last(), p, t) + if s.last().prof == p && s.last().tier == t {
            spec_tier2comrad_buildpower(t)
        } else {
            0
        }
    }
}

/// The freshly recomputed ledger, as the whole pool table: one slot per
/// profession and labor tier, in the fixed slot order.
pub open spec fn ledger_pool(s: Seq<Colonist>) -> Seq<usize> {
    seq![
        total_labor(s, Profession::NoProf, Tier::T1) as usize,
        total_labor(s, Profession::NoProf, Tier::T2) as usize,
        total_labor(s, Profession::NoProf, Tier::T3) as usize,
        total_labor(s, Profession::Stalker, Tier::T1) as usize,
        total_labor(s, Profession::Stalker, Tier::T2) as usize,
        total_labor(s, Profession::Stalker, Tier::T3) as usize,
        total_labor(s, Profession::Likvidator, Tier::T1) as usize,
        total_labor(s, Profession::Likvidator, Tier::T2) as usize,
        total_labor(s, Profession::Likvidator, Tier::T3) as usize,
        total_labor(s, Profession::Scientist, Tier::T1) as usize,
        total_labor(s, Profession::Scientist, Tier::T2) as usize,
        total_labor(s, Profession::Scientist, Tier::T3) as usize,
        total_labor(s, Profession::Worker, Tier::T1) as usize,
        total_labor(s, Profession::Worker, Tier::T2) as usize,
        total_labor(s, Profession::Worker, Tier::T3) as usize,
        total_labor(s, Profession::Party, Tier::T1) as usize,
        total_labor(s, Profession::Party, Tier::T2) as usize,
        total_labor(s, Profession::Party, Tier::T3) as usize,
    ]
}

/// The labor total of any profession and tier is nonnegative and fits the
/// pool's bound.
proof fn lemma_total_labor_bounds(s: Seq<Colonist>)
    ensures
        forall|p: Profession, t: Tier| #[trigger]
            total_labor(s, p, t) >= 0 && total_labor(s, p, t) <= 40 * s.len(),
    decreases s.len(),
{
    if s.len() > 0 {
        lemma_total_labor_bounds(s.drop_last());
        assert forall|p: Profession, t: Tier| #[trigger]
            total_labor(s, p, t) >= 0 && total_labor(s, p, t) <= 40 * s.len() by {
            assert(total_labor(s.drop_last(), p, t) >= 0 && total_labor(s.drop_last(), p, t) <= 40
                * s.drop_last().len());
            assert(total_labor(s, p, t) == total_labor(s.drop_last(), p, t) + (if s.last().prof
                == p && s.last().tier == t {
                spec_tier2comrad_buildpower(t)
            } else {
                0int
            }));
            assert(spec_tier2comrad_buildpower(t) <= 40);
        }
    }
}

proof fn lemma_total_labor_take_step(s: Seq<Colonist>, i: int)
    requires
        0 <= i < s.len(),
    ensures
        forall|p: Profession, t: Tier| #[trigger]
            total_labor(s.take(i + 1), p, t) == total_labor(s.take(i), p, t) + (if s[i].prof == p
                && s[i].tier == t {
                spec_tier2comrad_buildpower(t)
            } else {
                0int
            }),
{
    assert(s.take(i + 1).drop_last() =~= s.take(i));
    assert(s.take(i + 1).last() == s[i]);
}

/// Recompute the labor pool of the turn from the current population: every
/// colonist adds their tier's build power to their profession and tier slot.
/// Nothing carries over from the previous turn.
pub fn calc_buildpower(colony: &Colony, pool: &mut BuildPowerPool)
    requires
        colony.wf(),
    ensures
        final(pool).wf(),
        final(pool).slots@ == ledger_pool(colony.colonists@),
        forall|p: Profession, t: Tier|
            t.is_labor_tier() ==> final(pool).slots@[pool_ix(p, t)] as int == total_labor(
                colony.colonists@,
                p,
                t,
            ),
{
    let fresh = BuildPowerPool::new();
    *pool = fresh;
    let ghost s = colony.colonists@;
    let mut i: usize = 0;
    while i < colony.colonists.len()
        invariant
            colony.wf(),
            s == colony.colonists@,
            i <= s.len(),
            s.len() <= MAX_COMRADS,
            pool.slots@.len() == POOL_SLOTS,
            forall|ix: int| 0 <= ix < POOL_SLOTS ==> pool.slots@[ix] <= 40 * i,
            forall|p: Profession, t: Tier|
                t.is_labor_tier() ==> pool.slots@[pool_ix(p, t)] as int == total_labor(
                    s.take(i as int),
                    p,
                    t,
                ),
        decreases s.len() - i,
    {
        let c = colony.colonists[i];
        proof {
            assert(c.wf(colony.rooms@.len() as int));
            lemma_total_labor_take_step(s, i as int);
        }
        let human_bp = tier2comrad_buildpower(c.tier);
        let ix = pool_index(c.prof, c.tier);
        let before = pool.slots[ix];
        pool.slots.set(ix, before + human_bp.0);
        i = i + 1;
        proof {
            assert forall|p: Profession, t: Tier|
                t.is_labor_tier() implies pool.slots@[pool_ix(p, t)] as int == total_labor(
                s.take(i as int),
                p,
                t,
            ) by {
                if p == c.prof && t == c.tier {
                } else {
                    assert(pool_ix(p, t) != pool_ix(c.prof, c.tier));
                }
            }
        }
    }
    proof {
        assert(s.take(i as int) =~= s);
        assert(40 * i <= POOL_LIMIT);
        lemma_total_labor_bounds(s);
        assert forall|ix: int| 0 <= ix < POOL_SLOTS implies pool.slots@[ix] == ledger_pool(
            s,
        )[ix] by {
            assert(pool.slots@[pool_ix(Profession::NoProf, Tier::T1)] as int == total_labor(
                s,
                Profession::NoProf,
                Tier::T1,
            ));
            assert(pool.slots@[pool_ix(Profession::NoProf, Tier::T2)] as int == total_labor(
                s,
                Profession::NoProf,
                Tier::T2,
            ));
            assert(pool.slots@[pool_ix(Profession::NoProf, Tier::T3)] as int == total_labor(
                s,
                Profession::NoProf,
                Tier::T3,
            ));
            assert(pool.slots@[pool_ix(Profession::Stalker, Tier::T1)] as int == total_labor(
                s,
                Profession::Stalker,
                Tier::T1,
            ));
            assert(pool.slots@[pool_ix(Profession::Stalker, Tier::T2)] as int == total_labor(
                s,
                Profession::Stalker,
                Tier::T2,
            ));
            assert(pool.slots@[pool_ix(Profession::Stalker, Tier::T3)] as int == total_labor(
                s,
                Profession::Stalker,
                Tier::T3,
            ));
            assert(pool.slots@[pool_ix(Profession::Likvidator, Tier::T1)] as int == total_labor(
                s,
                Profession::Likvidator,
                Tier::T1,
            ));
            assert(pool.slots@[pool_ix(Profession::Likvidator, Tier::T2)] as int == total_labor(
                s,
                Profession::Likvidator,
                Tier::T2,
            ));
            assert(pool.slots@[pool_ix(Profession::Likvidator, Tier::T3)] as int == total_labor(
                s,
                Profession::Likvidator,
                Tier::T3,
            ));
            assert(pool.slots@[pool_ix(Profession::Scientist, Tier::T1)] as int == total_labor(
                s,
                Profession::Scientist,
                Tier::T1,
            ));
            assert(pool.slots@[pool_ix(Profession::Scientist, Tier::T2)] as int == total_labor(
                s,
                Profession::Scientist,
                Tier::T2,
            ));
            assert(pool.slots@[pool_ix(Profession::Scientist, Tier::T3)] as int == total_labor(
                s,
                Profession::Scientist,
                Tier::T3,
            ));
            assert(pool.slots@[pool_ix(Profession::Worker, Tier::T1)] as int == total_labor(
                s,
                Profession::Worker,
                Tier::T1,
            ));
            assert(pool.slots@[pool_ix(Profession::Worker, Tier::T2)] as int == total_labor(
                s,
                Profession::Worker,
                Tier::T2,
            ));
            assert(pool.slots@[pool_ix(Profession::Worker, Tier::T3)] as int == total_labor(
                s,
                Profession::Worker,
                Tier::T3,
            ));
            assert(pool.slots@[pool_ix(Profession::Party, Tier::T1)] as int == total_labor(
                s,
                Profession::Party,
                Tier::T1,
            ));
            assert(pool.slots@[pool_ix(Profession::Party, Tier::T2)] as int == total_labor(
                s,
                Profession::Party,
                Tier::T2,
            ));
            assert(pool.slots@[pool_ix(Profession::Party, Tier::T3)] as int == total_labor(
                s,
                Profession::Party,
                Tier::T3,
            ));
        }
        assert(pool.slots@ =~= ledger_pool(s));
    }
}

/// Build power the operational equipment of one kind supplies per turn.
pub open spec fn equip_total(s: Seq<StationaryUnit>, k: Stationary) -> int
    decreases s.len(),
{
    if s.len() == 0 {
        0
    } else {
        equip_total(s.drop_last(), k) + if s.last().status == StationaryStatus::Ready
            && s.last().kind == k {
            spec_stationary_build_power(k)
        } else {
            0
        }
    }
}

proof fn lemma_equip_total_take_step(s: Seq<StationaryUnit>, i: int)
    requires
        0 <= i < s.len(),
    ensures
        forall|k: Stationary| #[trigger]
            equip_total(s.take(i + 1), k) == equip_total(s.take(i), k) + (if s[i].status
                == StationaryStatus::Ready && s[i].kind == k {
                spec_stationary_build_power(k)
            } else {
                0int
            }),
{
    assert(s.take(i + 1).drop_last() =~= s.take(i));
    assert(s.take(i + 1).last() == s[i]);
}

/// The equipment pool of the turn, one slot per stationary kind.
pub open spec fn equip_vec(s: Seq<StationaryUnit>) -> Seq<usize> {
    Seq::new(N_STATIONARY_KINDS as nat, |i: int| equip_total_at(s, i) as usize)
}

/// Build power of the kind that sits at slot `i` of the equipment pool.
pub open spec fn equip_total_at(s: Seq<StationaryUnit>, i: int) -> int {
    equip_total(s, index_stationary(i))
}

/// The stationary kind at a slot of the equipment pool.
pub open spec fn index_stationary(i: int) -> Stationary {
    if i == 1 {
        Stationary::BenchToolT1
    } else if i == 2 {
        Stationary::BenchToolT2
    } else if i == 3 {
        Stationary::BenchToolT3
    } else if i == 4 {
        Stationary::FormatFurnace
    } else if i == 5 {
        Stationary::LabT1
    } else if i == 6 {
        Stationary::LabT2
    } else if i == 7 {
        Stationary::LabT3
    } else if i == 8 {
        Stationary::Barrel
    } else if i == 9 {
        Stationary::Rack
    } else if i == 10 {
        Stationary::NeuroTerminal
    } else {
        Stationary::NoStationary
    }
}

/// One draw of labor against a task: the available labor is amplified by the
/// downgrade coefficient, the take is the least of equipment, amplified
/// labor and remaining work, rounded down to a whole multiple of the
/// coefficient so that the labor spent stays integral. Returns the remaining
/// work, the remaining equipment, and the remaining labor.
pub open spec fn spec_alloc_draw(rem: int, avail: int, labor: int, coef: int) -> (int, int, int) {
    if coef < 1 {
        (rem, avail, labor)
    } else {
        let amp = labor * coef;
        let m0 = if avail <= amp && avail <= rem {
            avail
        } else if amp <= rem {
            amp
        } else {
            rem
        };
        let t = m0 - m0 % coef;
        (rem - t, avail - t, labor - t / coef)
    }
}

/// One worker tier serving one task: the draw of `spec_alloc_draw` applied
/// to that tier's labor slot.
pub open spec fn spec_task_step(
    prof: Profession,
    ttier: Tier,
    wt: Tier,
    rem: int,
    labor: Seq<usize>,
    cap: int,
) -> (int, Seq<usize>, int) {
    let coef = spec_downgrade_coef(wt, ttier);
    let li = pool_ix(prof, wt);
    let d = spec_alloc_draw(rem, cap, labor[li] as int, coef);
    (d.0, labor.update(li, d.2 as usize), d.1)
}

/// The allocator's treatment of one task: workers of the task's own tier
/// serve first, then higher tiers in ascending order, each through the
/// downgrade coefficient; every take is bounded by the task's equipment pool
/// unless the task needs no equipment.
pub open spec fn spec_alloc_task(task: Task, labor: Seq<usize>, equip: Seq<usize>) -> (
    Task,
    Seq<usize>,
    Seq<usize>,
) {
    let m = task.meta;
    if m.tier == Tier::NoTier {
        (task, labor, equip)
    } else {
        let uses = m.stationary != Stationary::NoStationary;
        let cap0 = if uses {
            equip[spec_stat_ix(m.stationary)] as int
        } else {
            m.bp.0 as int
        };
        let s1 = if m.tier == Tier::T1 {
            let a = spec_task_step(m.prof, m.tier, Tier::T1, m.bp.0 as int, labor, cap0);
            let b = spec_task_step(m.prof, m.tier, Tier::T2, a.0, a.1, a.2);
            spec_task_step(m.prof, m.tier, Tier::T3, b.0, b.1, b.2)
        } else if m.tier == Tier::T2 {
            let a = spec_task_step(m.prof, m.tier, Tier::T2, m.bp.0 as int, labor, cap0);
            spec_task_step(m.prof, m.tier, Tier::T3, a.0, a.1, a.2)
        } else {
            spec_task_step(m.prof, m.tier, Tier::T3, m.bp.0 as int, labor, cap0)
        };
        let new_task = Task {
            meta: TaskMeta {
                prof: m.prof,
                tier: m.tier,
                bp: BuildPower(s1.0 as usize),
                stationary: m.stationary,
                sci_spec: m.sci_spec,
            },
            priority: task.priority,
            owner: task.owner,
        };
        let new_equip = if uses {
            equip.update(spec_stat_ix(m.stationary), s1.2 as usize)
        } else {
            equip
        };
        (new_task, s1.1, new_equip)
    }
}

/// The allocator over the first `n` tasks of the backlog, in order.
pub open spec fn spec_alloc_all(tasks: Seq<Task>, labor: Seq<usize>, equip: Seq<usize>, n: int) -> (
    Seq<Task>,
    Seq<usize>,
    Seq<usize>,
)
    decreases n,
{
    if n <= 0 {
        (tasks, labor, equip)
    } else {
        let prev = spec_alloc_all(tasks, labor, equip, n - 1);
        let stepped = spec_alloc_task(prev.0[n - 1], prev.1, prev.2);
        (prev.0.update(n - 1, stepped.0), stepped.1, stepped.2)
    }
}

proof fn lemma_draw_bounds(rem: int, avail: int, labor: int, coef: int)
    requires
        0 <= rem,
        0 <= avail,
        0 <= labor,
        0 <= coef,
    ensures
        ({
            let d = spec_alloc_draw(rem, avail, labor, coef);
            0 <= d.0 <= rem && 0 <= d.1 <= avail && 0 <= d.2 <= labor
        }),
{
    if coef >= 1 {
        let amp = labor * coef;
        assert(labor * coef >= 0) by (nonlinear_arith)
            requires labor >= 0 && coef >= 1;
        let m0 = if avail <= amp && avail <= rem {
            avail
        } else if amp <= rem {
            amp
        } else {
            rem
        };
        vstd::arithmetic::div_mod::lemma_fundamental_div_mod(m0, coef);
        vstd::arithmetic::div_mod::lemma_mod_bound(m0, coef);
        let t = m0 - m0 % coef;
        vstd::arithmetic::div_mod::lemma_div_pos_is_pos(m0, coef);
        let q = m0 / coef;
        assert(coef * q >= 0) by (nonlinear_arith)
            requires coef >= 1 && q >= 0;
        assert(t == coef * q);
        vstd::arithmetic::mul::lemma_mul_is_commutative(coef, q);
        vstd::arithmetic::div_mod::lemma_div_by_multiple(q, coef);
        assert(t / coef == q);
        vstd::arithmetic::div_mod::lemma_div_is_ordered(t, amp, coef);
        vstd::arithmetic::mul::lemma_mul_is_commutative(labor, coef);
        vstd::arithmetic::div_mod::lemma_div_by_multiple(labor, coef);
        assert(t / coef <= labor);
    }
}

/// The downgrade coefficient of one worker tier serving one task tier.
fn downgrade_coef(worker_tier: Tier, target_tier: Tier) -> (c: usize)
    ensures
        c as int == spec_downgrade_coef(worker_tier, target_tier),
{
    match (worker_tier, target_tier) {
        (Tier::T1, Tier::T1) => 1,
        (Tier::T2, Tier::T2) => 1,
        (Tier::T3, Tier::T3) => 1,
        (Tier::T2, Tier::T1) => 2,
        (Tier::T3, Tier::T2) => 2,
        (Tier::T3, Tier::T1) => 4,
        _ => 0,
    }
}

/// One worker tier serving one task: draw from that tier's labor slot,
/// amplified through `buildpower_downgrage_coef`, against the remaining work
/// and the equipment budget. Returns the remaining work and budget.
fn task_step(
    prof: Profession,
    ttier: Tier,
    wt: Tier,
    rem: usize,
    labor: &mut Vec<usize>,
    cap: usize,
) -> (ret: (usize, usize))
    requires
        old(labor)@.len() == POOL_SLOTS,
        forall|ix: int| 0 <= ix < POOL_SLOTS ==> old(labor)@[ix] <= POOL_LIMIT,
    ensures
        final(labor)@.len() == POOL_SLOTS,
        forall|ix: int| 0 <= ix < POOL_SLOTS ==> final(labor)@[ix] <= old(labor)@[ix],
        ({
            let st = spec_task_step(prof, ttier, wt, rem as int, old(labor)@, cap as int);
            ret.0 as int == st.0 && final(labor)@ == st.1 && ret.1 as int == st.2
        }),
        ret.0 <= rem,
        ret.1 <= cap,
{
    let li = pool_index(prof, wt);
    let lv = labor[li];
    let coef = downgrade_coef(wt, ttier);
    proof {
        lemma_draw_bounds(rem as int, cap as int, lv as int, coef as int);
    }
    if coef < 1 {
        proof {
            assert(labor@.update(li as int, lv) =~= labor@);
        }
        return (rem, cap);
    }
    let amplified = buildpower_downgrage_coef(wt, ttier, BuildPower(lv));
    let a = amplified.0;
    let m0 = if cap <= a && cap <= rem {
        cap
    } else if a <= rem {
        a
    } else {
        rem
    };
    proof {
        vstd::arithmetic::div_mod::lemma_fundamental_div_mod(m0 as int, coef as int);
        vstd::arithmetic::div_mod::lemma_mod_bound(m0 as int, coef as int);
        vstd::arithmetic::div_mod::lemma_div_pos_is_pos(m0 as int, coef as int);
        let q = m0 as int / coef as int;
        assert(coef as int * q >= 0) by (nonlinear_arith)
            requires coef as int >= 1 && q >= 0;
    }
    let md = m0 % coef;
    let t = m0 - md;
    proof {
        let q = m0 as int / coef as int;
        assert(t as int == coef as int * q);
        vstd::arithmetic::mul::lemma_mul_is_commutative(coef as int, q);
        vstd::arithmetic::div_mod::lemma_div_by_multiple(q, coef as int);
        assert(t as int / coef as int == q);
        vstd::arithmetic::div_mod::lemma_div_is_ordered(t as int, a as int, coef as int);
        vstd::arithmetic::mul::lemma_mul_is_commutative(lv as int, coef as int);
        vstd::arithmetic::div_mod::lemma_div_by_multiple(lv as int, coef as int);
        assert(t as int / coef as int <= lv as int);
    }
    let spent = t / coef;
    labor.set(li, lv - spent);
    (rem - t, cap - t)
}

/// The allocator's treatment of one task, against the labor pool and the
/// equipment pool of the turn.
fn alloc_task(task: Task, labor: &mut Vec<usize>, equip: &mut Vec<usize>) -> (new_task: Task)
    requires
        old(labor)@.len() == POOL_SLOTS,
        forall|ix: int| 0 <= ix < POOL_SLOTS ==> old(labor)@[ix] <= POOL_LIMIT,
        old(equip)@.len() == N_STATIONARY_KINDS,
    ensures
        final(labor)@.len() == POOL_SLOTS,
        forall|ix: int| 0 <= ix < POOL_SLOTS ==> final(labor)@[ix] <= old(labor)@[ix],
        final(equip)@.len() == N_STATIONARY_KINDS,
        ({
            let st = spec_alloc_task(task, old(labor)@, old(equip)@);
            new_task == st.0 && final(labor)@ == st.1 && final(equip)@ == st.2
        }),
        new_task.meta.bp.0 <= task.meta.bp.0,
        new_task.meta.prof == task.meta.prof,
        new_task.meta.tier == task.meta.tier,
        new_task.meta.stationary == task.meta.stationary,
        new_task.meta.sci_spec == task.meta.sci_spec,
        new_task.priority == task.priority,
        new_task.owner == task.owner,
{
    let m = task.meta;
    if m.tier == Tier::NoTier {
        return task;
    }
    let uses = m.stationary != Stationary::NoStationary;
    let ei = stationary_index(m.stationary);
    let cap0 = if uses {
        equip[ei]
    } else {
        m.bp.0
    };
    let mut rem = m.bp.0;
    let mut cap = cap0;
    match m.tier {
        Tier::T1 => {
            let r1 = task_step(m.prof, m.tier, Tier::T1, rem, labor, cap);
            rem = r1.0;
            cap = r1.1;
            let r2 = task_step(m.prof, m.tier, Tier::T2, rem, labor, cap);
            rem = r2.0;
            cap = r2.1;
            let r3 = task_step(m.prof, m.tier, Tier::T3, rem, labor, cap);
            rem = r3.0;
            cap = r3.1;
        },
        Tier::T2 => {
            let r1 = task_step(m.prof, m.tier, Tier::T2, rem, labor, cap);
            rem = r1.0;
            cap = r1.1;
            let r2 = task_step(m.prof, m.tier, Tier::T3, rem, labor, cap);
            rem = r2.0;
            cap = r2.1;
        },
        _ => {
            let r1 = task_step(m.prof, m.tier, Tier::T3, rem, labor, cap);
            rem = r1.0;
            cap = r1.1;
        },
    }
    if uses {
        equip.set(ei, cap);
    } else {
        proof {
            assert(equip@ =~= old(equip)@);
        }
    }
    Task {
        meta: TaskMeta {
            prof: m.prof,
            tier: m.tier,
            bp: BuildPower(rem),
            stationary: m.stationary,
            sci_spec: m.sci_spec,
        },
        priority: task.priority,
        owner: task.owner,
    }
}

/// The labor allocator: walk the backlog in priority order and let every
/// task draw from the labor pool of its profession, its own tier first and
/// higher tiers through the downgrade coefficient, bounded by the build
/// power of the operational equipment of the task's kind. A task needing no
/// equipment draws from labor alone. The remaining build power of every task
/// never grows.
pub fn process_tasks(colony: &mut Colony, pool: &mut BuildPowerPool)
    requires
        old(colony).wf(),
        old(pool).wf(),
    ensures
        final(colony).wf(),
        final(pool).wf(),
        ({
            let r = spec_alloc_all(
                old(colony).tasks@,
                old(pool).slots@,
                equip_vec(old(colony).stationaries@),
                old(colony).tasks@.len() as int,
            );
            final(colony).tasks@ == r.0 && final(pool).slots@ == r.1
        }),
        final(colony).tasks@.len() == old(colony).tasks@.len(),
        forall|i: int|
            0 <= i < final(colony).tasks@.len() ==> {
                &&& final(colony).tasks@[i].meta.bp.0 <= old(colony).tasks@[i].meta.bp.0
                &&& final(colony).tasks@[i].meta.prof == old(colony).tasks@[i].meta.prof
                &&& final(colony).tasks@[i].meta.tier == old(colony).tasks@[i].meta.tier
                &&& final(colony).tasks@[i].meta.stationary == old(
                    colony,
                ).tasks@[i].meta.stationary
                &&& final(colony).tasks@[i].meta.sci_spec == old(colony).tasks@[i].meta.sci_spec
                &&& final(colony).tasks@[i].priority == old(colony).tasks@[i].priority
                &&& final(colony).tasks@[i].owner == old(colony).tasks@[i].owner
            },
        forall|ix: int| 0 <= ix < POOL_SLOTS ==> final(pool).slots@[ix] <= old(pool).slots@[ix],
        final(colony).rooms == old(colony).rooms,
        final(colony).colonists == old(colony).colonists,
        final(colony).stationaries == old(colony).stationaries,
        final(colony).shelves == old(colony).shelves,
        final(colony).barrels == old(colony).barrels,
        final(colony).floor_boxes == old(colony).floor_boxes,
{
    let ghost stats = colony.stationaries@;
    let mut equip: Vec<usize> = Vec::new();
    let mut k: usize = 0;
    while k < N_STATIONARY_KINDS
        invariant
            k <= N_STATIONARY_KINDS,
            equip@.len() == k,
            forall|j: int| 0 <= j < k ==> equip@[j] == 0,
        decreases N_STATIONARY_KINDS - k,
    {
        equip.push(0);
        k = k + 1;
    }
    let mut i: usize = 0;
    proof {
        assert(forall|j: int|
            0 <= j < N_STATIONARY_KINDS ==> spec_stat_ix(#[trigger] index_stationary(j)) == j);
        assert(forall|j: int|
            0 <= j < N_STATIONARY_KINDS ==> equip_total(stats.take(0), #[trigger] index_stationary(
                j,
            )) == 0);
    }
    while i < colony.stationaries.len()
        invariant
            colony.wf(),
            stats == colony.stationaries@,
            i <= stats.len(),
            stats.len() <= crate::state::MAX_STATIONARIES,
            equip@.len() == N_STATIONARY_KINDS,
            forall|j: int| 0 <= j < N_STATIONARY_KINDS ==> equip@[j] <= 40 * i,
            forall|j: int|
                0 <= j < N_STATIONARY_KINDS ==> equip@[j] as int == equip_total(
                    stats.take(i as int),
                    #[trigger] index_stationary(j),
                ),
        decreases stats.len() - i,
    {
        let unit = colony.stationaries[i];
        proof {
            lemma_equip_total_take_step(stats, i as int);
            assert(forall|j: int|
                0 <= j < N_STATIONARY_KINDS ==> spec_stat_ix(#[trigger] index_stationary(j)) == j);
        }
        match unit.status {
            StationaryStatus::Ready => {
                let bp = stationary_build_power(unit.kind);
                let ix = stationary_index(unit.kind);
                let before = equip[ix];
                equip.set(ix, before + bp.0);
                proof {
                    assert(index_stationary(ix as int) == unit.kind);
                }
            },
            StationaryStatus::Constructing => {},
        }
        i = i + 1;
    }
    proof {
        assert(stats.take(i as int) =~= stats);
        assert(equip@ =~= equip_vec(stats));
    }
    let ghost t0 = colony.tasks@;
    let ghost l0 = pool.slots@;
    let ghost e0 = equip@;
    let mut n: usize = 0;
    while n < colony.tasks.len()
        invariant
            n <= t0.len(),
            colony.tasks@.len() == t0.len(),
            pool.slots@.len() == POOL_SLOTS,
            equip@.len() == N_STATIONARY_KINDS,
            forall|ix: int| 0 <= ix < POOL_SLOTS ==> pool.slots@[ix] <= l0[ix],
            forall|ix: int| 0 <= ix < POOL_SLOTS ==> l0[ix] <= POOL_LIMIT,
            ({
                let r = spec_alloc_all(t0, l0, e0, n as int);
                colony.tasks@ == r.0 && pool.slots@ == r.1 && equip@ == r.2
            }),
            forall|j: int|
                0 <= j < t0.len() ==> {
                    &&& colony.tasks@[j].meta.bp.0 <= t0[j].meta.bp.0
                    &&& colony.tasks@[j].meta.prof == t0[j].meta.prof
                    &&& colony.tasks@[j].meta.tier == t0[j].meta.tier
                    &&& colony.tasks@[j].meta.stationary == t0[j].meta.stationary
                    &&& colony.tasks@[j].meta.sci_spec == t0[j].meta.sci_spec
                    &&& colony.tasks@[j].priority == t0[j].priority
                    &&& colony.tasks@[j].owner == t0[j].owner
                },
            colony.rooms == old(colony).rooms,
            colony.colonists == old(colony).colonists,
            colony.stationaries == old(colony).stationaries,
            colony.shelves == old(colony).shelves,
            colony.barrels == old(colony).barrels,
            colony.floor_boxes == old(colony).floor_boxes,
            t0 == old(colony).tasks@,
        decreases t0.len() - n,
    {
        let task = colony.tasks[n];
        proof {
            assert(spec_alloc_all(t0, l0, e0, n as int + 1) == (
                spec_alloc_all(t0, l0, e0, n as int).0.update(
                    n as int,
                    spec_alloc_task(
                        spec_alloc_all(t0, l0, e0, n as int).0[n as int],
                        spec_alloc_all(t0, l0, e0, n as int).1,
                        spec_alloc_all(t0, l0, e0, n as int).2,
                    ).0,
                ),
                spec_alloc_task(
                    spec_alloc_all(t0, l0, e0, n as int).0[n as int],
                    spec_alloc_all(t0, l0, e0, n as int).1,
                    spec_alloc_all(t0, l0, e0, n as int).2,
                ).1,
                spec_alloc_task(
                    spec_alloc_all(t0, l0, e0, n as int).0[n as int],
                    spec_alloc_all(t0, l0, e0, n as int).1,
                    spec_alloc_all(t0, l0, e0, n as int).2,
                ).2,
            ));
        }
        proof {
            assert forall|ix: int| 0 <= ix < POOL_SLOTS implies pool.slots@[ix] <= POOL_LIMIT by {
                assert(pool.slots@[ix] <= l0[ix]);
                assert(l0[ix] <= POOL_LIMIT);
            }
        }
        let new_task = alloc_task(task, &mut pool.slots, &mut equip);
        colony.tasks.set(n, new_task);
        n = n + 1;
    }
    proof {
        assert forall|ix: int| 0 <= ix < POOL_SLOTS implies pool.slots@[ix] <= POOL_LIMIT by {
            assert(pool.slots@[ix] <= l0[ix]);
        }
        assert forall|i2: int, j2: int|
            0 <= i2 < j2 < colony.tasks@.len() implies colony.tasks@[i2].priority.0
            <= colony.tasks@[j2].priority.0 by {
            assert(colony.tasks@[i2].priority == t0[i2].priority);
            assert(colony.tasks@[j2].priority == t0[j2].priority);
        }
        assert forall|i2: int|
            0 <= i2 < colony.tasks@.len() implies (#[trigger] colony.tasks@[i2].owner.0 as int)
            < colony.stationaries@.len() && colony.stationaries@[colony.tasks@[i2].owner.0 as int].status
            == StationaryStatus::Constructing by {
            assert(colony.tasks@[i2].owner == t0[i2].owner);
        }
        assert(colony.wf_counts());
        assert(colony.wf_entities());
        assert(colony.wf_storage());
        assert(colony.wf_tasks());
    }
}

/// The backlog without its completed tasks, in the order it had.
pub open spec fn active_tasks(s: Seq<Task>) -> Seq<Task>
    decreases s.len(),
{
    if s.len() == 0 {
        Seq::empty()
    } else {
        let prefix = active_tasks(s.drop_last());
        if s.last().meta.bp.0 > 0 {
            prefix.push(s.last())
        } else {
            prefix
        }
    }
}

/// The completion sweep: delete every task whose remaining build power
/// reached zero, keeping the rest in order.
pub fn clean_up_completed_tasks(colony: &mut Colony)
    requires
        old(colony).wf(),
    ensures
        final(colony).wf(),
        final(colony).tasks@ == active_tasks(old(colony).tasks@),
        final(colony).tasks@.len() <= old(colony).tasks@.len(),
        forall|i: int| 0 <= i < final(colony).tasks@.len() ==> final(colony).tasks@[i].meta.bp.0 > 0,
        final(colony).rooms == old(colony).rooms,
        final(colony).colonists == old(colony).colonists,
        final(colony).stationaries == old(colony).stationaries,
        final(colony).shelves == old(colony).shelves,
        final(colony).barrels == old(colony).barrels,
        final(colony).floor_boxes == old(colony).floor_boxes,
{
    let ghost t0 = colony.tasks@;
    let mut kept: Vec<Task> = Vec::new();
    let mut i: usize = 0;
    while i < colony.tasks.len()
        invariant
            colony.tasks@ == t0,
            i <= t0.len(),
            kept@.len() <= i,
            kept@ == active_tasks(t0.take(i as int)),
            forall|k: int| 0 <= k < kept@.len() ==> kept@[k].meta.bp.0 > 0,
            forall|k: int| #![trigger kept@[k]]
                0 <= k < kept@.len() ==> exists|j: int| 0 <= j < i && kept@[k] == #[trigger] t0[j],
        decreases t0.len() - i,
    {
        let task = colony.tasks[i];
        proof {
            assert(t0.take(i as int + 1).drop_last() =~= t0.take(i as int));
            assert(t0.take(i as int + 1).last() == t0[i as int]);
        }
        if task.meta.bp.0 > 0 {
            kept.push(task);
            proof {
                assert forall|k: int| #![trigger kept@[k]]
                    0 <= k < kept@.len() implies exists|j: int|
                    0 <= j < i + 1 && kept@[k] == #[trigger] t0[j] by {
                    if k < kept@.len() - 1 {
                        let j = choose|j: int| 0 <= j < i && kept@[k] == #[trigger] t0[j];
                        assert(0 <= j < i + 1 && kept@[k] == t0[j]);
                    } else {
                        assert(kept@[k] == t0[i as int]);
                    }
                }
            }
        }
        i = i + 1;
    }
    proof {
        assert(t0.take(i as int) =~= t0);
    }
    colony.tasks = kept;
    proof {
        assert forall|a: int, b: int|
            0 <= a < b < colony.tasks@.len() implies colony.tasks@[a].priority.0
            <= colony.tasks@[b].priority.0 by {
            lemma_active_tasks_order(t0, a, b);
        }
        assert forall|a: int|
            0 <= a < colony.tasks@.len() implies (#[trigger] colony.tasks@[a].owner.0 as int)
            < colony.stationaries@.len() && colony.stationaries@[colony.tasks@[a].owner.0 as int].status
            == StationaryStatus::Constructing by {
            lemma_active_tasks_membership(t0);
            let j = choose|j: int| 0 <= j < t0.len() && colony.tasks@[a] == #[trigger] t0[j];
            assert(old(colony).tasks@[j] == colony.tasks@[a]);
        }
    }
}

/// Kept tasks stand in the order they had: any two positions of the swept
/// backlog come from positions of the backlog before the sweep, in the same
/// order.
proof fn lemma_active_tasks_order(s: Seq<Task>, a: int, b: int)
    requires
        0 <= a < b < active_tasks(s).len(),
        forall|i: int, j: int| 0 <= i < j < s.len() ==> s[i].priority.0 <= s[j].priority.0,
    ensures
        active_tasks(s)[a].priority.0 <= active_tasks(s)[b].priority.0,
    decreases s.len(),
{
    lemma_active_tasks_membership(s);
    if s.len() > 0 {
        let prefix = active_tasks(s.drop_last());
        assert(forall|i: int, j: int|
            0 <= i < j < s.drop_last().len() ==> s.drop_last()[i].priority.0
                <= s.drop_last()[j].priority.0);
        if s.last().meta.bp.0 > 0 {
            if b == active_tasks(s).len() - 1 {
                lemma_active_tasks_membership(s.drop_last());
                let j = choose|j: int|
                    0 <= j < s.drop_last().len() && active_tasks(s.drop_last())[a]
                        == #[trigger] s.drop_last()[j];
                assert(s[j].priority.0 <= s[s.len() - 1].priority.0);
            } else {
                lemma_active_tasks_order(s.drop_last(), a, b);
            }
        } else {
            lemma_active_tasks_order(s.drop_last(), a, b);
        }
    }
}

/// Every kept task is one of the backlog before the sweep.
proof fn lemma_active_tasks_membership(s: Seq<Task>)
    ensures
        forall|k: int| #![trigger active_tasks(s)[k]]
            0 <= k < active_tasks(s).len() ==> exists|j: int|
                0 <= j < s.len() && active_tasks(s)[k] == #[trigger] s[j],
    decreases s.len(),
{
    if s.len() > 0 {
        lemma_active_tasks_membership(s.drop_last());
        assert forall|k: int| #![trigger active_tasks(s)[k]]
            0 <= k < active_tasks(s).len() implies exists|j: int|
            0 <= j < s.len() && active_tasks(s)[k] == #[trigger] s[j] by {
            let prefix = active_tasks(s.drop_last());
            if k < prefix.len() {
                let j = choose|j: int|
                    0 <= j < s.drop_last().len() && prefix[k] == #[trigger] s.drop_last()[j];
                assert(0 <= j < s.len() && active_tasks(s)[k] == s[j]);
            } else {
                assert(active_tasks(s)[k] == s[s.len() - 1]);
            }
        }
    }
}

/// Whether no task of the backlog belongs to stationary `k`.
pub open spec fn no_task_for(tasks: Seq<Task>, k: int) -> bool {
    forall|t: int| 0 <= t < tasks.len() ==> (#[trigger] tasks[t]).owner.0 != k
}

/// The status stationary `k` has after the promotion pass.
pub open spec fn promoted_status(s0: Seq<StationaryUnit>, tasks: Seq<Task>, k: int) -> StationaryStatus {
    if s0[k].status == StationaryStatus::Constructing && no_task_for(tasks, k) {
        StationaryStatus::Ready
    } else {
        s0[k].status
    }
}

/// Whether some task of the backlog belongs to the given stationary.
fn any_task_for(tasks: &Vec<Task>, owner: usize) -> (ret: bool)
    ensures
        ret == exists|t: int| 0 <= t < tasks@.len() && tasks@[t].owner.0 == owner,
{
    let mut i: usize = 0;
    while i < tasks.len()
        invariant
            i <= tasks@.len(),
            forall|t: int| 0 <= t < i ==> tasks@[t].owner.0 != owner,
        decreases tasks@.len() - i,
    {
        if tasks[i].owner.0 == owner {
            return true;
        }
        i = i + 1;
    }
    false
}

/// Stationary promotion: a stationary under construction whose last work
/// order has been swept becomes operational. It must run right after the
/// completion sweep.
pub fn setup_completed_stationaries(colony: &mut Colony)
    requires
        old(colony).wf(),
    ensures
        final(colony).wf(),
        final(colony).stationaries@.len() == old(colony).stationaries@.len(),
        forall|j: int|
            0 <= j < final(colony).stationaries@.len() ==> {
                &&& final(colony).stationaries@[j].kind == old(colony).stationaries@[j].kind
                &&& final(colony).stationaries@[j].room == old(colony).stationaries@[j].room
                &&& final(colony).stationaries@[j].status == promoted_status(
                    old(colony).stationaries@,
                    old(colony).tasks@,
                    j,
                )
            },
        final(colony).rooms == old(colony).rooms,
        final(colony).colonists == old(colony).colonists,
        final(colony).tasks == old(colony).tasks,
        final(colony).shelves == old(colony).shelves,
        final(colony).barrels == old(colony).barrels,
        final(colony).floor_boxes == old(colony).floor_boxes,
{
    let ghost s0 = colony.stationaries@;
    let mut j: usize = 0;
    while j < colony.stationaries.len()
        invariant
            colony.stationaries@.len() == s0.len(),
            j <= s0.len(),
            colony.rooms == old(colony).rooms,
            colony.colonists == old(colony).colonists,
            colony.tasks == old(colony).tasks,
            colony.shelves == old(colony).shelves,
            colony.barrels == old(colony).barrels,
            colony.floor_boxes == old(colony).floor_boxes,
            s0 == old(colony).stationaries@,
            forall|k: int| (j as int) <= k < s0.len() ==> colony.stationaries@[k] == s0[k],
            forall|k: int| #![trigger colony.stationaries@[k]]
                0 <= k < j ==> {
                    &&& colony.stationaries@[k].kind == s0[k].kind
                    &&& colony.stationaries@[k].room == s0[k].room
                    &&& colony.stationaries@[k].status == promoted_status(
                        s0,
                        old(colony).tasks@,
                        k,
                    )
                },
        decreases s0.len() - j,
    {
        let unit = colony.stationaries[j];
        let constructing = match unit.status {
            StationaryStatus::Constructing => true,
            StationaryStatus::Ready => false,
        };
        if constructing {
            let pending = any_task_for(&colony.tasks, j);
            if !pending {
                colony.stationaries.set(
                    j,
                    StationaryUnit { kind: unit.kind, status: StationaryStatus::Ready, room: unit.room },
                );
            }
        }
        j = j + 1;
    }
    proof {
        assert forall|t: int|
            0 <= t < colony.tasks@.len() implies (#[trigger] colony.tasks@[t].owner.0 as int)
            < colony.stationaries@.len() && colony.stationaries@[colony.tasks@[t].owner.0 as int].status
            == StationaryStatus::Constructing by {
            let ow = colony.tasks@[t].owner.0 as int;
            assert(old(colony).tasks@[t].owner.0 == colony.tasks@[t].owner.0);
            assert(0 <= t < old(colony).tasks@.len() && (old(colony).tasks@[t]).owner.0 == ow);
            if no_task_for(old(colony).tasks@, ow) {
                assert((#[trigger] old(colony).tasks@[t]).owner.0 != ow);
            }
            assert(0 <= ow < s0.len());
            assert(s0[ow].status == StationaryStatus::Constructing);
            assert(colony.stationaries@[ow].status == promoted_status(
                s0,
                old(colony).tasks@,
                ow,
            ));
            assert(!no_task_for(old(colony).tasks@, ow));
        }
        assert forall|k: int|
            0 <= k < colony.stationaries@.len() implies (#[trigger] colony.stationaries@[k].room.0
            as int) < colony.rooms@.len() by {
            assert(colony.stationaries@[k].room == s0[k].room);
        }
        assert(colony.wf_counts());
        assert(colony.wf_entities());
        assert(colony.wf_storage());
        assert(colony.wf_tasks());
    }
}

/// One colonist after the hunger tick: satiety drops by ten (to a floor of
/// zero) and a colonist left hungry loses one mood (to a floor of zero).
pub open spec fn hunger_step(c: Colonist) -> Colonist {
    let sat = if c.satiety.0 >= 10 {
        (c.satiety.0 - 10) as u16
    } else {
        0u16
    };
    let mood = if sat < 100 {
        if c.mood.0 >= 1 {
            (c.mood.0 - 1) as u8
        } else {
            0u8
        }
    } else {
        c.mood.0
    };
    Colonist {
        prof: c.prof,
        tier: c.tier,
        mdep: c.mdep,
        sci_spec: c.sci_spec,
        room: c.room,
        satiety: Satiety(sat),
        mood: Mood(mood),
    }
}

/// Whether the colonist survives the hunger tick.
pub open spec fn survives_hunger(c: Colonist) -> bool {
    hunger_step(c).satiety.0 >= 10
}

/// The colonists that outlive the hunger tick, each after their tick, in
/// order.
pub open spec fn hunger_survivors(s: Seq<Colonist>) -> Seq<Colonist>
    decreases s.len(),
{
    if s.len() == 0 {
        Seq::empty()
    } else {
        let prefix = hunger_survivors(s.drop_last());
        if survives_hunger(s.last()) {
            prefix.push(hunger_step(s.last()))
        } else {
            prefix
        }
    }
}

/// The rooms after the hunger tick: every dead colonist's rented place is
/// given back to their room, never below zero.
pub open spec fn free_dead_area(s: Seq<Colonist>, rooms: Seq<Room>) -> Seq<Room>
    decreases s.len(),
{
    if s.len() == 0 {
        rooms
    } else {
        let prev = free_dead_area(s.drop_last(), rooms);
        let c = s.last();
        if !survives_hunger(c) && 0 <= c.room.0 < prev.len() {
            prev.update(
                c.room.0 as int,
                (Room {
                    purpose: prev[c.room.0 as int].purpose,
                    tier: prev[c.room.0 as int].tier,
                    capacity: prev[c.room.0 as int].capacity,
                    occupied: AreaOccupied(
                        if prev[c.room.0 as int].occupied.0 >= COMRAD_RENTED_PLACE {
                            (prev[c.room.0 as int].occupied.0 - COMRAD_RENTED_PLACE) as usize
                        } else {
                            0usize
                        },
                    ),
                }),
            )
        } else {
            prev
        }
    }
}

/// Giving dead colonists' places back changes no room's purpose, tier or
/// capacity, and never raises an occupancy.
pub proof fn lemma_free_dead_area_fields(s: Seq<Colonist>, rooms: Seq<Room>, j: int)
    requires
        0 <= j < rooms.len(),
    ensures
        free_dead_area(s, rooms).len() == rooms.len(),
        free_dead_area(s, rooms)[j].purpose == rooms[j].purpose,
        free_dead_area(s, rooms)[j].tier == rooms[j].tier,
        free_dead_area(s, rooms)[j].capacity == rooms[j].capacity,
        free_dead_area(s, rooms)[j].occupied.0 <= rooms[j].occupied.0,
    decreases s.len(),
{
    if s.len() > 0 {
        lemma_free_dead_area_fields(s.drop_last(), rooms, j);
        let c = s.last();
        if !survives_hunger(c) && 0 <= c.room.0 < free_dead_area(s.drop_last(), rooms).len() {
            lemma_free_dead_area_fields(s.drop_last(), rooms, c.room.0 as int);
        }
    }
}

/// The hunger tick: every colonist loses ten satiety; colonists whose
/// satiety falls below ten die and give their rented place back to their
/// room; colonists below one hundred lose one mood.
pub fn hunger_tick(colony: &mut Colony)
    requires
        old(colony).wf(),
    ensures
        final(colony).wf(),
        final(colony).colonists@ == hunger_survivors(old(colony).colonists@),
        final(colony).colonists@.len() <= old(colony).colonists@.len(),
        final(colony).rooms@ == free_dead_area(old(colony).colonists@, old(colony).rooms@),
        final(colony).stationaries == old(colony).stationaries,
        final(colony).tasks == old(colony).tasks,
        final(colony).shelves == old(colony).shelves,
        final(colony).barrels == old(colony).barrels,
        final(colony).floor_boxes == old(colony).floor_boxes,
        final(colony).rooms@.len() == old(colony).rooms@.len(),
{
    let ghost c0 = colony.colonists@;
    let ghost r0 = colony.rooms@;
    let mut kept: Vec<Colonist> = Vec::new();
    let mut i: usize = 0;
    while i < colony.colonists.len()
        invariant
            colony.colonists@ == c0,
            colony.stationaries == old(colony).stationaries,
            colony.tasks == old(colony).tasks,
            colony.shelves == old(colony).shelves,
            colony.barrels == old(colony).barrels,
            colony.floor_boxes == old(colony).floor_boxes,
            i <= c0.len(),
            kept@.len() <= i,
            c0.len() <= MAX_COMRADS,
            forall|j: int| 0 <= j < c0.len() ==> (#[trigger] c0[j]).wf(r0.len() as int),
            kept@ == hunger_survivors(c0.take(i as int)),
            colony.rooms@ == free_dead_area(c0.take(i as int), r0),
            colony.rooms@.len() == r0.len(),
            forall|j: int|
                0 <= j < r0.len() ==> {
                    &&& (#[trigger] colony.rooms@[j]).purpose == r0[j].purpose
                    &&& colony.rooms@[j].tier == r0[j].tier
                    &&& colony.rooms@[j].capacity == r0[j].capacity
                    &&& colony.rooms@[j].occupied.0 <= r0[j].occupied.0
                },
            forall|k: int|
                0 <= k < kept@.len() ==> (#[trigger] kept@[k]).tier.is_labor_tier() && (
                kept@[k].room.0 as int) < r0.len(),
        decreases c0.len() - i,
    {
        let c = colony.colonists[i];
        proof {
            assert(c0.take(i as int + 1).drop_last() =~= c0.take(i as int));
            assert(c0.take(i as int + 1).last() == c0[i as int]);
            assert(c.wf(r0.len() as int));
        }
        let sat = if c.satiety.0 >= 10 {
            c.satiety.0 - 10
        } else {
            0
        };
        let mood = if sat < 100 {
            if c.mood.0 >= 1 {
                c.mood.0 - 1
            } else {
                0
            }
        } else {
            c.mood.0
        };
        let stepped = Colonist {
            prof: c.prof,
            tier: c.tier,
            mdep: c.mdep,
            sci_spec: c.sci_spec,
            room: c.room,
            satiety: Satiety(sat),
            mood: Mood(mood),
        };
        if sat >= 10 {
            kept.push(stepped);
        } else {
            let room = c.room.0;
            let here = colony.rooms[room];
            let freed = if here.occupied.0 >= COMRAD_RENTED_PLACE {
                here.occupied.0 - COMRAD_RENTED_PLACE
            } else {
                0
            };
            colony.rooms.set(
                room,
                Room {
                    purpose: here.purpose,
                    tier: here.tier,
                    capacity: here.capacity,
                    occupied: AreaOccupied(freed),
                },
            );
        }
        i = i + 1;
    }
    proof {
        assert(c0.take(i as int) =~= c0);
    }
    colony.colonists = kept;
}

/// One colonist after the food round: a fed colonist gains ten satiety and
/// one mood; one who received nothing loses one mood. The satiety gain stops
/// at the counter's limit, the mood moves within its nominal range of zero
/// to ten.
pub open spec fn feed_step(c: Colonist, fed: bool) -> Colonist {
    let sat = if fed {
        if c.satiety.0 <= u16::MAX - 10 {
            (c.satiety.0 + 10) as u16
        } else {
            u16::MAX
        }
    } else {
        c.satiety.0
    };
    let mood = if fed {
        if c.mood.0 < 10 {
            (c.mood.0 + 1) as u8
        } else {
            c.mood.0
        }
    } else {
        if c.mood.0 >= 1 {
            (c.mood.0 - 1) as u8
        } else {
            0u8
        }
    };
    Colonist {
        prof: c.prof,
        tier: c.tier,
        mdep: c.mdep,
        sci_spec: c.sci_spec,
        room: c.room,
        satiety: Satiety(sat),
        mood: Mood(mood),
    }
}

/// The colonists after the food round in which the first `k` of them were
/// fed.
pub open spec fn feed_all(s: Seq<Colonist>, k: int) -> Seq<Colonist> {
    Seq::new(s.len(), |i: int| feed_step(s[i], i < k))
}

/// The food round: one unit of tier-one concentrate per colonist, in store
/// order, while the supply lasts; the consumed total is then written off the
/// storage. Colonists who received none lose one mood.
pub fn consume_concentrat(colony: &mut Colony)
    requires
        old(colony).wf(),
    ensures
        final(colony).wf(),
        ({
            let fed = vstd::math::min(
                crate::storage::spec_units_of(*old(colony), Resource::ConcentratT1),
                old(colony).colonists@.len() as int,
            );
            &&& final(colony).colonists@ == feed_all(old(colony).colonists@, fed)
            &&& crate::storage::total_volume(*final(colony), Resource::ConcentratT1)
                == crate::storage::total_volume(*old(colony), Resource::ConcentratT1) - fed
                * crate::storage::spec_piece_size(Resource::ConcentratT1)
        }),
        forall|r2: Resource|
            r2 != Resource::ConcentratT1 ==> crate::storage::total_volume(*final(colony), r2)
                == crate::storage::total_volume(*old(colony), r2),
        final(colony).stationaries == old(colony).stationaries,
        final(colony).tasks == old(colony).tasks,
        final(colony).rooms@.len() == old(colony).rooms@.len(),
        forall|j: int|
            0 <= j < final(colony).rooms@.len() ==> {
                &&& (#[trigger] final(colony).rooms@[j]).purpose == old(colony).rooms@[j].purpose
                &&& final(colony).rooms@[j].tier == old(colony).rooms@[j].tier
                &&& final(colony).rooms@[j].capacity == old(colony).rooms@[j].capacity
                &&& final(colony).rooms@[j].occupied.0 <= old(colony).rooms@[j].occupied.0
            },
{
    let ghost c0 = colony.colonists@;
    let stock = crate::storage::how_much_we_have(colony, Resource::ConcentratT1);
    let mut remaining = stock.0;
    let ghost fed_total = vstd::math::min(stock.0 as int, c0.len() as int);
    let mut i: usize = 0;
    while i < colony.colonists.len()
        invariant
            colony.colonists@.len() == c0.len(),
            colony.rooms == old(colony).rooms,
            colony.stationaries == old(colony).stationaries,
            colony.tasks == old(colony).tasks,
            colony.shelves == old(colony).shelves,
            colony.barrels == old(colony).barrels,
            colony.floor_boxes == old(colony).floor_boxes,
            i <= c0.len(),
            remaining <= stock.0,
            remaining as int == stock.0 - vstd::math::min(stock.0 as int, i as int),
            forall|j: int|
                0 <= j < i ==> colony.colonists@[j] == feed_step(
                    c0[j],
                    j < vstd::math::min(stock.0 as int, c0.len() as int),
                ),
            forall|j: int| i <= j < c0.len() ==> colony.colonists@[j] == c0[j],
        decreases c0.len() - i,
    {
        let c = colony.colonists[i];
        let fed = remaining > 0;
        let sat = if fed {
            if c.satiety.0 <= u16::MAX - 10 {
                c.satiety.0 + 10
            } else {
                u16::MAX
            }
        } else {
            c.satiety.0
        };
        let mood = if fed {
            if c.mood.0 < 10 {
                c.mood.0 + 1
            } else {
                c.mood.0
            }
        } else {
            if c.mood.0 >= 1 {
                c.mood.0 - 1
            } else {
                0
            }
        };
        if fed {
            remaining = remaining - 1;
        }
        colony.colonists.set(
            i,
            Colonist {
                prof: c.prof,
                tier: c.tier,
                mdep: c.mdep,
                sci_spec: c.sci_spec,
                room: c.room,
                satiety: Satiety(sat),
                mood: Mood(mood),
            },
        );
        i = i + 1;
    }
    let consumed = stock.0 - remaining;
    proof {
        assert(consumed as int == fed_total);
        assert(crate::storage::spec_have_enough(*colony, Resource::ConcentratT1, consumed as int));
        assert(colony.colonists@ =~= feed_all(c0, fed_total));
        assert forall|j: int|
            0 <= j < colony.colonists@.len() implies (#[trigger] colony.colonists@[j]).wf(
            colony.rooms@.len() as int,
        ) by {
            assert(c0[j].wf(colony.rooms@.len() as int));
        }
    }
    crate::storage::writeoff(colony, Resource::ConcentratT1, RealUnits(consumed));
}

/// One full turn of the colony, in fixed phase order: recompute the labor
/// pool, allocate labor to the backlog, sweep completed tasks, promote
/// finished stationaries, run the hunger tick, and hand out food.
#[verifier::rlimit(100)]
#[verifier::spinoff_prover]
pub fn turn(colony: &mut Colony, pool: &mut BuildPowerPool)
    requires
        old(colony).wf(),
        old(pool).wf(),
    ensures
        final(colony).wf(),
        final(pool).wf(),
        forall|i: int| 0 <= i < final(colony).tasks@.len() ==> final(colony).tasks@[i].meta.bp.0 > 0,
        final(colony).tasks@.len() <= old(colony).tasks@.len(),
        final(colony).colonists@.len() <= old(colony).colonists@.len(),
        final(colony).rooms@.len() == old(colony).rooms@.len(),
        final(colony).stationaries@.len() == old(colony).stationaries@.len(),
        ({
            let alloc = spec_alloc_all(
                old(colony).tasks@,
                ledger_pool(old(colony).colonists@),
                equip_vec(old(colony).stationaries@),
                old(colony).tasks@.len() as int,
            );
            let swept = active_tasks(alloc.0);
            let survivors = hunger_survivors(old(colony).colonists@);
            let fed = vstd::math::min(
                crate::storage::spec_units_of(*old(colony), Resource::ConcentratT1),
                survivors.len() as int,
            );
            &&& final(pool).slots@ == alloc.1
            &&& final(colony).tasks@ == swept
            &&& (forall|j: int|
                0 <= j < old(colony).stationaries@.len()
                    ==> (#[trigger] final(colony).stationaries@[j]).kind == old(
                    colony,
                ).stationaries@[j].kind && final(colony).stationaries@[j].room == old(
                    colony,
                ).stationaries@[j].room && final(colony).stationaries@[j].status == promoted_status(
                    old(colony).stationaries@,
                    swept,
                    j,
                ))
            &&& final(colony).colonists@ == feed_all(survivors, fed)
            &&& (forall|j: int|
                0 <= j < old(colony).rooms@.len() ==> (#[trigger] final(colony).rooms@[j]).purpose
                    == old(colony).rooms@[j].purpose && final(colony).rooms@[j].tier == old(
                    colony,
                ).rooms@[j].tier && final(colony).rooms@[j].capacity == old(
                    colony,
                ).rooms@[j].capacity && final(colony).rooms@[j].occupied.0 <= free_dead_area(
                    old(colony).colonists@,
                    old(colony).rooms@,
                )[j].occupied.0)
            &&& crate::storage::total_volume(*final(colony), Resource::ConcentratT1)
                == crate::storage::total_volume(*old(colony), Resource::ConcentratT1) - fed
                * crate::storage::spec_piece_size(Resource::ConcentratT1)
            &&& (forall|r2: Resource|
                r2 != Resource::ConcentratT1 ==> crate::storage::total_volume(*final(colony), r2)
                    == crate::storage::total_volume(*old(colony), r2))
        }),
{
    calc_buildpower(colony, pool);
    process_tasks(colony, pool);
    clean_up_completed_tasks(colony);
    let ghost after_sweep = *colony;
    setup_completed_stationaries(colony);
    let ghost after_setup = *colony;
    hunger_tick(colony);
    let ghost after_hunger = *colony;
    consume_concentrat(colony);
    proof {
        let alloc = spec_alloc_all(
            old(colony).tasks@,
            ledger_pool(old(colony).colonists@),
            equip_vec(old(colony).stationaries@),
            old(colony).tasks@.len() as int,
        );
        let swept = active_tasks(alloc.0);
        let survivors = hunger_survivors(old(colony).colonists@);
        assert(pool.slots@ == alloc.1);
        assert(after_sweep.tasks@ == swept);
        assert(colony.tasks@ == after_sweep.tasks@);
        assert(colony.stationaries@ == after_setup.stationaries@);
        assert(after_sweep.stationaries@ == old(colony).stationaries@);
        assert forall|j: int|
            0 <= j < old(colony).stationaries@.len() implies (#[trigger] colony.stationaries@[j]).kind
            == old(colony).stationaries@[j].kind && colony.stationaries@[j].room == old(
            colony,
        ).stationaries@[j].room && colony.stationaries@[j].status == promoted_status(
            old(colony).stationaries@,
            swept,
            j,
        ) by {
            assert(after_setup.stationaries@[j].kind == after_sweep.stationaries@[j].kind);
            assert(after_setup.stationaries@[j].room == after_sweep.stationaries@[j].room);
            assert(after_setup.stationaries@[j].status == promoted_status(
                after_sweep.stationaries@,
                after_sweep.tasks@,
                j,
            ));
        }
        assert(after_hunger.colonists@ == survivors);
        assert(crate::storage::total_volume(after_hunger, Resource::ConcentratT1)
            == crate::storage::total_volume(*old(colony), Resource::ConcentratT1));
        let fed = vstd::math::min(
            crate::storage::spec_units_of(*old(colony), Resource::ConcentratT1),
            survivors.len() as int,
        );
        assert(crate::storage::spec_units_of(after_hunger, Resource::ConcentratT1)
            == crate::storage::spec_units_of(*old(colony), Resource::ConcentratT1));
        assert(colony.colonists@ == feed_all(survivors, fed));
        assert(after_hunger.rooms@ == free_dead_area(old(colony).colonists@, old(colony).rooms@));
        assert forall|j: int|
            0 <= j < old(colony).rooms@.len() implies (#[trigger] colony.rooms@[j]).purpose == old(
            colony,
        ).rooms@[j].purpose && colony.rooms@[j].tier == old(colony).rooms@[j].tier
            && colony.rooms@[j].capacity == old(colony).rooms@[j].capacity
            && colony.rooms@[j].occupied.0 <= free_dead_area(
            old(colony).colonists@,
            old(colony).rooms@,
        )[j].occupied.0 by {
            assert(colony.rooms@[j].purpose == after_hunger.rooms@[j].purpose);
            assert(colony.rooms@[j].tier == after_hunger.rooms@[j].tier);
            assert(colony.rooms@[j].capacity == after_hunger.rooms@[j].capacity);
            assert(colony.rooms@[j].occupied.0 <= after_hunger.rooms@[j].occupied.0);
            assert(after_setup.rooms@ == old(colony).rooms@);
            assert(after_hunger.rooms@ == free_dead_area(
                old(colony).colonists@,
                old(colony).rooms@,
            ));
            lemma_free_dead_area_fields(old(colony).colonists@, old(colony).rooms@, j);
        }
        assert(crate::storage::total_volume(*colony, Resource::ConcentratT1)
            == crate::storage::total_volume(*old(colony), Resource::ConcentratT1) - fed
            * crate::storage::spec_piece_size(Resource::ConcentratT1));
        assert forall|r2: Resource|
            r2 != Resource::ConcentratT1 implies crate::storage::total_volume(*colony, r2)
            == crate::storage::total_volume(*old(colony), r2) by {
            assert(crate::storage::total_volume(*colony, r2) == crate::storage::total_volume(
                after_hunger,
                r2,
            ));
        }
    }
}

} // verus!
