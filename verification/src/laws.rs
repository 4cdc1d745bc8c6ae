//! The engine's global laws: determinism of a tick, independence from the
//! population's storage order, and the neutrality of neighbor forces for a
//! lone agent.

use vstd::prelude::*;

use crate::common::RectangleV;
use crate::sums::{isum, lemma_isum_multiset, lemma_map_multiset, lemma_vsum_multiset, vsum};
use crate::swarm::{
    acceleration, alignment, att_ind, att_pos_contrib, att_vel_contrib, attraction,
    attractor_count, lemma_clamp_speed_bounds, rep_contrib, repulsion, step_agent, step_contrib,
    step_swarm, wall_axis, SwarmerV, MAX_SPEED, MIN_SPEED, SPEED_SLACK, WALL_REPULSION_FACTOR,
};
use crate::vec2::{dist2, div_t, Vec2v, SCALE};

verus! {

/// A population driven through one tick per entry of `dts`.
pub open spec fn run_swarm(s: Seq<SwarmerV>, b: RectangleV, dts: Seq<int>) -> Seq<SwarmerV>
    decreases dts.len(),
{
    if dts.len() == 0 {
        s
    } else {
        run_swarm(step_swarm(s, b, dts.first()), b, dts.drop_first())
    }
}

/// Speed bound and containment: after any tick, every agent's integer speed
/// lies within `[MIN_SPEED - SPEED_SLACK, MAX_SPEED]` (the slack absorbs
/// fixed-point rounding below the lower bound) and every agent's position
/// lies inside the arena, whatever state the population started from.
pub proof fn lemma_step_swarm_bounds(s: Seq<SwarmerV>, b: RectangleV, dt: int)
    requires
        b.wf(),
    ensures
        step_swarm(s, b, dt).len() == s.len(),
        forall|i: int|
            0 <= i < s.len() ==> MIN_SPEED - SPEED_SLACK
                <= (#[trigger] step_swarm(s, b, dt)[i]).velocity.norm() <= MAX_SPEED,
        forall|i: int|
            0 <= i < s.len() ==> b.contains(
                (#[trigger] step_swarm(s, b, dt)[i]).position.x,
                step_swarm(s, b, dt)[i].position.y,
            ),
{
    assert forall|i: int| 0 <= i < s.len() implies MIN_SPEED - SPEED_SLACK
        <= (#[trigger] step_swarm(s, b, dt)[i]).velocity.norm() <= MAX_SPEED && b.contains(
        step_swarm(s, b, dt)[i].position.x,
        step_swarm(s, b, dt)[i].position.y,
    ) by {
        let a = s[i];
        let acc = acceleration(a, s, b);
        assert(step_swarm(s, b, dt)[i] == step_agent(a, acc, b, dt));
        lemma_clamp_speed_bounds(
            Vec2v {
                x: a.velocity.x + div_t(acc.x * dt, SCALE as int),
                y: a.velocity.y + div_t(acc.y * dt, SCALE as int),
            },
        );
    }
}

/// Determinism: a tick is a pure function of the prior population, the arena
/// and the time step — equal inputs give equal (bit-for-bit) results, so a
/// rerun from the same initial population over the same `dt` sequence retraces
/// the same trajectory.
pub proof fn lemma_step_deterministic(
    s1: Seq<SwarmerV>,
    s2: Seq<SwarmerV>,
    b1: RectangleV,
    b2: RectangleV,
    dt1: int,
    dt2: int,
)
    requires
        s1 == s2,
        b1 == b2,
        dt1 == dt2,
    ensures
        step_swarm(s1, b1, dt1) == step_swarm(s2, b2, dt2),
{
}

/// Determinism over a whole run: an identical initial population, arena and
/// sequence of time steps retrace the identical trajectory.
pub proof fn lemma_run_deterministic(
    s1: Seq<SwarmerV>,
    s2: Seq<SwarmerV>,
    b1: RectangleV,
    b2: RectangleV,
    dts1: Seq<int>,
    dts2: Seq<int>,
)
    requires
        s1 == s2,
        b1 == b2,
        dts1 == dts2,
    ensures
        run_swarm(s1, b1, dts1) == run_swarm(s2, b2, dts2),
{
}

/// The acceleration of an agent depends only on which agents make up the
/// population, not on the order they are stored in.
pub proof fn lemma_acceleration_order_independent(
    a: SwarmerV,
    s1: Seq<SwarmerV>,
    s2: Seq<SwarmerV>,
    b: RectangleV,
)
    requires
        s1.to_multiset() == s2.to_multiset(),
    ensures
        acceleration(a, s1, b) == acceleration(a, s2, b),
{
    lemma_vsum_multiset(s1, s2, rep_contrib(a.position));
    lemma_vsum_multiset(s1, s2, att_pos_contrib(a.position));
    lemma_vsum_multiset(s1, s2, att_vel_contrib(a.position));
    lemma_isum_multiset(s1, s2, att_ind(a.position));
}

/// Order independence: permuting the internal storage order of the agents
/// before a tick permutes the result the same way — the multiset of
/// (position, velocity) states after the tick is unchanged. This is the
/// snapshot/apply discipline made precise.
pub proof fn lemma_step_swarm_order_independent(
    s1: Seq<SwarmerV>,
    s2: Seq<SwarmerV>,
    b: RectangleV,
    dt: int,
)
    requires
        s1.to_multiset() == s2.to_multiset(),
    ensures
        step_swarm(s1, b, dt).to_multiset() == step_swarm(s2, b, dt).to_multiset(),
{
    assert forall|a: SwarmerV| #[trigger] step_contrib(s1, b, dt)(a) == step_contrib(s2, b, dt)(
        a,
    ) by {
        lemma_acceleration_order_independent(a, s1, s2, b);
    }
    lemma_map_multiset(s1, s2, step_contrib(s1, b, dt), step_contrib(s2, b, dt));
}

/// Self-neutral forces: a lone agent draws zero repulsion, attraction and
/// alignment from the population (it is its own only attractor, whose
/// centroid and mean velocity are its own), so its whole acceleration is the
/// weighted wall repulsion.
pub proof fn lemma_lone_agent_forces(a: SwarmerV, b: RectangleV)
    ensures
        repulsion(a.position, seq![a]) == Vec2v::zero(),
        attraction(a, seq![a]) == Vec2v::zero(),
        alignment(a, seq![a]) == Vec2v::zero(),
        acceleration(a, seq![a], b) == (Vec2v {
            x: WALL_REPULSION_FACTOR * wall_axis(a.position.x, b.xrange),
            y: WALL_REPULSION_FACTOR * wall_axis(a.position.y, b.yrange),
        }),
{
    let s = seq![a];
    let p = a.position;
    assert(s.drop_last() =~= Seq::<SwarmerV>::empty());
    assert(s.last() == a);
    assert(p.minus(p) == (Vec2v { x: 0, y: 0 }));
    assert(dist2(p, p) == 0);

    // The lone agent is no repulsor of itself, so the repulsion sum is the
    // empty sum.
    assert(vsum(Seq::<SwarmerV>::empty(), rep_contrib(p)) == Vec2v::zero());
    assert(rep_contrib(p)(a) == Vec2v::zero());
    assert(repulsion(p, s) == Vec2v::zero().plus(Vec2v::zero()));

    // It is its own only attractor: the count is one and the sums are its own
    // position and velocity, which a division by one returns unchanged.
    assert(isum(Seq::<SwarmerV>::empty(), att_ind(p)) == 0);
    assert(att_ind(p)(a) == 1);
    assert(attractor_count(p, s) == 1);
    assert(vsum(Seq::<SwarmerV>::empty(), att_pos_contrib(p)) == Vec2v::zero());
    assert(att_pos_contrib(p)(a) == p);
    assert(vsum(s, att_pos_contrib(p)) == Vec2v::zero().plus(p));
    assert(div_t(p.x, 1) == p.x && div_t(p.y, 1) == p.y);
    assert(attraction(a, s) == Vec2v::zero());
    assert(vsum(Seq::<SwarmerV>::empty(), att_vel_contrib(p)) == Vec2v::zero());
    assert(att_vel_contrib(p)(a) == a.velocity);
    assert(vsum(s, att_vel_contrib(p)) == Vec2v::zero().plus(a.velocity));
    assert(div_t(a.velocity.x, 1) == a.velocity.x && div_t(a.velocity.y, 1) == a.velocity.y);
    assert(alignment(a, s) == Vec2v::zero());

    assert(div_t(0, 20) == 0 && div_t(0, 2000) == 0);
}

} // verus!
