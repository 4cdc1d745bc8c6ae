//! The flocking engine: agents, the four composed forces, and the swarm with
//! its two-phase (snapshot, then apply) tick.
//!
//! Every quantity is fixed-point: thousandths of a world unit. The mathematical
//! model of a tick is the family of spec functions ending in [`step_swarm`];
//! each executable function returns exactly what its spec function states.

use vstd::prelude::*;

use crate::common::{limit, Range, Rectangle, RectangleV, RangeV, MAX_COORD};
use crate::sums::{
    isum, lemma_filter_len_isum, lemma_filter_member, lemma_filter_take_step, lemma_vsum_filter,
    lemma_vsum_take_step, vsum,
};
use crate::vec2::{
    dist2, div_t, div_trunc, isqrt, lemma_component_le_norm, lemma_div_t_bound, lemma_div_t_near,
    lemma_isqrt_between, lemma_isqrt_spec, lemma_isqrt_unique, normalize_scaled, unit_scaled, Vec2,
    Vec2v, SCALE,
};

verus! {

/// Neighbors closer than this (strictly) repel, in thousandths of a unit.
pub const REPULSION_RANGE: i64 = 8_000;

/// Neighbors closer than this (strictly) attract and align.
pub const ATTRACTION_RANGE: i64 = 40_000;

/// Within this distance of an arena edge the wall pushes back.
pub const WALL_REPULSION_RANGE: i64 = 200_000;

/// Neighbors at or below this distance count as coincident and exert no
/// repulsion (their direction would be undefined).
pub const MIN_NEIGHBOR_DIST: i64 = 1;

/// Repulsion weight 0.05, as the divisor of the raw repulsion sum.
pub const REPULSION_DIVISOR: i64 = 20;

/// Attraction weight 0.0005, as the divisor of the raw attraction offset.
pub const ATTRACTION_DIVISOR: i64 = 2_000;

/// Alignment weight 0.05, as the divisor of the raw alignment offset.
pub const ALIGNMENT_DIVISOR: i64 = 20;

/// Wall-repulsion weight 2.0.
pub const WALL_REPULSION_FACTOR: i64 = 2;

/// The numerator of the wall force `1 / (0.01 + d)` in fixed-point form:
/// `SCALE * SCALE`, so that the quotient is again in thousandths.
pub const WALL_REPULSION_NUMER: i64 = 1_000_000;

/// The `0.01` offset of the wall force, in thousandths of a unit.
pub const WALL_OFFSET: i64 = 10;

/// Least speed after a tick, in thousandths of a unit per second.
pub const MIN_SPEED: i64 = 3_000;

/// Greatest speed after a tick.
pub const MAX_SPEED: i64 = 6_000;

/// Integer rounding may leave a clamped speed up to this far below
/// [`MIN_SPEED`]; it never exceeds [`MAX_SPEED`].
pub const SPEED_SLACK: i64 = 3;

/// Initial velocity component of a fresh agent: 0.1 units per second on each
/// axis, so a newborn agent never has the zero velocity.
pub const INITIAL_VELOCITY: i64 = 100;

/// Largest population a tick is specified for (keeps force sums in `i64`).
pub const MAX_AGENTS: usize = 100_000;

/// Largest time step a tick is specified for: one thousand seconds.
pub const MAX_DT: i64 = 1_000_000;

/// Bound on the magnitude of each composed acceleration component.
pub const ACCEL_BOUND: i64 = 7_000_000;

/// A single flocking agent: a position and a velocity.
#[derive(Clone, Copy, Debug)]
pub struct Swarmer {
    position: Vec2,
    velocity: Vec2,
}

/// Mathematical model of a [`Swarmer`].
pub ghost struct SwarmerV {
    pub position: Vec2v,
    pub velocity: Vec2v,
}

impl View for Swarmer {
    type V = SwarmerV;

    closed spec fn view(&self) -> SwarmerV {
        SwarmerV { position: self.position@, velocity: self.velocity@ }
    }
}

/// The models of a sequence of agents.
pub open spec fn views(s: Seq<Swarmer>) -> Seq<SwarmerV> {
    s.map_values(|m: Swarmer| m@)
}

/// A velocity an agent can hold: each component within the speed band's upper
/// bound (true of the initial velocity and preserved by every tick).
pub open spec fn vel_ok(v: Vec2v) -> bool {
    -MAX_SPEED <= v.x <= MAX_SPEED && -MAX_SPEED <= v.y <= MAX_SPEED
}

impl SwarmerV {
    /// An agent that a tick is specified for: inside the arena, with a
    /// velocity inside the component band.
    pub open spec fn wf_in(self, b: RectangleV) -> bool {
        b.contains(self.position.x, self.position.y) && vel_ok(self.velocity)
    }
}

/// A population a tick is specified for.
pub open spec fn swarm_wf(s: Seq<SwarmerV>, b: RectangleV) -> bool {
    s.len() <= MAX_AGENTS && forall|i: int| 0 <= i < s.len() ==> #[trigger] s[i].wf_in(b)
}

/// Strictly between `lo2` and `hi2` in squared distance from `p`.
pub open spec fn band_pred(p: Vec2v, lo2: int, hi2: int) -> spec_fn(SwarmerV) -> bool {
    |o: SwarmerV| lo2 < dist2(p, o.position) < hi2
}

/// The repulsor band: nearer than [`REPULSION_RANGE`], farther than
/// [`MIN_NEIGHBOR_DIST`] (which excludes the agent itself).
pub open spec fn repulsor_pred(p: Vec2v) -> spec_fn(SwarmerV) -> bool {
    band_pred(p, MIN_NEIGHBOR_DIST * MIN_NEIGHBOR_DIST, REPULSION_RANGE * REPULSION_RANGE)
}

/// The attractor band: nearer than [`ATTRACTION_RANGE`], the agent itself
/// included (distance zero qualifies).
pub open spec fn attractor_pred(p: Vec2v) -> spec_fn(SwarmerV) -> bool {
    band_pred(p, -1, ATTRACTION_RANGE * ATTRACTION_RANGE)
}

/// The unit vector away from a neighbor, at fixed-point length [`SCALE`].
pub open spec fn away_contrib(p: Vec2v) -> spec_fn(SwarmerV) -> Vec2v {
    |o: SwarmerV| unit_scaled(p.minus(o.position))
}

/// The repulsion contribution of one member of the population: a unit vector
/// away from it if it is a repulsor of `p`, else zero.
pub open spec fn rep_contrib(p: Vec2v) -> spec_fn(SwarmerV) -> Vec2v {
    |o: SwarmerV| if repulsor_pred(p)(o) {
        away_contrib(p)(o)
    } else {
        Vec2v::zero()
    }
}

/// An agent's position.
pub open spec fn pos_sel() -> spec_fn(SwarmerV) -> Vec2v {
    |o: SwarmerV| o.position
}

/// An agent's velocity.
pub open spec fn vel_sel() -> spec_fn(SwarmerV) -> Vec2v {
    |o: SwarmerV| o.velocity
}

/// The position of an attractor of `p`, zero for other members.
pub open spec fn att_pos_contrib(p: Vec2v) -> spec_fn(SwarmerV) -> Vec2v {
    |o: SwarmerV| if attractor_pred(p)(o) {
        pos_sel()(o)
    } else {
        Vec2v::zero()
    }
}

/// The velocity of an attractor of `p`, zero for other members.
pub open spec fn att_vel_contrib(p: Vec2v) -> spec_fn(SwarmerV) -> Vec2v {
    |o: SwarmerV| if attractor_pred(p)(o) {
        vel_sel()(o)
    } else {
        Vec2v::zero()
    }
}

/// One where the member is an attractor of `p`, zero elsewhere.
pub open spec fn att_ind(p: Vec2v) -> spec_fn(SwarmerV) -> int {
    |o: SwarmerV| if attractor_pred(p)(o) {
        1int
    } else {
        0int
    }
}

/// The repulsion force on an agent at `p`: the sum of unit vectors away from
/// every repulsor, each with unit weight.
pub open spec fn repulsion(p: Vec2v, s: Seq<SwarmerV>) -> Vec2v {
    vsum(s, rep_contrib(p))
}

/// How many members of `s` attract an agent at `p` (the agent itself counts).
pub open spec fn attractor_count(p: Vec2v, s: Seq<SwarmerV>) -> int {
    isum(s, att_ind(p))
}

/// The attraction force: the offset from the agent to the centroid of its
/// attractors (zero for an empty attractor set, which self-inclusion rules
/// out whenever the agent is a member of the population).
pub open spec fn attraction(a: SwarmerV, s: Seq<SwarmerV>) -> Vec2v {
    let n = attractor_count(a.position, s);
    if n <= 0 {
        Vec2v::zero()
    } else {
        let sum = vsum(s, att_pos_contrib(a.position));
        Vec2v { x: div_t(sum.x, n) - a.position.x, y: div_t(sum.y, n) - a.position.y }
    }
}

/// The alignment force: the offset from the agent's velocity to the mean
/// velocity of its attractors (zero for an empty attractor set).
pub open spec fn alignment(a: SwarmerV, s: Seq<SwarmerV>) -> Vec2v {
    let n = attractor_count(a.position, s);
    if n <= 0 {
        Vec2v::zero()
    } else {
        let sum = vsum(s, att_vel_contrib(a.position));
        Vec2v { x: div_t(sum.x, n) - a.velocity.x, y: div_t(sum.y, n) - a.velocity.y }
    }
}

/// The wall force along one axis: `1 / (0.01 + d)` toward the inside for the
/// near minimum edge, else the mirrored value for the near maximum edge, else
/// zero. The `else` gives the minimum edge precedence in narrow arenas.
pub open spec fn wall_axis(p: int, r: RangeV) -> int {
    if p - r.min < WALL_REPULSION_RANGE {
        div_t(WALL_REPULSION_NUMER as int, WALL_OFFSET + (p - r.min))
    } else if r.max - p < WALL_REPULSION_RANGE {
        -div_t(WALL_REPULSION_NUMER as int, WALL_OFFSET + (r.max - p))
    } else {
        0
    }
}

/// The wall-repulsion force: the per-axis wall forces composed as a vector.
pub open spec fn wall_repulsion(p: Vec2v, b: RectangleV) -> Vec2v {
    Vec2v { x: wall_axis(p.x, b.xrange), y: wall_axis(p.y, b.yrange) }
}

/// The composed acceleration of one agent against the full population: the
/// four forces combined with their weights.
pub open spec fn acceleration(a: SwarmerV, s: Seq<SwarmerV>, b: RectangleV) -> Vec2v {
    let rep = repulsion(a.position, s);
    let att = attraction(a, s);
    let ali = alignment(a, s);
    let wal = wall_repulsion(a.position, b);
    Vec2v {
        x: div_t(rep.x, REPULSION_DIVISOR as int) + div_t(att.x, ATTRACTION_DIVISOR as int)
            + div_t(ali.x, ALIGNMENT_DIVISOR as int) + WALL_REPULSION_FACTOR * wal.x,
        y: div_t(rep.y, REPULSION_DIVISOR as int) + div_t(att.y, ATTRACTION_DIVISOR as int)
            + div_t(ali.y, ALIGNMENT_DIVISOR as int) + WALL_REPULSION_FACTOR * wal.y,
    }
}

/// `v` rescaled so that a vector of length `r` gets length `s`, each component
/// rounded toward zero.
pub open spec fn scale_to(v: Vec2v, s: int, r: int) -> Vec2v {
    Vec2v { x: div_t(v.x * s, r), y: div_t(v.y * s, r) }
}

/// The speed clamp: a velocity whose length lies inside
/// `[MIN_SPEED, MAX_SPEED]` is kept; a faster or slower one is rescaled to the
/// nearer bound; one too short to have a direction (integer length zero)
/// collapses to a fixed default heading at [`MIN_SPEED`].
pub open spec fn clamp_speed(v: Vec2v) -> Vec2v {
    let r = v.norm();
    if r == 0 {
        Vec2v { x: MIN_SPEED as int, y: 0 }
    } else if r < MIN_SPEED {
        scale_to(v, MIN_SPEED as int, r)
    } else if r > MAX_SPEED {
        scale_to(v, MAX_SPEED as int, r)
    } else {
        v
    }
}

/// One agent's integration step: velocity plus weighted acceleration, the
/// speed clamp, position plus weighted velocity, and the arena clamp.
pub open spec fn step_agent(a: SwarmerV, acc: Vec2v, b: RectangleV, dt: int) -> SwarmerV {
    let v1 = Vec2v {
        x: a.velocity.x + div_t(acc.x * dt, SCALE as int),
        y: a.velocity.y + div_t(acc.y * dt, SCALE as int),
    };
    let v2 = clamp_speed(v1);
    SwarmerV {
        position: Vec2v {
            x: b.xrange.clamp(a.position.x + div_t(v2.x * dt, SCALE as int)),
            y: b.yrange.clamp(a.position.y + div_t(v2.y * dt, SCALE as int)),
        },
        velocity: v2,
    }
}

/// One whole tick of an agent as a function of the (pre-tick) population.
pub open spec fn step_contrib(s: Seq<SwarmerV>, b: RectangleV, dt: int) -> spec_fn(
    SwarmerV,
) -> SwarmerV {
    |a: SwarmerV| step_agent(a, acceleration(a, s, b), b, dt)
}

/// One whole tick of the swarm: every agent stepped against the same
/// pre-tick population snapshot.
pub open spec fn step_swarm(s: Seq<SwarmerV>, b: RectangleV, dt: int) -> Seq<SwarmerV> {
    s.map_values(step_contrib(s, b, dt))
}

/// Rescaling a vector of integer length `r` toward target length `s` keeps
/// each component within `s` and lands the squared length within the
/// bracketed band (stated multiplied through by `r * r`).
pub proof fn lemma_scale_to_bounds(v: Vec2v, s: int, r: int)
    requires
        1 <= r,
        1 <= s,
        r * r <= v.norm2(),
        v.norm2() < (r + 1) * (r + 1),
    ensures
        -s <= scale_to(v, s, r).x <= s,
        -s <= scale_to(v, s, r).y <= s,
        r * r * scale_to(v, s, r).norm2() <= s * s * (r * r) + 2 * (s * s) * r,
        r * r * scale_to(v, s, r).norm2() >= s * s * (r * r) - 4 * s * (r * r),
{
    let n2 = v.norm2();
    lemma_isqrt_unique(n2, r);
    lemma_component_le_norm(v);
    let mx = v.x * s;
    let my = v.y * s;
    let qx = div_t(mx, r);
    let qy = div_t(my, r);
    let ax = if v.x >= 0 {
        v.x
    } else {
        -v.x
    };
    let ay = if v.y >= 0 {
        v.y
    } else {
        -v.y
    };
    assert(-(s * r) <= mx <= s * r && -(s * r) <= my <= s * r) by (nonlinear_arith)
        requires
            -r <= v.x <= r,
            -r <= v.y <= r,
            s >= 1,
            mx == v.x * s,
            my == v.y * s;
    lemma_div_t_bound(mx, r, s);
    lemma_div_t_bound(my, r, s);
    lemma_div_t_near(mx, r);
    lemma_div_t_near(my, r);
    assert((r * qx) * (r * qx) <= mx * mx && (r * qx) * (r * qx) >= mx * mx - 2 * r * (ax * s))
        by (nonlinear_arith)
        requires
            r >= 1,
            s >= 1,
            mx == v.x * s,
            ax == (if v.x >= 0 {
                v.x
            } else {
                -v.x
            }),
            mx >= 0 ==> qx >= 0 && mx - (r - 1) <= r * qx <= mx,
            mx < 0 ==> qx <= 0 && mx <= r * qx <= mx + (r - 1);
    assert((r * qy) * (r * qy) <= my * my && (r * qy) * (r * qy) >= my * my - 2 * r * (ay * s))
        by (nonlinear_arith)
        requires
            r >= 1,
            s >= 1,
            my == v.y * s,
            ay == (if v.y >= 0 {
                v.y
            } else {
                -v.y
            }),
            my >= 0 ==> qy >= 0 && my - (r - 1) <= r * qy <= my,
            my < 0 ==> qy <= 0 && my <= r * qy <= my + (r - 1);
    let nn = scale_to(v, s, r).norm2();
    assert(r * r * nn == (r * qx) * (r * qx) + (r * qy) * (r * qy)) by (nonlinear_arith)
        requires
            nn == qx * qx + qy * qy;
    assert(mx * mx + my * my == (s * s) * n2) by (nonlinear_arith)
        requires
            mx == v.x * s,
            my == v.y * s,
            n2 == v.x * v.x + v.y * v.y;
    assert(n2 <= r * r + 2 * r) by (nonlinear_arith)
        requires
            n2 < (r + 1) * (r + 1);
    assert((s * s) * n2 <= s * s * (r * r) + 2 * (s * s) * r) by (nonlinear_arith)
        requires
            n2 <= r * r + 2 * r,
            s >= 1;
    assert(2 * r * (ax * s) + 2 * r * (ay * s) <= 4 * s * (r * r)) by (nonlinear_arith)
        requires
            0 <= ax <= r,
            0 <= ay <= r,
            s >= 1,
            r >= 1;
    assert((s * s) * n2 >= s * s * (r * r)) by (nonlinear_arith)
        requires
            n2 >= r * r,
            s >= 1;
}

/// The speed clamp always lands the velocity's integer length inside
/// `[MIN_SPEED - SPEED_SLACK, MAX_SPEED]` (the slack absorbs fixed-point
/// rounding), and each component inside the `MAX_SPEED` band.
pub proof fn lemma_clamp_speed_bounds(v: Vec2v)
    ensures
        vel_ok(clamp_speed(v)),
        MIN_SPEED - SPEED_SLACK <= clamp_speed(v).norm() <= MAX_SPEED,
{
    let n2 = v.norm2();
    assert(v.x * v.x + v.y * v.y >= 0) by (nonlinear_arith);
    lemma_isqrt_spec(n2);
    let r = v.norm();
    let w = clamp_speed(v);
    lemma_component_le_norm(v);
    if r == 0 {
        assert(w.norm2() == 9_000_000);
        lemma_isqrt_unique(9_000_000, 3_000);
    } else if r < MIN_SPEED {
        lemma_scale_to_bounds(v, MIN_SPEED as int, r);
        let nn = w.norm2();
        assert(8_988_000 <= nn <= 27_000_000) by (nonlinear_arith)
            requires
                1 <= r < 3_000,
                r * r * nn <= 9_000_000 * (r * r) + 18_000_000 * r,
                r * r * nn >= 9_000_000 * (r * r) - 12_000 * (r * r);
        lemma_isqrt_between(nn, 2_997, 6_000);
    } else if r > MAX_SPEED {
        lemma_scale_to_bounds(v, MAX_SPEED as int, r);
        let nn = w.norm2();
        assert(35_976_000 <= nn <= 36_012_000) by (nonlinear_arith)
            requires
                r >= 6_001,
                r * r * nn <= 36_000_000 * (r * r) + 72_000_000 * r,
                r * r * nn >= 36_000_000 * (r * r) - 24_000 * (r * r);
        lemma_isqrt_between(nn, 5_997, 6_000);
    }
}

/// A position inside the coordinate band (every position inside a well-formed
/// arena satisfies it).
pub open spec fn pos_ok(v: Vec2v) -> bool {
    -MAX_COORD <= v.x <= MAX_COORD && -MAX_COORD <= v.y <= MAX_COORD
}

impl Swarmer {
    /// Creates an agent at `position` with the fixed non-zero initial
    /// velocity, so its heading is well-defined from birth.
    pub fn new(position: Vec2) -> (s: Swarmer)
        ensures
            s@.position == position@,
            s@.velocity == (Vec2v { x: INITIAL_VELOCITY as int, y: INITIAL_VELOCITY as int }),
            vel_ok(s@.velocity),
    {
        Swarmer { position, velocity: Vec2 { x: INITIAL_VELOCITY, y: INITIAL_VELOCITY } }
    }

    /// The agent's position.
    pub fn get_position(&self) -> (p: Vec2)
        ensures
            p@ == self@.position,
    {
        self.position
    }

    /// The agent's velocity.
    pub fn get_velocity(&self) -> (v: Vec2)
        ensures
            v@ == self@.velocity,
    {
        self.velocity
    }

    /// One integration step: apply the acceleration over `dt`, clamp the
    /// speed into `[MIN_SPEED, MAX_SPEED]`, move, and clamp the position into
    /// the arena.
    fn update(&mut self, acceleration: Vec2, limits: &Rectangle, dt: i64)
        requires
            vel_ok(old(self)@.velocity),
            pos_ok(old(self)@.position),
            -ACCEL_BOUND <= acceleration.x <= ACCEL_BOUND,
            -ACCEL_BOUND <= acceleration.y <= ACCEL_BOUND,
            limits@.wf(),
            0 <= dt <= MAX_DT,
        ensures
            final(self)@ == step_agent(old(self)@, acceleration@, limits@, dt as int),
            final(self)@.wf_in(limits@),
            MIN_SPEED - SPEED_SLACK <= final(self)@.velocity.norm() <= MAX_SPEED,
    {
        // Velocity integration.
        proof {
            assert(-7_000_000_000_000 <= (acceleration.x as int) * (dt as int)
                <= 7_000_000_000_000 && -7_000_000_000_000 <= (acceleration.y as int) * (dt as int)
                <= 7_000_000_000_000) by (nonlinear_arith)
                requires
                    -7_000_000 <= acceleration.x as int <= 7_000_000,
                    -7_000_000 <= acceleration.y as int <= 7_000_000,
                    0 <= dt as int <= 1_000_000;
        }
        let vx = self.velocity.x + div_trunc(acceleration.x * dt, SCALE);
        let vy = self.velocity.y + div_trunc(acceleration.y * dt, SCALE);
        let ghost v1 = Vec2v { x: vx as int, y: vy as int };

        // Speed clamp.
        proof {
            assert(0 <= (vx as int) * (vx as int) <= 0x4000_0000_0000_0000_0000_0000int)
                by (nonlinear_arith)
                requires
                    -8_000_000_000_000 <= vx as int <= 8_000_000_000_000;
            assert(0 <= (vy as int) * (vy as int) <= 0x4000_0000_0000_0000_0000_0000int)
                by (nonlinear_arith)
                requires
                    -8_000_000_000_000 <= vy as int <= 8_000_000_000_000;
        }
        let n2: i128 = (vx as i128) * (vx as i128) + (vy as i128) * (vy as i128);
        proof {
            assert((vx as i128) as int == vx as int && (vy as i128) as int == vy as int);
            assert(n2 as int == v1.norm2());
            assert((n2 as u128) as int == n2 as int);
        }
        let r64 = isqrt(n2 as u128);
        proof {
            assert(r64 as int == v1.norm());
            assert(r64 < 0x1_0000_0000_0000u64) by (nonlinear_arith)
                requires
                    0 <= r64 as int,
                    (r64 as int) * (r64 as int) <= 0x8000_0000_0000_0000_0000_0000int;
            lemma_clamp_speed_bounds(v1);
            if r64 >= 1 {
                lemma_component_le_norm(v1);
            }
        }
        let velocity = if r64 == 0 {
            Vec2 { x: MIN_SPEED, y: 0 }
        } else {
            let r = r64 as i64;
            if r < MIN_SPEED {
                Vec2 { x: div_trunc(vx * MIN_SPEED, r), y: div_trunc(vy * MIN_SPEED, r) }
            } else if r > MAX_SPEED {
                Vec2 { x: div_trunc(vx * MAX_SPEED, r), y: div_trunc(vy * MAX_SPEED, r) }
            } else {
                Vec2 { x: vx, y: vy }
            }
        };
        proof {
            assert(velocity@ == clamp_speed(v1));
            assert(vel_ok(velocity@));
        }

        // Position integration and arena clamp.
        proof {
            assert(-6_000_000_000 <= (velocity.x as int) * (dt as int) <= 6_000_000_000
                && -6_000_000_000 <= (velocity.y as int) * (dt as int) <= 6_000_000_000)
                by (nonlinear_arith)
                requires
                    -6_000 <= velocity.x as int <= 6_000,
                    -6_000 <= velocity.y as int <= 6_000,
                    0 <= dt as int <= 1_000_000;
        }
        let px = limit(self.position.x + div_trunc(velocity.x * dt, SCALE), &limits.xrange);
        let py = limit(self.position.y + div_trunc(velocity.y * dt, SCALE), &limits.yrange);
        self.velocity = velocity;
        self.position = Vec2 { x: px, y: py };
    }
}

/// Computes the squared distance from `swarmer` to every member of `others`,
/// in storage order.
pub fn compute_squared_distances(swarmer: &Swarmer, others: &Vec<Swarmer>) -> (d: Vec<i64>)
    requires
        pos_ok(swarmer@.position),
        forall|j: int| 0 <= j < others@.len() ==> pos_ok(#[trigger] others@[j]@.position),
    ensures
        d@.len() == others@.len(),
        forall|j: int|
            0 <= j < others@.len() ==> #[trigger] d@[j] == dist2(
                swarmer@.position,
                others@[j]@.position,
            ),
{
    let mut d: Vec<i64> = Vec::new();
    let mut i: usize = 0;
    while i < others.len()
        invariant
            i <= others@.len(),
            d@.len() == i,
            pos_ok(swarmer@.position),
            forall|j: int| 0 <= j < others@.len() ==> pos_ok(#[trigger] others@[j]@.position),
            forall|j: int|
                0 <= j < i ==> #[trigger] d@[j] == dist2(swarmer@.position, others@[j]@.position),
        decreases others@.len() - i,
    {
        proof {
            assert(pos_ok(others@[i as int]@.position));
        }
        let dx = swarmer.position.x - others[i].position.x;
        let dy = swarmer.position.y - others[i].position.y;
        proof {
            assert(0 <= (dx as int) * (dx as int) <= 4_000_000_000_000_000_000int)
                by (nonlinear_arith)
                requires
                    -2_000_000_000 <= dx as int <= 2_000_000_000;
            assert(0 <= (dy as int) * (dy as int) <= 4_000_000_000_000_000_000int)
                by (nonlinear_arith)
                requires
                    -2_000_000_000 <= dy as int <= 2_000_000_000;
        }
        d.push(dx * dx + dy * dy);
        i = i + 1;
    }
    d
}

/// Collects the members whose squared distance from `current` lies strictly
/// between `lo2` and `hi2`, keeping storage order.
pub fn filter_by_distance(
    current: &Swarmer,
    swarmers: &Vec<Swarmer>,
    distances: &Vec<i64>,
    lo2: i64,
    hi2: i64,
) -> (r: Vec<Swarmer>)
    requires
        distances@.len() == swarmers@.len(),
        forall|j: int|
            0 <= j < swarmers@.len() ==> #[trigger] distances@[j] == dist2(
                current@.position,
                swarmers@[j]@.position,
            ),
    ensures
        views(r@) == views(swarmers@).filter(band_pred(current@.position, lo2 as int, hi2 as int)),
{
    let ghost p = current@.position;
    let ghost pred = band_pred(p, lo2 as int, hi2 as int);
    let ghost all = views(swarmers@);
    let mut r: Vec<Swarmer> = Vec::new();
    proof {
        reveal(Seq::filter);
        assert(all.take(0) =~= Seq::<SwarmerV>::empty());
        assert(views(r@) =~= Seq::<SwarmerV>::empty());
    }
    let mut i: usize = 0;
    while i < swarmers.len()
        invariant
            i <= swarmers@.len(),
            distances@.len() == swarmers@.len(),
            forall|j: int|
                0 <= j < swarmers@.len() ==> #[trigger] distances@[j] == dist2(
                    p,
                    swarmers@[j]@.position,
                ),
            p == current@.position,
            pred == band_pred(p, lo2 as int, hi2 as int),
            all == views(swarmers@),
            views(r@) == all.take(i as int).filter(pred),
        decreases swarmers@.len() - i,
    {
        let d = distances[i];
        proof {
            lemma_filter_take_step(all, pred, i as int);
            assert(all[i as int] == swarmers@[i as int]@);
        }
        let ghost r_old = views(r@);
        if lo2 < d && d < hi2 {
            r.push(swarmers[i]);
            proof {
                assert(views(r@) =~= r_old.push(swarmers@[i as int]@));
            }
        }
        i = i + 1;
    }
    proof {
        assert(all.take(swarmers@.len() as int) =~= all);
    }
    r
}

/// Computes the repulsion force on `swarmer` from the given repulsors: the sum
/// of fixed-point unit vectors pointing from each repulsor toward the agent.
pub fn compute_repulsion(swarmer: &Swarmer, others: &Vec<Swarmer>) -> (r: Vec2)
    requires
        others@.len() <= MAX_AGENTS,
        pos_ok(swarmer@.position),
        forall|j: int| 0 <= j < others@.len() ==> pos_ok(#[trigger] others@[j]@.position),
        forall|j: int|
            0 <= j < others@.len() ==> repulsor_pred(swarmer@.position)(#[trigger] others@[j]@),
    ensures
        r@ == vsum(views(others@), away_contrib(swarmer@.position)),
        -(SCALE * others@.len() as int) <= r.x <= SCALE * others@.len() as int,
        -(SCALE * others@.len() as int) <= r.y <= SCALE * others@.len() as int,
{
    let ghost p = swarmer@.position;
    let ghost f = away_contrib(p);
    let ghost all = views(others@);
    let mut acc = Vec2 { x: 0, y: 0 };
    proof {
        assert(all.take(0) =~= Seq::<SwarmerV>::empty());
    }
    let mut i: usize = 0;
    while i < others.len()
        invariant
            i <= others@.len() <= MAX_AGENTS,
            pos_ok(p),
            p == swarmer@.position,
            f == away_contrib(p),
            all == views(others@),
            forall|j: int| 0 <= j < others@.len() ==> pos_ok(#[trigger] others@[j]@.position),
            forall|j: int| 0 <= j < others@.len() ==> repulsor_pred(p)(#[trigger] others@[j]@),
            acc@ == vsum(all.take(i as int), f),
            -(SCALE * i as int) <= acc.x <= SCALE * i as int,
            -(SCALE * i as int) <= acc.y <= SCALE * i as int,
        decreases others@.len() - i,
    {
        proof {
            assert(pos_ok(others@[i as int]@.position));
            assert(repulsor_pred(p)(others@[i as int]@));
        }
        let off = Vec2 {
            x: swarmer.position.x - others[i].position.x,
            y: swarmer.position.y - others[i].position.y,
        };
        proof {
            assert(off@ == p.minus(others@[i as int]@.position));
            assert(off@.norm2() == dist2(p, others@[i as int]@.position));
            lemma_vsum_take_step(all, f, i as int);
            assert(all[i as int] == others@[i as int]@);
        }
        let u = normalize_scaled(off);
        acc = Vec2 { x: acc.x + u.x, y: acc.y + u.y };
        i = i + 1;
    }
    proof {
        assert(all.take(others@.len() as int) =~= all);
    }
    acc
}

/// Computes the attraction force on `swarmer` from the given attractors: the
/// offset from the agent to the centroid of their positions.
pub fn compute_attraction(swarmer: &Swarmer, others: &Vec<Swarmer>) -> (r: Vec2)
    requires
        0 < others@.len() <= MAX_AGENTS,
        pos_ok(swarmer@.position),
        forall|j: int| 0 <= j < others@.len() ==> pos_ok(#[trigger] others@[j]@.position),
    ensures
        r@ == (Vec2v {
            x: div_t(vsum(views(others@), pos_sel()).x, others@.len() as int)
                - swarmer@.position.x,
            y: div_t(vsum(views(others@), pos_sel()).y, others@.len() as int)
                - swarmer@.position.y,
        }),
        -2 * MAX_COORD <= r.x <= 2 * MAX_COORD,
        -2 * MAX_COORD <= r.y <= 2 * MAX_COORD,
{
    let ghost f = pos_sel();
    let ghost all = views(others@);
    let mut sx: i64 = 0;
    let mut sy: i64 = 0;
    proof {
        assert(all.take(0) =~= Seq::<SwarmerV>::empty());
    }
    let mut i: usize = 0;
    while i < others.len()
        invariant
            i <= others@.len() <= MAX_AGENTS,
            f == pos_sel(),
            all == views(others@),
            forall|j: int| 0 <= j < others@.len() ==> pos_ok(#[trigger] others@[j]@.position),
            sx == vsum(all.take(i as int), f).x,
            sy == vsum(all.take(i as int), f).y,
            -(MAX_COORD * i as int) <= sx <= MAX_COORD * i as int,
            -(MAX_COORD * i as int) <= sy <= MAX_COORD * i as int,
        decreases others@.len() - i,
    {
        proof {
            assert(pos_ok(others@[i as int]@.position));
            lemma_vsum_take_step(all, f, i as int);
            assert(all[i as int] == others@[i as int]@);
        }
        sx = sx + others[i].position.x;
        sy = sy + others[i].position.y;
        i = i + 1;
    }
    let n = others.len() as i64;
    proof {
        assert(all.take(others@.len() as int) =~= all);
        lemma_div_t_bound(sx as int, n as int, MAX_COORD as int);
        lemma_div_t_bound(sy as int, n as int, MAX_COORD as int);
    }
    let mx = div_trunc(sx, n);
    let my = div_trunc(sy, n);
    Vec2 { x: mx - swarmer.position.x, y: my - swarmer.position.y }
}

/// Computes the alignment force on `swarmer` from the given attractors: the
/// offset from the agent's velocity to the mean of their velocities.
pub fn compute_alignment(swarmer: &Swarmer, others: &Vec<Swarmer>) -> (r: Vec2)
    requires
        0 < others@.len() <= MAX_AGENTS,
        vel_ok(swarmer@.velocity),
        forall|j: int| 0 <= j < others@.len() ==> vel_ok(#[trigger] others@[j]@.velocity),
    ensures
        r@ == (Vec2v {
            x: div_t(vsum(views(others@), vel_sel()).x, others@.len() as int)
                - swarmer@.velocity.x,
            y: div_t(vsum(views(others@), vel_sel()).y, others@.len() as int)
                - swarmer@.velocity.y,
        }),
        -2 * MAX_SPEED <= r.x <= 2 * MAX_SPEED,
        -2 * MAX_SPEED <= r.y <= 2 * MAX_SPEED,
{
    let ghost f = vel_sel();
    let ghost all = views(others@);
    let mut sx: i64 = 0;
    let mut sy: i64 = 0;
    proof {
        assert(all.take(0) =~= Seq::<SwarmerV>::empty());
    }
    let mut i: usize = 0;
    while i < others.len()
        invariant
            i <= others@.len() <= MAX_AGENTS,
            f == vel_sel(),
            all == views(others@),
            forall|j: int| 0 <= j < others@.len() ==> vel_ok(#[trigger] others@[j]@.velocity),
            sx == vsum(all.take(i as int), f).x,
            sy == vsum(all.take(i as int), f).y,
            -(MAX_SPEED * i as int) <= sx <= MAX_SPEED * i as int,
            -(MAX_SPEED * i as int) <= sy <= MAX_SPEED * i as int,
        decreases others@.len() - i,
    {
        proof {
            assert(vel_ok(others@[i as int]@.velocity));
            lemma_vsum_take_step(all, f, i as int);
            assert(all[i as int] == others@[i as int]@);
        }
        sx = sx + others[i].velocity.x;
        sy = sy + others[i].velocity.y;
        i = i + 1;
    }
    let n = others.len() as i64;
    proof {
        assert(all.take(others@.len() as int) =~= all);
        lemma_div_t_bound(sx as int, n as int, MAX_SPEED as int);
        lemma_div_t_bound(sy as int, n as int, MAX_SPEED as int);
    }
    let mx = div_trunc(sx, n);
    let my = div_trunc(sy, n);
    Vec2 { x: mx - swarmer.velocity.x, y: my - swarmer.velocity.y }
}

/// Computes the wall force along one axis for a coordinate inside the interval.
fn compute_wall_axis(p: i64, r: &Range) -> (w: i64)
    requires
        r@.wf(),
        r@.contains(p as int),
    ensures
        w == wall_axis(p as int, r@),
        -100_000 <= w <= 100_000,
{
    let dmin = p - r.min;
    if dmin < WALL_REPULSION_RANGE {
        proof {
            lemma_div_t_bound(WALL_REPULSION_NUMER as int, (WALL_OFFSET + dmin) as int, 100_000);
        }
        div_trunc(WALL_REPULSION_NUMER, WALL_OFFSET + dmin)
    } else {
        let dmax = r.max - p;
        if dmax < WALL_REPULSION_RANGE {
            proof {
                lemma_div_t_bound(
                    WALL_REPULSION_NUMER as int,
                    (WALL_OFFSET + dmax) as int,
                    100_000,
                );
            }
            -div_trunc(WALL_REPULSION_NUMER, WALL_OFFSET + dmax)
        } else {
            0
        }
    }
}

/// Computes the wall-repulsion force on an agent inside the arena: per axis,
/// `1 / (0.01 + d)` away from the near minimum edge, else from the near
/// maximum edge, else zero.
pub fn compute_wall_repulsion(swarmer: &Swarmer, walls: &Rectangle) -> (r: Vec2)
    requires
        walls@.wf(),
        walls@.contains(swarmer@.position.x, swarmer@.position.y),
    ensures
        r@ == wall_repulsion(swarmer@.position, walls@),
        -100_000 <= r.x <= 100_000,
        -100_000 <= r.y <= 100_000,
{
    Vec2 {
        x: compute_wall_axis(swarmer.position.x, &walls.xrange),
        y: compute_wall_axis(swarmer.position.y, &walls.yrange),
    }
}

/// Computes the composed acceleration of `current` against the full population
/// `everyone` (of which `current` must be a member, so its attractor set is
/// never empty): weighted repulsion, attraction, alignment and wall repulsion.
pub fn compute_acceleration(current: &Swarmer, everyone: &Vec<Swarmer>, limits: &Rectangle) -> (r:
    Vec2)
    requires
        limits@.wf(),
        swarm_wf(views(everyone@), limits@),
        current@.wf_in(limits@),
        exists|j: int| 0 <= j < everyone@.len() && views(everyone@)[j] == current@,
    ensures
        r@ == acceleration(current@, views(everyone@), limits@),
        -ACCEL_BOUND <= r.x <= ACCEL_BOUND,
        -ACCEL_BOUND <= r.y <= ACCEL_BOUND,
{
    broadcast use vstd::seq_lib::group_filter_ensures;

    let ghost p = current@.position;
    let ghost all = views(everyone@);
    proof {
        assert forall|j: int| 0 <= j < everyone@.len() implies pos_ok(
            #[trigger] everyone@[j]@.position,
        ) && vel_ok(everyone@[j]@.velocity) by {
            assert(all[j].wf_in(limits@));
        }
    }
    let distances = compute_squared_distances(current, everyone);
    let lo_rep = MIN_NEIGHBOR_DIST * MIN_NEIGHBOR_DIST;
    let hi_rep = REPULSION_RANGE * REPULSION_RANGE;
    let hi_att = ATTRACTION_RANGE * ATTRACTION_RANGE;
    let repulsors = filter_by_distance(current, everyone, &distances, lo_rep, hi_rep);
    let attractors = filter_by_distance(current, everyone, &distances, -1, hi_att);
    let ghost reps = all.filter(repulsor_pred(p));
    let ghost atts = all.filter(attractor_pred(p));
    proof {
        assert(views(repulsors@) == reps);
        assert(views(attractors@) == atts);

        // The members a filter keeps satisfy its band and come from the
        // population, so they are in reach of the force helpers below.
        assert forall|j: int| 0 <= j < reps.len() implies pos_ok(
            (#[trigger] views(repulsors@)[j]).position,
        ) && repulsor_pred(p)(views(repulsors@)[j]) by {
            lemma_filter_member(all, repulsor_pred(p), j);
            let i = choose|i: int| 0 <= i < all.len() && all[i] == reps[j];
            assert(all[i].wf_in(limits@));
        }
        assert forall|j: int| 0 <= j < atts.len() implies pos_ok(
            (#[trigger] views(attractors@)[j]).position,
        ) && vel_ok(views(attractors@)[j].velocity) by {
            lemma_filter_member(all, attractor_pred(p), j);
            let i = choose|i: int| 0 <= i < all.len() && all[i] == atts[j];
            assert(all[i].wf_in(limits@));
        }
        assert forall|j: int| 0 <= j < repulsors@.len() implies pos_ok(
            (#[trigger] repulsors@[j]@).position,
        ) && repulsor_pred(p)(repulsors@[j]@) by {
            assert(views(repulsors@)[j] == repulsors@[j]@);
        }
        assert forall|j: int| 0 <= j < attractors@.len() implies pos_ok(
            (#[trigger] attractors@[j]@).position,
        ) && vel_ok(attractors@[j]@.velocity) by {
            assert(views(attractors@)[j] == attractors@[j]@);
        }

        // The agent itself is one of its attractors, so the set is non-empty.
        let j = choose|j: int| 0 <= j < everyone@.len() && views(everyone@)[j] == current@;
        assert(all[j] == current@);
        assert(all[j].position == p);
        assert(p.minus(p) == (Vec2v { x: 0, y: 0 }));
        assert(dist2(p, all[j].position) == 0);
        assert(attractor_pred(p)(all[j]));
        all.lemma_filter_contains(attractor_pred(p), j);
        assert(atts.contains(all[j]));
        assert(atts.len() > 0);
    }
    let rep = compute_repulsion(current, &repulsors);
    let att = compute_attraction(current, &attractors);
    let ali = compute_alignment(current, &attractors);
    let wal = compute_wall_repulsion(current, limits);
    proof {
        // Sums over the filtered members equal predicated sums over everyone,
        // which is how the force model states them.
        lemma_vsum_filter(all, repulsor_pred(p), away_contrib(p), rep_contrib(p));
        lemma_vsum_filter(all, attractor_pred(p), pos_sel(), att_pos_contrib(p));
        lemma_vsum_filter(all, attractor_pred(p), vel_sel(), att_vel_contrib(p));
        lemma_filter_len_isum(all, attractor_pred(p), att_ind(p));
        assert(attractor_count(p, all) == atts.len());

        // Bounds that keep the weighted composition inside `i64`.
        assert(reps.len() <= all.len());
        lemma_div_t_bound(rep.x as int, REPULSION_DIVISOR as int, 5_000_000);
        lemma_div_t_bound(rep.y as int, REPULSION_DIVISOR as int, 5_000_000);
        lemma_div_t_bound(att.x as int, ATTRACTION_DIVISOR as int, 1_000_000);
        lemma_div_t_bound(att.y as int, ATTRACTION_DIVISOR as int, 1_000_000);
        lemma_div_t_bound(ali.x as int, ALIGNMENT_DIVISOR as int, 600);
        lemma_div_t_bound(ali.y as int, ALIGNMENT_DIVISOR as int, 600);
    }
    Vec2 {
        x: div_trunc(rep.x, REPULSION_DIVISOR) + div_trunc(att.x, ATTRACTION_DIVISOR) + div_trunc(
            ali.x,
            ALIGNMENT_DIVISOR,
        ) + WALL_REPULSION_FACTOR * wal.x,
        y: div_trunc(rep.y, REPULSION_DIVISOR) + div_trunc(att.y, ATTRACTION_DIVISOR) + div_trunc(
            ali.y,
            ALIGNMENT_DIVISOR,
        ) + WALL_REPULSION_FACTOR * wal.y,
    }
}

/// The swarm: the ordered population of agents, owned by the simulation.
/// Agents are only ever appended; a tick mutates every member in place.
pub struct Swarm {
    members: Vec<Swarmer>,
}

impl View for Swarm {
    type V = Seq<SwarmerV>;

    closed spec fn view(&self) -> Seq<SwarmerV> {
        views(self.members@)
    }
}

impl Default for Swarm {
    fn default() -> (s: Swarm)
        ensures
            s@ == Seq::<SwarmerV>::empty(),
    {
        Swarm::new()
    }
}

impl Swarm {
    /// Creates an empty swarm.
    pub fn new() -> (s: Swarm)
        ensures
            s@ == Seq::<SwarmerV>::empty(),
    {
        let s = Swarm { members: Vec::new() };
        proof {
            assert(s@ =~= Seq::<SwarmerV>::empty());
        }
        s
    }

    /// Appends one agent at the end of the population.
    pub fn add(&mut self, swarmer: Swarmer)
        ensures
            final(self)@ == old(self)@.push(swarmer@),
    {
        self.members.push(swarmer);
        proof {
            assert(self@ =~= old(self)@.push(swarmer@));
        }
    }

    /// Read-only access to the population, in storage order (for rendering).
    pub fn iter(&self) -> (r: &Vec<Swarmer>)
        ensures
            views(r@) == self@,
            r@.len() == self@.len(),
    {
        &self.members
    }

    /// One tick. Phase one computes every agent's acceleration against the
    /// unmodified pre-tick population; phase two applies them. No agent ever
    /// observes another's already-updated state within the same tick, so the
    /// result is the order-independent [`step_swarm`] of the prior state.
    pub fn update(&mut self, limits: &Rectangle, dt: i64)
        requires
            limits@.wf(),
            0 <= dt <= MAX_DT,
            swarm_wf(old(self)@, limits@),
        ensures
            final(self)@ == step_swarm(old(self)@, limits@, dt as int),
            final(self)@.len() == old(self)@.len(),
            swarm_wf(final(self)@, limits@),
            forall|i: int|
                0 <= i < final(self)@.len() ==> (#[trigger] final(self)@[i]).wf_in(limits@),
            forall|i: int|
                0 <= i < final(self)@.len() ==> MIN_SPEED - SPEED_SLACK
                    <= (#[trigger] final(self)@[i]).velocity.norm() <= MAX_SPEED,
    {
        let ghost orig = self@;
        let n = self.members.len();

        // Snapshot phase: every acceleration comes from the same pre-tick
        // population.
        let mut accelerations: Vec<Vec2> = Vec::new();
        let mut i: usize = 0;
        while i < n
            invariant
                i <= n == self.members@.len(),
                orig == views(self.members@),
                limits@.wf(),
                swarm_wf(orig, limits@),
                accelerations@.len() == i,
                forall|j: int|
                    0 <= j < i ==> (#[trigger] accelerations@[j])@ == acceleration(
                        orig[j],
                        orig,
                        limits@,
                    ),
                forall|j: int|
                    0 <= j < i ==> -ACCEL_BOUND <= (#[trigger] accelerations@[j]).x <= ACCEL_BOUND
                        && -ACCEL_BOUND <= accelerations@[j].y <= ACCEL_BOUND,
            decreases n - i,
        {
            let cur = self.members[i];
            proof {
                assert(orig[i as int].wf_in(limits@));
                assert(cur@ == orig[i as int]);
                assert(views(self.members@)[i as int] == cur@);
            }
            let a = compute_acceleration(&cur, &self.members, limits);
            accelerations.push(a);
            i = i + 1;
        }

        // Apply phase: integrate every agent with its precomputed
        // acceleration.
        let mut i: usize = 0;
        while i < n
            invariant
                i <= n == self.members@.len(),
                orig.len() == n,
                limits@.wf(),
                0 <= dt <= MAX_DT,
                swarm_wf(orig, limits@),
                accelerations@.len() == n,
                forall|j: int|
                    0 <= j < n ==> (#[trigger] accelerations@[j])@ == acceleration(
                        orig[j],
                        orig,
                        limits@,
                    ),
                forall|j: int|
                    0 <= j < n ==> -ACCEL_BOUND <= (#[trigger] accelerations@[j]).x <= ACCEL_BOUND
                        && -ACCEL_BOUND <= accelerations@[j].y <= ACCEL_BOUND,
                forall|j: int| i <= j < n ==> views(self.members@)[j] == orig[j],
                forall|j: int|
                    0 <= j < i ==> #[trigger] views(self.members@)[j] == step_agent(
                        orig[j],
                        acceleration(orig[j], orig, limits@),
                        limits@,
                        dt as int,
                    ),
                forall|j: int|
                    0 <= j < i ==> (#[trigger] views(self.members@)[j]).wf_in(limits@)
                        && MIN_SPEED - SPEED_SLACK <= views(self.members@)[j].velocity.norm()
                        <= MAX_SPEED,
            decreases n - i,
        {
            let ghost before = self.members@;
            let mut m = self.members[i];
            proof {
                assert(views(before)[i as int] == orig[i as int]);
                assert(m@ == orig[i as int]);
                assert(orig[i as int].wf_in(limits@));
            }
            let a = accelerations[i];
            proof {
                assert(a == accelerations@[i as int]);
                assert(a@ == acceleration(orig[i as int], orig, limits@));
            }
            m.update(a, limits, dt);
            self.members.set(i, m);
            proof {
                assert(m@ == step_agent(
                    orig[i as int],
                    acceleration(orig[i as int], orig, limits@),
                    limits@,
                    dt as int,
                ));
                assert forall|j: int| 0 <= j < n && j != i implies views(self.members@)[j]
                    == views(before)[j] by {
                    assert(self.members@[j] == before[j]);
                }
                assert(views(self.members@)[i as int] == m@);
                assert forall|j: int|
                    0 <= j < i + 1 implies #[trigger] views(self.members@)[j] == step_agent(
                    orig[j],
                    acceleration(orig[j], orig, limits@),
                    limits@,
                    dt as int,
                ) && views(self.members@)[j].wf_in(limits@) && MIN_SPEED - SPEED_SLACK <= views(
                    self.members@,
                )[j].velocity.norm() <= MAX_SPEED by {
                    if j != i {
                        assert(views(before)[j] == step_agent(
                            orig[j],
                            acceleration(orig[j], orig, limits@),
                            limits@,
                            dt as int,
                        ));
                        assert(views(before)[j].wf_in(limits@));
                    }
                }
            }
            i = i + 1;
        }
        proof {
            assert(self@ =~= step_swarm(orig, limits@, dt as int));
        }
    }
}

} // verus!
