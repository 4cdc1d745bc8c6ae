use swarmer::swarm::{compute_wall_repulsion, Swarm, Swarmer};
use swarmer::vec2::Vec2;
use swarmer::{Range, Rectangle};

fn big_arena() -> Rectangle {
    Rectangle {
        xrange: Range { min: 0, max: 1_000_000_000 },
        yrange: Range { min: 0, max: 1_000_000_000 },
    }
}

#[test]
fn lone_agent_far_from_walls_only_clamps() {
    // Zero repulsion, attraction and alignment; no wall in range. The only
    // change is the speed clamp raising the initial velocity (0.1, 0.1) onto
    // the minimum-speed circle.
    let bounds = big_arena();
    let mut s = Swarm::new();
    s.add(Swarmer::new(Vec2 { x: 500_000, y: 500_000 }));
    s.update(&bounds, 1000);
    let m = &s.iter()[0];
    // |(100, 100)| rounds to 141; 100 * 3000 / 141 = 2127.
    assert_eq!(m.get_velocity(), Vec2 { x: 2127, y: 2127 });
    assert_eq!(m.get_position(), Vec2 { x: 502_127, y: 502_127 });
}

#[test]
fn lone_agent_zero_dt_only_clamps_velocity() {
    let bounds = big_arena();
    let mut s = Swarm::new();
    s.add(Swarmer::new(Vec2 { x: 500_000, y: 500_000 }));
    s.update(&bounds, 0);
    let m = &s.iter()[0];
    assert_eq!(m.get_position(), Vec2 { x: 500_000, y: 500_000 });
    assert_eq!(m.get_velocity(), Vec2 { x: 2127, y: 2127 });
}

#[test]
fn two_close_agents_separate() {
    // Distance 5 units: inside the repulsion range 8 and the attraction
    // range 40, far from every wall. With weights 0.05 repulsion versus
    // 0.0005 attraction, repulsion dominates and the separation grows.
    let bounds = big_arena();
    let mut s = Swarm::new();
    s.add(Swarmer::new(Vec2 { x: 500_000_000, y: 500_000_000 }));
    s.add(Swarmer::new(Vec2 { x: 500_005_000, y: 500_000_000 }));
    s.update(&bounds, 1000);
    let p0 = s.iter()[0].get_position();
    let p1 = s.iter()[1].get_position();
    let separation = p1.x - p0.x;
    assert!(
        separation > 5_000,
        "separation {} should exceed the initial 5000",
        separation
    );
    // The exact displacement: accelerations (-49, 0) and (49, 0) on the
    // initial velocity (100, 100), then the minimum-speed clamp.
    assert_eq!(p0.x, 500_001_366);
    assert_eq!(p1.x, 500_007_497);
}

#[test]
fn agent_near_minimum_x_wall_is_pushed_inward() {
    // One unit from the minimum x-edge: the raw wall force is
    // 1/(0.01 + 1) = 0.99 along +x (990 in thousandths), weighted by 2.
    let bounds = big_arena();
    let agent = Swarmer::new(Vec2 { x: 1_000, y: 500_000 });
    let w = compute_wall_repulsion(&agent, &bounds);
    assert_eq!(w, Vec2 { x: 990, y: 0 });

    let mut s = Swarm::new();
    s.add(agent);
    s.update(&bounds, 1000);
    let m = &s.iter()[0];
    // Acceleration (1980, 0) on velocity (100, 100), then the speed clamp.
    assert_eq!(m.get_velocity(), Vec2 { x: 2997, y: 144 });
    let p = m.get_position();
    assert_eq!(p, Vec2 { x: 3_997, y: 500_144 });
    assert!(p.x > 1_000, "the agent should move away from the wall");
}

#[test]
fn narrow_arena_gives_minimum_edge_precedence() {
    // The arena is narrower than twice the wall-repulsion range, so both
    // x-edges are in range; only the minimum edge may push.
    let bounds = Rectangle {
        xrange: Range { min: 0, max: 100_000 },
        yrange: Range { min: 0, max: 1_000_000_000 },
    };
    let agent = Swarmer::new(Vec2 { x: 30_000, y: 500_000 });
    let w = compute_wall_repulsion(&agent, &bounds);
    // 1_000_000 / (10 + 30_000) = 33, and nothing from the maximum edge.
    assert_eq!(w, Vec2 { x: 33, y: 0 });
}

#[test]
fn wall_force_near_maximum_edge_points_inward() {
    let bounds = big_arena();
    let agent = Swarmer::new(Vec2 { x: 999_999_000, y: 500_000 });
    let w = compute_wall_repulsion(&agent, &bounds);
    assert_eq!(w, Vec2 { x: -990, y: 0 });
}
