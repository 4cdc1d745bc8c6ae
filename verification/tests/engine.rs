use swarmer::swarm::{Swarm, Swarmer};
use swarmer::vec2::Vec2;
use swarmer::{Range, Rectangle};

fn arena(width: i64, height: i64) -> Rectangle {
    Rectangle {
        xrange: Range { min: 0, max: width },
        yrange: Range { min: 0, max: height },
    }
}

fn big_arena() -> Rectangle {
    arena(1_000_000_000, 1_000_000_000)
}

fn states(s: &Swarm) -> Vec<(i64, i64, i64, i64)> {
    s.iter()
        .iter()
        .map(|m| {
            let p = m.get_position();
            let v = m.get_velocity();
            (p.x, p.y, v.x, v.y)
        })
        .collect()
}

#[test]
fn swarmer_new_has_default_velocity() {
    let s = Swarmer::new(Vec2 { x: 42, y: -7 });
    assert_eq!(s.get_position(), Vec2 { x: 42, y: -7 });
    assert_eq!(s.get_velocity(), Vec2 { x: 100, y: 100 });
}

#[test]
fn swarm_add_keeps_insertion_order() {
    let mut s = Swarm::new();
    assert_eq!(s.iter().len(), 0);
    s.add(Swarmer::new(Vec2 { x: 1, y: 1 }));
    s.add(Swarmer::new(Vec2 { x: 2, y: 2 }));
    s.add(Swarmer::new(Vec2 { x: 3, y: 3 }));
    assert_eq!(s.iter().len(), 3);
    let xs: Vec<i64> = s.iter().iter().map(|m| m.get_position().x).collect();
    assert_eq!(xs, vec![1, 2, 3]);
}

#[test]
fn update_of_empty_swarm_is_a_no_op() {
    let mut s = Swarm::new();
    s.update(&big_arena(), 1000);
    assert_eq!(s.iter().len(), 0);
}

#[test]
fn speed_stays_in_band_over_many_ticks() {
    let bounds = big_arena();
    let mut s = Swarm::new();
    for i in 0..50i64 {
        s.add(Swarmer::new(Vec2 {
            x: 400_000_000 + 13_337 * i,
            y: 500_000_000 + 7_001 * (i % 17),
        }));
    }
    for _ in 0..20 {
        s.update(&bounds, 1000);
        for m in s.iter() {
            let v = m.get_velocity();
            let n2 = (v.x * v.x + v.y * v.y) as f64;
            let speed = n2.sqrt() / 1000.0;
            assert!(speed >= 2.997, "speed {} below band", speed);
            assert!(speed <= 6.001, "speed {} above band", speed);
        }
    }
}

#[test]
fn positions_stay_inside_the_arena() {
    // A small arena with agents started near its edges: clamping must hold
    // every tick.
    let bounds = arena(10_000, 8_000);
    let mut s = Swarm::new();
    s.add(Swarmer::new(Vec2 { x: 9_900, y: 5_000 }));
    s.add(Swarmer::new(Vec2 { x: 100, y: 100 }));
    s.add(Swarmer::new(Vec2 { x: 5_000, y: 7_900 }));
    for _ in 0..30 {
        s.update(&bounds, 1000);
        for m in s.iter() {
            let p = m.get_position();
            assert!(0 <= p.x && p.x <= 10_000);
            assert!(0 <= p.y && p.y <= 8_000);
        }
    }
}

#[test]
fn identical_runs_give_identical_trajectories() {
    let bounds = arena(800_000, 600_000);
    let mut s1 = Swarm::new();
    let mut s2 = Swarm::new();
    for i in 0..25i64 {
        let p = Vec2 { x: 10_000 + 31_000 * i, y: 20_000 + 17_000 * (i % 11) };
        s1.add(Swarmer::new(p));
        s2.add(Swarmer::new(p));
    }
    let dts = [1000, 500, 250, 1000, 2000, 125, 1000, 1000, 750, 300];
    for dt in dts {
        s1.update(&bounds, dt);
        s2.update(&bounds, dt);
        assert_eq!(states(&s1), states(&s2));
    }
}

#[test]
fn permuted_storage_order_gives_the_same_state_set() {
    let bounds = arena(900_000, 900_000);
    let positions = [
        Vec2 { x: 450_000, y: 450_000 },
        Vec2 { x: 452_000, y: 451_000 },
        Vec2 { x: 460_000, y: 449_000 },
        Vec2 { x: 300_000, y: 700_000 },
        Vec2 { x: 455_500, y: 448_000 },
    ];
    let mut forward = Swarm::new();
    for p in positions {
        forward.add(Swarmer::new(p));
    }
    let mut backward = Swarm::new();
    for p in positions.iter().rev() {
        backward.add(Swarmer::new(*p));
    }
    forward.update(&bounds, 1000);
    backward.update(&bounds, 1000);
    let mut a = states(&forward);
    let mut b = states(&backward);
    a.sort();
    b.sort();
    assert_eq!(a, b);
}

#[test]
fn coincident_agents_do_not_repel() {
    // Two agents at the same point are attractors but not repulsors of each
    // other; the tick stays total and keeps them together.
    let bounds = big_arena();
    let mut s = Swarm::new();
    s.add(Swarmer::new(Vec2 { x: 500_000_000, y: 500_000_000 }));
    s.add(Swarmer::new(Vec2 { x: 500_000_000, y: 500_000_000 }));
    s.update(&bounds, 1000);
    let st = states(&s);
    assert_eq!(st[0], st[1]);
}
