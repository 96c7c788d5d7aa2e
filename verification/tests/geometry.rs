use drill_above::collider::Collider;
use drill_above::geom::{floor_div, floor_mod, Aabb2, IAabb2, IVec2, Vec2};
use drill_above::grid::Grid;
use drill_above::movement::Actor;
use drill_above::id::Id;

fn aabb(x0: i64, y0: i64, x1: i64, y1: i64) -> Aabb2 {
    Aabb2 { min: Vec2 { x: x0, y: y0 }, max: Vec2 { x: x1, y: y1 } }
}

#[test]
fn collide_prefers_least_penetration() {
    let a = Collider::new(aabb(0, 0, 10, 10));
    let b = Collider::new(aabb(8, 2, 20, 20));
    let c = a.collide(&b).expect("overlap");
    assert_eq!(c.normal, Vec2 { x: -1, y: 0 });
    assert_eq!(c.penetration, 2);
    assert_eq!(c.offset, -8);
}

#[test]
fn collide_ties_go_vertical() {
    let a = Collider::new(aabb(0, 0, 10, 10));
    let b = Collider::new(aabb(7, 7, 20, 20));
    let c = a.collide(&b).expect("overlap");
    assert_eq!(c.normal, Vec2 { x: 0, y: -1 });
    assert_eq!(c.penetration, 3);
    assert_eq!(c.offset, -3);
}

#[test]
fn touching_is_not_colliding() {
    let a = Collider::new(aabb(0, 0, 10, 10));
    let b = Collider::new(aabb(10, 0, 20, 10));
    assert!(!a.check(&b));
    assert!(!b.check(&a));
    assert!(a.collide(&b).is_none());
}

#[test]
fn check_is_symmetric_and_matches_collide() {
    let boxes = [aabb(0, 0, 10, 10), aabb(5, 5, 6, 6), aabb(-3, 2, 1, 3), aabb(9, -5, 30, 1), aabb(20, 20, 21, 21)];
    for a in boxes {
        for b in boxes {
            let (ca, cb) = (Collider::new(a), Collider::new(b));
            assert_eq!(ca.check(&cb), cb.check(&ca));
            assert_eq!(ca.collide(&cb).is_some(), ca.check(&cb));
        }
    }
}

#[test]
fn pushing_out_separates() {
    let a = Collider::new(aabb(0, 0, 10, 10));
    let b = Collider::new(aabb(8, 2, 20, 20));
    let c = a.collide(&b).unwrap();
    let mut moved = a;
    moved.translate(Vec2 { x: c.normal.x * c.penetration, y: c.normal.y * c.penetration });
    assert!(!moved.check(&b));
    assert_eq!(moved.raw().max.x, 8);
}

#[test]
fn feet_head_and_teleport() {
    let mut c = Collider::new(aabb(0, 0, 10, 20));
    assert_eq!(c.pos(), Vec2 { x: 5, y: 10 });
    assert_eq!(c.size(), Vec2 { x: 10, y: 20 });
    assert_eq!(c.feet(), Vec2 { x: 5, y: 0 });
    assert_eq!(c.head(), Vec2 { x: 5, y: 20 });
    c.teleport(Vec2 { x: 100, y: -50 });
    assert_eq!(c.feet(), Vec2 { x: 100, y: -50 });
    assert_eq!(c.raw(), aabb(95, -50, 105, -30));
}

#[test]
fn grid_aabb_keeps_edges_out() {
    let grid = Grid::default();
    let c = Collider::new(aabb(16000, 0, 32000, 16000));
    let g = c.grid_aabb(&grid);
    assert_eq!(g, IAabb2 { min: IVec2 { x: 1, y: 0 }, max: IVec2 { x: 1, y: 0 } });
    let c = Collider::new(aabb(-100, -100, 100, 100));
    let g = c.grid_aabb(&grid);
    assert_eq!(g, IAabb2 { min: IVec2 { x: -1, y: -1 }, max: IVec2 { x: 0, y: 0 } });
}

#[test]
fn grid_conversions() {
    let grid = Grid::default();
    assert_eq!(grid.grid_to_world(IVec2 { x: 2, y: -1 }), Vec2 { x: 32000, y: -16000 });
    assert_eq!(grid.world_to_grid(Vec2 { x: 40000, y: -1 }), (IVec2 { x: 2, y: -1 }, Vec2 { x: 8000, y: 15999 }));
    let half = Grid::new(Vec2 { x: 32000, y: 16000 });
    assert_eq!(half.world_to_grid(Vec2 { x: 16000, y: 0 }).0, IVec2 { x: 2, y: 0 });
    assert_eq!(half.grid_to_world(IVec2 { x: 2, y: 0 }), Vec2 { x: 16000, y: 0 });
    assert_eq!(half.grid_to_world(IVec2 { x: 1, y: 0 }), Vec2 { x: 8000, y: 0 });
}

#[test]
fn floor_division() {
    assert_eq!(floor_div(-7, 2), -4);
    assert_eq!(floor_mod(-7, 2), 1);
    assert_eq!(floor_div(7, 2), 3);
    assert_eq!(floor_mod(7, 2), 1);
}

#[test]
fn aabb_helpers() {
    let b = Aabb2::from_corners(Vec2 { x: 5, y: -1 }, Vec2 { x: -5, y: 3 });
    assert_eq!(b, aabb(-5, -1, 5, 3));
    assert_eq!(b.center(), Vec2 { x: 0, y: 1 });
    assert!(b.contains(Vec2 { x: -5, y: -1 }));
    assert!(!b.contains(Vec2 { x: 5, y: 0 }));
    let e = Aabb2::point(Vec2 { x: 0, y: 0 }).extend_symmetric(Vec2 { x: 2, y: 3 }).extend_down(1);
    assert_eq!(e, aabb(-2, -4, 2, 3));
}

#[test]
fn actor_sensors() {
    let actor = Actor::new(Id(0), Collider::new(aabb(0, 0, 1000, 2000)));
    assert_eq!(actor.wall_collider().raw(), aabb(500 - 550, 1000 - 900, 500 + 550, 1000 + 900));
    assert_eq!(actor.feet_collider().raw(), aabb(500 - 450, -1600, 500 + 450, 0));
}

#[test]
fn collision_the_other_way_round_is_opposite() {
    let a = Collider::new(aabb(0, 0, 10, 10));
    let b = Collider::new(aabb(7, 2, 20, 11));
    let ab = a.collide(&b).unwrap();
    let ba = b.collide(&a).unwrap();
    assert_eq!(ba.normal, Vec2 { x: -ab.normal.x, y: -ab.normal.y });
    assert_eq!(ba.penetration, ab.penetration);
    assert_eq!(ba.offset, -ab.offset);
    // A collider keeps its box.
    assert_eq!(Collider::new(aabb(1, 2, 3, 4)).raw(), aabb(1, 2, 3, 4));
}
