// Quadtree and boundary behaviour, at fixed-point scale: 1000 units = 1
// world unit of the simulation this library serves.

use jelly::boundary::Boundary;
use jelly::boundary::TreePoint;
use jelly::quadtree::QuadTree;

fn square(center_x: i64, center_y: i64, half: i64) -> Boundary {
    Boundary {
        x_min: center_x - half,
        y_min: center_y - half,
        x_max: center_x + half,
        y_max: center_y + half,
    }
}

#[test]
fn test_containment_half_open() {
    // A box of width and height 10 centered on the origin, at scale 1000.
    let b = square(0, 0, 5000);
    assert!(b.contains(-5000, -5000));
    assert!(!b.contains(5000, 5000));
    assert!(b.contains(4999, 4999));
    assert!(!b.contains(-5001, 0));
    assert!(!b.contains(0, 5000));
}

#[test]
fn test_corners() {
    let b = Boundary { x_min: -2, y_min: -3, x_max: 5, y_max: 7 };
    assert_eq!(b.bottom_left(), (-2, -3));
    assert_eq!(b.top_right(), (5, 7));
    assert_eq!(b.top_left(), (-2, 7));
    assert_eq!(b.bottom_right(), (5, -3));
}

#[test]
fn test_overlaps_is_corner_containment() {
    let a = square(0, 0, 5000);
    let shifted = square(4000, 4000, 5000);
    assert!(a.overlaps(&shifted));
    assert!(shifted.overlaps(&a));
    let far = square(20000, 0, 5000);
    assert!(!a.overlaps(&far));
    // A thin cross: the interiors overlap but no corner of either box lies
    // inside the other, so the approximation reports no overlap.
    let wide = Boundary { x_min: -10000, y_min: -1000, x_max: 10000, y_max: 1000 };
    let tall = Boundary { x_min: -1000, y_min: -10000, x_max: 1000, y_max: 10000 };
    assert!(!wide.overlaps(&tall));
    assert!(!tall.overlaps(&wide));
}

#[test]
fn test_partition_after_divide() {
    // Capacity 1: the second point in the same quadrant forces a division.
    let root = square(0, 0, 5000);
    let mut t = QuadTree::new(root, 1);
    t.insert(TreePoint::new(1000, 1000, 0));
    assert!(!t.is_divided());
    t.insert(TreePoint::new(2000, 2000, 1));
    assert!(t.is_divided());

    let ne = t.ne.as_ref().unwrap();
    let nw = t.nw.as_ref().unwrap();
    let se = t.se.as_ref().unwrap();
    let sw = t.sw.as_ref().unwrap();
    // The four children tile the parent exactly, each half as wide and tall.
    assert_eq!(ne.boundary, Boundary { x_min: 0, y_min: 0, x_max: 5000, y_max: 5000 });
    assert_eq!(nw.boundary, Boundary { x_min: -5000, y_min: 0, x_max: 0, y_max: 5000 });
    assert_eq!(se.boundary, Boundary { x_min: 0, y_min: -5000, x_max: 5000, y_max: 0 });
    assert_eq!(sw.boundary, Boundary { x_min: -5000, y_min: -5000, x_max: 0, y_max: 0 });
    // A point on both dividing lines belongs to exactly one child (NE):
    // lower edges are inclusive, upper edges exclusive.
    assert!(ne.boundary.contains(0, 0));
    assert!(!nw.boundary.contains(0, 0));
    assert!(!se.boundary.contains(0, 0));
    assert!(!sw.boundary.contains(0, 0));
}

#[test]
fn test_capacity_trigger() {
    // Three points in one quadrant divide the node exactly once; a fourth in
    // another quadrant does not divide it again.
    let mut t = QuadTree::new(square(0, 0, 5000), 2);
    t.insert(TreePoint::new(100, 100, 1));
    t.insert(TreePoint::new(200, 200, 2));
    assert!(!t.is_divided());
    t.insert(TreePoint::new(300, 300, 3));
    assert!(t.is_divided());
    // The two pre-division points stay attached to the divided node.
    assert_eq!(t.items.len(), 2);
    let ne_items = t.ne.as_ref().unwrap().items.len();
    assert_eq!(ne_items, 1);
    t.insert(TreePoint::new(-100, -100, 4));
    assert!(t.is_divided());
    assert!(!t.sw.as_ref().unwrap().is_divided());
    assert_eq!(t.sw.as_ref().unwrap().items.len(), 1);
    assert_eq!(t.items.len(), 2);
}

#[test]
fn test_insert_query_roundtrip() {
    let root = square(0, 0, 5000);
    let mut t = QuadTree::new(root, 4);
    t.insert(TreePoint::new(123, 456, 7));
    let mut found: Vec<u32> = Vec::new();
    t.query(&root, &mut found);
    assert_eq!(found, vec![7]);
}

#[test]
fn test_insert_outside_is_silent_noop() {
    let root = square(0, 0, 5000);
    let mut t = QuadTree::new(root, 4);
    t.insert(TreePoint::new(6000, 0, 1));
    assert_eq!(t.items.len(), 0);
    assert!(!t.is_divided());
    let mut found: Vec<u32> = Vec::new();
    t.query(&root, &mut found);
    assert!(found.is_empty());
}

#[test]
fn test_concrete_scenario() {
    // Root box of width 900 centered on the origin, capacity 2.
    let root = square(0, 0, 450000);
    let mut t = QuadTree::new(root, 2);
    t.insert(TreePoint::new(10000, 10000, 1));
    t.insert(TreePoint::new(20000, 20000, 2));
    t.insert(TreePoint::new(-300000, -300000, 3));

    let mut found: Vec<u32> = Vec::new();
    t.query(&square(0, 0, 25000), &mut found);
    found.sort();
    assert_eq!(found, vec![1, 2]);

    let mut found2: Vec<u32> = Vec::new();
    t.query(&square(-300000, -300000, 5000), &mut found2);
    assert_eq!(found2, vec![3]);
}

#[test]
fn test_render_visits_every_node() {
    let mut t = QuadTree::new(square(0, 0, 5000), 1);
    let mut walk: Vec<Boundary> = Vec::new();
    t.render(&mut walk);
    assert_eq!(walk.len(), 1);
    t.insert(TreePoint::new(1000, 1000, 0));
    t.insert(TreePoint::new(2000, 2000, 1));
    let mut walk2: Vec<Boundary> = Vec::new();
    t.render(&mut walk2);
    assert_eq!(walk2.len(), 5);
    assert_eq!(walk2[0], t.boundary);
}

#[test]
fn test_tree_point_accessors() {
    let p = TreePoint::new(-12, 34, 9);
    assert_eq!(p.x(), -12);
    assert_eq!(p.y(), 34);
    assert_eq!(p.id, 9);
}
