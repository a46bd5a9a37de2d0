use rayimg::bound::{Interval, AABB};
use rayimg::fixed::ONE;
use rayimg::math::{Ray, Vec3};

#[test]
fn interval_unite_takes_the_extremes() {
    let a = Interval::limits(-2 * ONE, ONE);
    let b = Interval::limits(-ONE, 3 * ONE);
    let u = Interval::unite(a, b);
    assert_eq!(u.min, -2 * ONE);
    assert_eq!(u.max, 3 * ONE);
    assert!(u.min <= a.min && u.max >= a.max);
    assert!(u.min <= b.min && u.max >= b.max);
}

#[test]
fn interval_len_and_expand() {
    let a = Interval::limits(-ONE, ONE);
    assert_eq!(a.len(), 2 * ONE);
    let e = a.expand(ONE);
    assert_eq!(e.min, -98304);
    assert_eq!(e.max, 98304);
}

#[test]
fn aabb_unite_contains_both_boxes() {
    let a = AABB::from_two_points(Vec3::new(-ONE, 0, 0), Vec3::new(ONE, ONE, ONE));
    let b = AABB::from_two_points(Vec3::new(0, -2 * ONE, 0), Vec3::new(3 * ONE, 0, 2 * ONE));
    let u = AABB::unite(a, b);
    for i in 0..3 {
        assert!(u.axes[i].min <= a.axes[i].min && a.axes[i].max <= u.axes[i].max);
        assert!(u.axes[i].min <= b.axes[i].min && b.axes[i].max <= u.axes[i].max);
    }
    assert_eq!(u.axes[0].min, -ONE);
    assert_eq!(u.axes[0].max, 3 * ONE);
    assert_eq!(u.axes[1].min, -2 * ONE);
    assert_eq!(u.axes[1].max, ONE);
}

#[test]
fn aabb_slab_test_prunes() {
    let unit_box = AABB::from_two_points(
        Vec3::new(-ONE, -ONE, -3 * ONE),
        Vec3::new(ONE, ONE, -2 * ONE),
    );
    let toward = Ray::new(Vec3::new(0, 0, 0), Vec3::new(0, 0, -ONE));
    assert!(unit_box.hit(&toward, 1, 100 * ONE));
    let away = Ray::new(Vec3::new(0, 0, 0), Vec3::new(0, 0, ONE));
    assert!(!away_hits(&unit_box, &away));
    let sideways = Ray::new(Vec3::new(0, 5 * ONE, 0), Vec3::new(0, 0, -ONE));
    assert!(!unit_box.hit(&sideways, 1, 100 * ONE));
}

fn away_hits(b: &AABB, r: &Ray) -> bool {
    b.hit(r, 1, 100 * ONE)
}

#[test]
fn aabb_from_two_points_orders_each_axis() {
    let b = AABB::from_two_points(Vec3::new(ONE, -ONE, 0), Vec3::new(-ONE, 2 * ONE, 0));
    assert_eq!(b.axes[0].min, -ONE);
    assert_eq!(b.axes[0].max, ONE);
    assert_eq!(b.axes[1].min, -ONE);
    assert_eq!(b.axes[1].max, 2 * ONE);
    assert_eq!(b.axes[2].min, 0);
    assert_eq!(b.axes[2].max, 0);
}

#[test]
fn empty_boxes_start_at_the_origin() {
    let i = Interval::new();
    assert!(i.min == 0 && i.max == 0);
    let b = AABB::new();
    for axis in 0..3 {
        assert!(b.axes[axis].min == 0 && b.axes[axis].max == 0);
    }
    let rebuilt = AABB::with_intervals([
        Interval::limits(-ONE, ONE),
        Interval::limits(0, ONE),
        Interval::limits(-ONE, 0),
    ]);
    assert_eq!(rebuilt.axes[1].max, ONE);
}
