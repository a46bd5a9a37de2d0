use rayimg::fixed::ONE;
use rayimg::math::Vec3;

const ITERATIONS: usize = 100000;

#[test]
fn random_in_unit_disk() {
    for _ in 0..ITERATIONS {
        let r = Vec3::random_in_unit_disk();
        assert!(-ONE < r.x && r.x < ONE);
        assert!(-ONE < r.y && r.y < ONE);
        assert_eq!(r.z, 0);
        assert!(r.len() < ONE);
    }
}

#[test]
fn random_in_unit_sphere() {
    for _ in 0..ITERATIONS {
        let r = Vec3::random_in_unit_sphere();
        assert!(-ONE < r.x && r.x < ONE);
        assert!(-ONE < r.y && r.y < ONE);
        assert!(-ONE < r.z && r.z < ONE);
        assert!(r.len() < ONE);
    }
}
