use vstd::prelude::*;

use crate::hit::HitRecord;
use crate::materials::material_wf;
use crate::math::Ray;
use crate::shapes::{
    lemma_shape_hit_narrow, lemma_shape_hit_widen, shape_material, shape_wf, spec_shape_hit, Shape,
};

verus! {

/// The result of scanning a collection of shapes for the nearest hit: either
/// nothing, and then no shape intersects the window, or a record that some
/// shape produced over the full window and whose parameter no other shape's
/// intersection undercuts.
pub open spec fn closest_hit_of(
    objs: Seq<Shape>,
    ray: Ray,
    t_min: int,
    t_max: int,
    res: Option<HitRecord>,
) -> bool {
    match res {
        None => forall|i: int|
            0 <= i < objs.len() ==> spec_shape_hit(#[trigger] objs[i], ray, t_min, t_max) is None,
        Some(h) => {
            &&& t_min < h.t < t_max
            &&& exists|i: int|
                0 <= i < objs.len() && spec_shape_hit(#[trigger] objs[i], ray, t_min, t_max)
                    == Some(h)
            &&& forall|i: int|
                0 <= i < objs.len() && spec_shape_hit(#[trigger] objs[i], ray, t_min, t_max)
                    is Some ==> h.t <= spec_shape_hit(objs[i], ray, t_min, t_max)->Some_0.t
        },
    }
}

/// Scene contains the hittable objects. It is built before rendering and
/// immutable during it; it is itself hittable by a closest-hit linear scan.
#[derive(Debug, Clone)]
pub struct Scene {
    pub objects: Vec<Shape>,
}

impl Scene {
    /// Every object of the scene is internally sound.
    pub open spec fn wf(self) -> bool {
        forall|i: int| 0 <= i < self.objects@.len() ==> shape_wf(#[trigger] self.objects@[i])
    }

    /// Creates empty Scene.
    pub fn new() -> (r: Self)
        ensures
            r.objects@.len() == 0,
            r.wf(),
    {
        Self { objects: Vec::new() }
    }

    /// Adds object to scene.
    pub fn add_object(&mut self, object: Shape)
        requires
            shape_wf(object),
        ensures
            final(self).objects@ == old(self).objects@.push(object),
            old(self).wf() ==> final(self).wf(),
    {
        self.objects.push(object);
        proof {
            if old(self).wf() {
                assert forall|i: int| 0 <= i < self.objects@.len() implies shape_wf(
                    #[trigger] self.objects@[i],
                ) by {
                    if i < old(self).objects@.len() {
                        assert(self.objects@[i] == old(self).objects@[i]);
                    }
                }
            }
        }
    }

    /// Returns count of objects.
    pub fn object_count(&self) -> (r: usize)
        ensures
            r == self.objects@.len(),
    {
        self.objects.len()
    }

    /// The nearest hit of the ray against any object of the scene, with
    /// parameter strictly inside the window, or nothing.
    #[verifier::rlimit(100)]
    pub fn hit(&self, ray: &Ray, t_min: i64, t_max: i64) -> (r: Option<HitRecord>)
        requires
            self.wf(),
        ensures
            closest_hit_of(self.objects@, *ray, t_min as int, t_max as int, r),
            r matches Some(h) ==> t_min < h.t < t_max && material_wf(h.material)
                && ray.direction.spec_sq_mag() > 0,
    {
        let ghost objs = self.objects@;
        let mut best: Option<HitRecord> = None;
        let mut closest: i64 = t_max;
        let mut i: usize = 0;
        while i < self.objects.len()
            invariant
                self.wf(),
                objs == self.objects@,
                0 <= i <= objs.len(),
                best is None ==> closest == t_max && forall|j: int|
                    0 <= j < i ==> spec_shape_hit(
                        #[trigger] objs[j],
                        *ray,
                        t_min as int,
                        t_max as int,
                    ) is None,
                best matches Some(h) ==> {
                    &&& closest == h.t
                    &&& t_min < h.t < t_max
                    &&& material_wf(h.material)
                    &&& ray.direction.spec_sq_mag() > 0
                    &&& exists|j: int|
                        0 <= j < i && spec_shape_hit(
                            #[trigger] objs[j],
                            *ray,
                            t_min as int,
                            t_max as int,
                        ) == Some(h)
                    &&& forall|j: int|
                        0 <= j < i && spec_shape_hit(
                            #[trigger] objs[j],
                            *ray,
                            t_min as int,
                            t_max as int,
                        ) is Some ==> h.t <= spec_shape_hit(
                            objs[j],
                            *ray,
                            t_min as int,
                            t_max as int,
                        )->Some_0.t
                },
            decreases objs.len() - i,
        {
            let object = &self.objects[i];
            let candidate = object.hit(ray, t_min, closest);
            proof {
                match best {
                    None => {},
                    Some(h) => {
                        match candidate {
                            Some(h2) => {
                                lemma_shape_hit_widen(objs[i as int], *ray, t_min, closest, t_max);
                            },
                            None => {
                                if spec_shape_hit(
                                    objs[i as int],
                                    *ray,
                                    t_min as int,
                                    t_max as int,
                                ) matches Some(h3) && (h3.t as int) < closest {
                                    lemma_shape_hit_narrow(
                                        objs[i as int],
                                        *ray,
                                        t_min,
                                        closest,
                                        t_max,
                                    );
                                }
                            },
                        }
                    },
                }
                if best is None {
                    if candidate is Some {
                        assert(spec_shape_hit(objs[i as int], *ray, t_min as int, closest as int)
                            == spec_shape_hit(objs[i as int], *ray, t_min as int, t_max as int));
                    }
                }
            }
            if let Some(temp_hit_record) = candidate {
                closest = temp_hit_record.t();
                best = Some(temp_hit_record);
            }
            i = i + 1;
        }
        best
    }
}

} // verus!
