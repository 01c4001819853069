//! The scene: the objects that light meets.

use vstd::prelude::*;
use crate::arithmetic::Arithmetic;
use crate::color::Rgb;
use crate::material::Material;
use crate::ray::Ray;
use crate::shape::in_reach;
use crate::shape::is_nearest;
use crate::shape::is_shape_hit;
use crate::shape::nearest;
use crate::shape::HitRecord;
use crate::shape::Shape;
use crate::vec3::Vec3;

verus! {

/// A shape and the material of its surface.
#[derive(Debug)]
pub struct Object {
    pub shape: Shape,
    pub material: Material,
}

impl Object {
    /// Where the ray first meets the object, if it does in front of its origin.
    pub fn intersect<A: Arithmetic>(&self, ar: &A, ray: &Ray) -> (hit: Option<HitRecord>)
        ensures
            is_shape_hit(ar, self.shape, *ray, hit),
            hit.is_some() ==> hit.unwrap().ray_t.non_negative(),
    {
        self.shape.intersect(ar, ray)
    }
}

/// Whether the candidates are what the arithmetic gives as the hits of the ray
/// on the objects, one for each in their order.
pub open spec fn are_hits<A: Arithmetic>(
    ar: &A,
    objects: Seq<Object>,
    ray: Ray,
    hits: Seq<Option<HitRecord>>,
) -> bool {
    &&& hits.len() == objects.len()
    &&& forall|i: int|
        0 <= i < objects.len() ==> is_shape_hit(ar, objects[i].shape, ray, #[trigger] hits[i])
}

/// Whether `closest` is the nearest of the candidates with the object that it
/// belongs to: none if no candidate is in reach.
pub open spec fn is_closest(
    objects: Seq<Object>,
    hits: Seq<Option<HitRecord>>,
    closest: Option<(HitRecord, Object)>,
) -> bool {
    match closest {
        Some((record, object)) => exists|i: int|
            is_nearest(hits, i) && #[trigger] hits[i] == Some(record) && 0 <= i < objects.len()
                && object == objects[i],
        None => forall|j: int| 0 <= j < hits.len() ==> !in_reach(#[trigger] hits[j]),
    }
}

/// The record and the object as values.
pub open spec fn hit_and_object(closest: Option<(HitRecord, &Object)>) -> Option<
    (HitRecord, Object),
> {
    match closest {
        Some((record, object)) => Some((record, *object)),
        None => None,
    }
}

/// Whether `closest` is what the arithmetic gives as the first hit of the ray
/// among the objects: the nearest of their hits, with its object.
pub open spec fn is_closest_hit<A: Arithmetic>(
    ar: &A,
    objects: Seq<Object>,
    ray: Ray,
    closest: Option<(HitRecord, Object)>,
) -> bool {
    exists|hits: Seq<Option<HitRecord>>|
        #[trigger] are_hits(ar, objects, ray, hits) && is_closest(objects, hits, closest)
}

/// Whether the material of each object is well formed.
pub open spec fn all_well_formed(objects: Seq<Object>) -> bool {
    forall|i: int| 0 <= i < objects.len() ==> (#[trigger] objects[i]).material.well_formed()
}

/// Tests the ray against each object in turn.
pub fn intersect_all<A: Arithmetic>(ar: &A, objects: &Vec<Object>, ray: &Ray) -> (hits: Vec<
    Option<HitRecord>,
>)
    ensures
        are_hits(ar, objects@, *ray, hits@),
        hits.len() == objects.len(),
        forall|i: int|
            0 <= i < hits.len() && (#[trigger] hits[i]).is_some()
                ==> hits[i].unwrap().ray_t.non_negative(),
{
    let mut hits: Vec<Option<HitRecord>> = Vec::new();
    let mut k: usize = 0;
    while k < objects.len()
        invariant
            0 <= k <= objects.len(),
            hits.len() == k,
            forall|i: int|
                0 <= i < k ==> is_shape_hit(ar, objects[i].shape, *ray, #[trigger] hits[i]),
            forall|i: int|
                0 <= i < k && (#[trigger] hits[i]).is_some()
                    ==> hits[i].unwrap().ray_t.non_negative(),
        decreases objects.len() - k,
    {
        let hit = objects[k].intersect(ar, ray);
        hits.push(hit);
        k += 1;
    }
    hits
}

/// The object that the ray meets first, with the record of the hit: the
/// nearest among the objects' hits, the earlier object among equally near ones.
pub fn get_closest_hit<'a, A: Arithmetic>(ar: &A, objects: &'a Vec<Object>, ray: &Ray) -> (closest:
    Option<(HitRecord, &'a Object)>)
    ensures
        is_closest_hit(ar, objects@, *ray, hit_and_object(closest)),
        objects.len() == 0 ==> closest.is_none(),
        closest.is_some() ==> {
            &&& closest.unwrap().0.ray_t.non_negative()
            &&& closest.unwrap().0.ray_t.finite()
            &&& exists|i: int| 0 <= i < objects.len() && *closest.unwrap().1 == #[trigger] objects[i]
        },
{
    let hits = intersect_all(ar, objects, ray);
    let closest = match nearest(&hits) {
        None => None,
        Some(i) => {
            assert(in_reach(hits[i as int]));
            match hits[i] {
                None => None,
                Some(record) => Some((record, &objects[i])),
            }
        },
    };
    assert(is_closest(objects@, hits@, hit_and_object(closest)));
    closest
}

/// The objects of a scene, in the order in which they were added, and the
/// color that shows where there is none of them.
#[derive(Debug)]
pub struct Scene {
    pub objects: Vec<Object>,
    pub background_color: Rgb,
}

impl Scene {
    /// Whether the material of each object is well formed.
    pub open spec fn well_formed(&self) -> bool {
        all_well_formed(self.objects@)
    }

    /// The empty scene, with a dark background.
    pub fn new() -> (scene: Scene)
        ensures
            scene.objects@ == Seq::<Object>::empty(),
            scene.background_color == (Rgb { r: 0, g: 0, b: 0 }),
            scene.well_formed(),
    {
        Scene { objects: Vec::new(), background_color: Rgb { r: 0, g: 0, b: 0 } }
    }

    /// Adds an object behind those that the scene has.
    pub fn add_object(&mut self, object: Object) -> (scene: &mut Scene)
        ensures
            scene.objects@ == old(self).objects@.push(object),
            scene.background_color == old(self).background_color,
            old(self).well_formed() && object.material.well_formed() ==> scene.well_formed(),
            *final(self) == *final(scene),
    {
        self.objects.push(object);
        self
    }

    /// The objects, in the order in which they were added.
    pub fn get_objects(&self) -> (objects: &Vec<Object>)
        ensures
            objects == self.objects,
    {
        &self.objects
    }

    /// Tells whether the material of each object is well formed.
    pub fn is_well_formed(&self) -> (ok: bool)
        ensures
            ok == self.well_formed(),
    {
        let mut k: usize = 0;
        while k < self.objects.len()
            invariant
                0 <= k <= self.objects.len(),
                forall|i: int| 0 <= i < k ==> (#[trigger] self.objects[i]).material.well_formed(),
            decreases self.objects.len() - k,
        {
            if !self.objects[k].material.is_well_formed() {
                return false;
            }
            k += 1;
        }
        true
    }

    /// The point where the ray first meets an object of the scene, and that
    /// object; none if it meets no object.
    pub fn nearest_hit<'a, A: Arithmetic>(&'a self, ar: &A, ray: &Ray) -> (hit: Option<
        (Vec3, &'a Object),
    >)
        ensures
            match hit {
                Some((point, object)) => exists|record: HitRecord|
                    #[trigger] is_closest_hit(ar, self.objects@, *ray, Some((record, *object)))
                        && point == record.point,
                None => is_closest_hit(ar, self.objects@, *ray, None),
            },
            self.objects.len() == 0 ==> hit.is_none(),
            hit.is_some() ==> exists|i: int|
                0 <= i < self.objects.len() && *hit.unwrap().1 == #[trigger] self.objects[i],
    {
        match get_closest_hit(ar, &self.objects, ray) {
            None => None,
            Some((record, object)) => {
                assert(is_closest_hit(ar, self.objects@, *ray, Some((record, *object))));
                Some((record.point, object))
            },
        }
    }
}

} // verus!
