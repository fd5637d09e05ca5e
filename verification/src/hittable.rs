//! Where a ray meets the scene.

use vstd::prelude::*;
use crate::interval::Interval;
use crate::material::Material;
use crate::scalar::Scalar;
use crate::vec3::{Point3, Vec3};

verus! {

/// The solved equation of one ray and one sphere: with `a` the squared
/// length of the ray's direction, `h` the direction's dot product with the
/// way to the centre and `c` the squared distance to the centre less the
/// squared radius, the discriminant is `h * h - a * c`, and the roots are
/// `(h - sqrt(discriminant)) / a` and `(h + sqrt(discriminant)) / a`.
#[derive(Clone, Copy, Debug, PartialEq, Eq, Structural)]
pub struct Crossing {
    pub discriminant: Scalar,
    /// The root with the minus sign, where the ray enters.
    pub near: Scalar,
    /// The root with the plus sign, where the ray leaves.
    pub far: Scalar,
}

impl Crossing {
    /// Whether the far root is not before the near one, as it is for every
    /// ray with a direction.
    pub open spec fn ordered(self) -> bool {
        !self.far.lt_spec(self.near)
    }

    /// The ray parameter of the hit within `ray_t`: none below a
    /// discriminant of zero; else the near root if the range surrounds it;
    /// else the far root if the range surrounds that; else none.
    pub open spec fn root_in_spec(self, ray_t: Interval) -> Option<Scalar> {
        if self.discriminant.lt_spec(Scalar::zero_spec()) {
            None
        } else if ray_t.surrounds_spec(self.near) {
            Some(self.near)
        } else if ray_t.surrounds_spec(self.far) {
            Some(self.far)
        } else {
            None
        }
    }

    /// The crossing with the given discriminant and roots.
    pub fn new(discriminant: Scalar, near: Scalar, far: Scalar) -> (r: Crossing)
        ensures
            r == (Crossing { discriminant, near, far }),
    {
        Crossing { discriminant, near, far }
    }

    /// The nearest root that lies in the acceptable range.
    pub fn root_in(&self, ray_t: Interval) -> (r: Option<Scalar>)
        ensures
            r == self.root_in_spec(ray_t),
    {
        if self.discriminant.lt(Scalar::zero()) {
            return None;
        }
        let mut root = self.near;
        if !ray_t.surrounds(root) {
            root = self.far;
            if !ray_t.surrounds(root) {
                return None;
            }
        }
        Some(root)
    }
}

/// Of the roots that a range surrounds the hit is the first along the ray:
/// the hit is at the near root wherever the range surrounds that, and no
/// root that the range surrounds lies before the hit.
pub proof fn lemma_root_in_is_entry(crossing: Crossing, ray_t: Interval)
    requires
        crossing.ordered(),
    ensures
        ray_t.surrounds_spec(crossing.near) && !crossing.discriminant.lt_spec(Scalar::zero_spec())
            ==> crossing.root_in_spec(ray_t) == Some(crossing.near),
        crossing.root_in_spec(ray_t) matches Some(t) ==> {
            &&& ray_t.surrounds_spec(t)
            &&& ray_t.surrounds_spec(crossing.near) ==> !crossing.near.lt_spec(t)
            &&& ray_t.surrounds_spec(crossing.far) ==> !crossing.far.lt_spec(t)
        },
{
}

/// A sphere behind the ray is not hit: where neither root lies beyond the
/// start of the range, as when both are negative and the range starts at
/// zero or above, there is no hit.
pub proof fn lemma_roots_behind_miss(crossing: Crossing, ray_t: Interval)
    requires
        crossing.near.le_spec(ray_t.min),
        crossing.far.le_spec(ray_t.min),
    ensures
        crossing.root_in_spec(ray_t) is None,
{
}

/// A negative discriminant, or a root that is a NaN, gives no hit.
pub proof fn lemma_no_real_root_misses(crossing: Crossing, ray_t: Interval)
    requires
        crossing.discriminant.lt_spec(Scalar::zero_spec()) || (crossing.near.nan()
            && crossing.far.nan()),
    ensures
        crossing.root_in_spec(ray_t) is None,
{
}

/// The object that a scan found nearest, by its place in the scene, and the
/// ray parameter at which the ray meets it.
#[derive(Clone, Copy, Debug, PartialEq, Eq, Structural)]
pub struct Nearest {
    pub index: usize,
    pub t: Scalar,
}

/// The upper end of the range that is left once `best` has been found.
pub open spec fn closest_so_far(best: Option<Nearest>, ray_t: Interval) -> Scalar {
    match best {
        Some(n) => n.t,
        None => ray_t.max,
    }
}

/// Whether the hit `best` is the one to return in view of object `i`, whose
/// crossing is `c`: where that object has a hit in the range, `best` does
/// not lie behind it; `best` lies before it if the object comes earlier in
/// the scene than the one that `best` names; and `best` is that hit if the
/// object is the one that `best` names and its roots are in order.
pub open spec fn stands_against(best: Nearest, i: int, c: Crossing, ray_t: Interval) -> bool {
    c.root_in_spec(ray_t) matches Some(u) ==> {
        &&& !u.lt_spec(best.t)
        &&& i < best.index ==> best.t.lt_spec(u)
        &&& i == best.index && c.ordered() ==> best.t == u
    }
}

/// What a scan over the objects in their order finds: each object is asked
/// for a hit between `ray_t.min` and the closest hit so far, and a hit that
/// it reports takes the place of the one before.
pub open spec fn nearest_spec(crossings: Seq<Crossing>, ray_t: Interval) -> Option<Nearest>
    decreases crossings.len(),
{
    if crossings.len() == 0 {
        None
    } else {
        let before = nearest_spec(crossings.drop_last(), ray_t);
        let range = Interval { min: ray_t.min, max: closest_so_far(before, ray_t) };
        match crossings.last().root_in_spec(range) {
            Some(t) => Some(Nearest { index: (crossings.len() - 1) as usize, t }),
            None => before,
        }
    }
}

/// The nearest hit of a ray within `ray_t`, given the ray's crossing with
/// each object of the scene in the scene's order: no object has a hit in
/// the range that lies before the one returned, and of hits at one distance
/// the first in the scene is returned. Nothing is returned exactly when no
/// object has a hit in the range.
pub fn nearest_hit(crossings: &Vec<Crossing>, ray_t: Interval) -> (r: Option<Nearest>)
    ensures
        r == nearest_spec(crossings@, ray_t),
        r is None <==> forall|i: int|
            0 <= i < crossings.len() ==> (#[trigger] crossings[i]).root_in_spec(ray_t) is None,
        r matches Some(n) ==> {
            &&& n.index < crossings.len()
            &&& ray_t.surrounds_spec(n.t)
            &&& n.t == crossings[n.index as int].near || n.t == crossings[n.index as int].far
        },
        r matches Some(n) ==> forall|i: int|
            0 <= i < crossings.len() ==> stands_against(n, i, #[trigger] crossings[i], ray_t),
{
    let mut hit_anything: Option<Nearest> = None;
    let mut closest_so_far: Scalar = ray_t.max;
    let mut i: usize = 0;
    while i < crossings.len()
        invariant
            i <= crossings.len(),
            hit_anything == nearest_spec(crossings@.take(i as int), ray_t),
            closest_so_far == self::closest_so_far(hit_anything, ray_t),
        decreases crossings.len() - i,
    {
        proof {
            assert(crossings@.take(i + 1).drop_last() =~= crossings@.take(i as int));
        }
        if let Some(t) = crossings[i].root_in(Interval::new(ray_t.min, closest_so_far)) {
            closest_so_far = t;
            hit_anything = Some(Nearest { index: i, t });
        }
        i += 1;
    }
    proof {
        assert(crossings@.take(i as int) =~= crossings@);
        lemma_nearest_none(crossings@, ray_t);
        lemma_nearest_in_range(crossings@, ray_t);
        if let Some(n) = hit_anything {
            assert forall|i: int| 0 <= i < crossings.len() implies stands_against(
                n,
                i,
                #[trigger] crossings[i],
                ray_t,
            ) by {
                if crossings[i].root_in_spec(ray_t) is Some {
                    lemma_nearest_is_nearest(crossings@, ray_t, i);
                }
            }
        }
    }
    hit_anything
}

/// A scan finds nothing exactly when no object alone has a hit in the
/// range.
pub proof fn lemma_nearest_none(crossings: Seq<Crossing>, ray_t: Interval)
    requires
        crossings.len() <= usize::MAX,
    ensures
        nearest_spec(crossings, ray_t) is None <==> forall|i: int|
            0 <= i < crossings.len() ==> (#[trigger] crossings[i]).root_in_spec(ray_t) is None,
    decreases crossings.len(),
{
    if crossings.len() > 0 {
        let front = crossings.drop_last();
        lemma_nearest_none(front, ray_t);
        lemma_nearest_in_range(front, ray_t);
        if nearest_spec(crossings, ray_t) is None {
            assert forall|i: int| 0 <= i < crossings.len() implies (
            #[trigger] crossings[i]).root_in_spec(ray_t) is None by {
                if i < front.len() {
                    assert(front[i].root_in_spec(ray_t) is None);
                }
            }
        }
    }
}

/// What a scan finds is a root of the object it names, that object's
/// discriminant is not below zero, and the range surrounds the root.
pub proof fn lemma_nearest_in_range(crossings: Seq<Crossing>, ray_t: Interval)
    requires
        crossings.len() <= usize::MAX,
    ensures
        nearest_spec(crossings, ray_t) matches Some(n) ==> {
            &&& n.index < crossings.len()
            &&& ray_t.surrounds_spec(n.t)
            &&& !crossings[n.index as int].discriminant.lt_spec(Scalar::zero_spec())
            &&& n.t == crossings[n.index as int].near || n.t == crossings[n.index as int].far
        },
    decreases crossings.len(),
{
    if crossings.len() > 0 {
        let front = crossings.drop_last();
        lemma_nearest_in_range(front, ray_t);
    }
}

/// The scan returns the nearest hit, never a farther one: no object has a
/// hit in the range that lies before the one returned, whatever the order
/// of the objects. Of hits at the same distance the scan keeps the one that
/// comes first in the scene, and what it returns for an object whose roots
/// are in order is that object's own hit.
pub proof fn lemma_nearest_is_nearest(crossings: Seq<Crossing>, ray_t: Interval, i: int)
    requires
        crossings.len() <= usize::MAX,
        0 <= i < crossings.len(),
        crossings[i].root_in_spec(ray_t) is Some,
    ensures
        nearest_spec(crossings, ray_t) matches Some(n) && stands_against(
            n,
            i,
            crossings[i],
            ray_t,
        ),
    decreases crossings.len(),
{
    let front = crossings.drop_last();
    lemma_nearest_in_range(front, ray_t);
    if i < front.len() {
        lemma_nearest_is_nearest(front, ray_t, i);
    }
}

/// In a scene without objects nothing is hit.
pub proof fn lemma_empty_scene_misses(ray_t: Interval)
    ensures
        nearest_spec(Seq::<Crossing>::empty(), ray_t) is None,
{
}

/// The point where a ray met a surface.
#[derive(Clone, Copy, Debug, PartialEq, Eq, Structural)]
pub struct HitRecord {
    pub p: Point3,
    /// The unit normal of the surface, on the side that the ray came from.
    pub normal: Vec3,
    pub mat: Material,
    pub t: Scalar,
    /// Whether the ray came from outside the surface.
    pub front_face: bool,
}

impl HitRecord {
    /// The record of a hit at `p`, reached at ray parameter `t`.
    /// `outward_normal` is the surface's unit normal pointing outward, and
    /// `facing` the dot product of the ray's direction with it: the ray came
    /// from outside when that is below zero, and the record's normal is
    /// turned to the ray's side.
    pub fn new(p: Point3, t: Scalar, mat: Material, facing: Scalar, outward_normal: Vec3) -> (r:
        HitRecord)
        ensures
            r.p == p,
            r.t == t,
            r.mat == mat,
            r.front_face == facing.lt_spec(Scalar::zero_spec()),
            r.normal == if r.front_face {
                outward_normal
            } else {
                outward_normal.neg_spec()
            },
    {
        let front_face = facing.lt(Scalar::zero());
        let normal = if front_face {
            outward_normal
        } else {
            outward_normal.neg()
        };
        HitRecord { p, normal, mat, t, front_face }
    }
}

/// The recorded normal is against the ray: the dot product of the ray's
/// direction with it, which is `facing` for a hit from outside and the
/// negation of `facing` for any other, is never above zero.
pub proof fn lemma_normal_is_against_ray(facing: Scalar)
    ensures
        !Scalar::zero_spec().lt_spec(
            if facing.lt_spec(Scalar::zero_spec()) {
                facing
            } else {
                facing.neg_spec()
            },
        ),
{
    crate::scalar::lemma_neg_mirrors(facing, Scalar::zero_spec());
}

} // verus!
