//! Acceptance of ray-triangle solutions and the closest-hit scan.
//!
//! For a ray `origin + t * direction` and a triangle `v0, v1, v2`, the
//! system with columns `[-direction, v1 - v0, v2 - v0]` and right-hand side
//! `origin - v0` has the solution `(t, u, v)`. Solving it is arithmetic and
//! is done by the caller; this module takes what the solve produced and
//! decides.

use crate::scalar::{Scalar, Vec3};
use vstd::prelude::*;

verus! {

/// What solving the system for one ray and one triangle produced.
#[derive(Clone, Copy, Debug, PartialEq, Eq, Structural)]
pub struct PlaneSolve {
    /// Determinant of the system matrix.
    pub determinant: Scalar,
    /// The solution `(t, u, v)`.
    pub tuv: Vec3,
    /// `u + v - 1`, computed in binary32.
    pub uv_excess: Scalar,
    /// `origin + t * direction`.
    pub position: Vec3,
}

/// A hit of a ray on a triangle of the scene.
#[derive(Clone, Copy, Debug, PartialEq, Eq, Structural)]
pub struct TriangleIntersection {
    /// The point that was hit, in world coordinates.
    pub position: Vec3,
    /// Ray parameter `t` and the triangle-local coordinates `u`, `v`.
    pub tuv: Vec3,
    /// `u + v - 1`, computed in binary32.
    pub uv_excess: Scalar,
    /// Distance along the ray: `t`.
    pub distance: Scalar,
    /// Index of the triangle in the scene.
    pub hit_obj: usize,
}

impl TriangleIntersection {
    /// The inside-triangle predicate: `t` at least the tolerance, `u` and `v`
    /// not negative, and `u + v - 1` at most the tolerance.
    pub open spec fn inside(&self) -> bool {
        &&& Scalar::tolerance().at_most(self.tuv.x)
        &&& Scalar::zero().at_most(self.tuv.y)
        &&& Scalar::zero().at_most(self.tuv.z)
        &&& self.uv_excess.at_most(Scalar::tolerance())
    }

    #[verifier::when_used_as_spec(inside)]
    pub fn is_inside(&self) -> (r: bool)
        ensures
            r == self.inside(),
    {
        self.tuv.x.ge(Scalar::tolerance()) && self.tuv.y.ge(Scalar::zero()) && self.tuv.z.ge(
            Scalar::zero(),
        ) && self.uv_excess.le(Scalar::tolerance())
    }

    pub fn get_hit_point(&self) -> (r: Vec3)
        ensures
            r == self.position,
    {
        self.position
    }

    pub fn get_distance(&self) -> (r: Scalar)
        ensures
            r == self.distance,
    {
        self.distance
    }
}

impl PlaneSolve {
    /// The hit that this solve stands for, if it stands for one. There is
    /// none when the determinant's absolute value is at most the tolerance
    /// (the ray runs parallel to the triangle's plane, or nearly so), when
    /// the distance is NaN, or when the solution fails the inside-triangle
    /// predicate.
    pub open spec fn hit(self, hit_obj: usize) -> Option<TriangleIntersection> {
        let candidate = TriangleIntersection {
            position: self.position,
            tuv: self.tuv,
            uv_excess: self.uv_excess,
            distance: self.tuv.x,
            hit_obj,
        };
        if self.determinant.magnitude_of().at_most(Scalar::tolerance()) {
            None
        } else if candidate.distance.nan() || !candidate.inside() {
            None
        } else {
            Some(candidate)
        }
    }

    /// Decides whether the solve for the triangle with index `hit_obj` is a
    /// hit, and returns its record if so.
    pub fn intersect(&self, hit_obj: usize) -> (r: Option<TriangleIntersection>)
        ensures
            r == self.hit(hit_obj),
    {
        if self.determinant.abs().le(Scalar::tolerance()) {
            return None;
        }
        let candidate = TriangleIntersection {
            position: self.position,
            tuv: self.tuv,
            uv_excess: self.uv_excess,
            distance: self.tuv.x,
            hit_obj,
        };
        if !candidate.distance.is_nan() && candidate.is_inside() {
            Some(candidate)
        } else {
            None
        }
    }
}

/// Whether `closest` is the closest hit among the first `count` solves,
/// `solves[i]` being the solve for the triangle with index `i`: no hit at all
/// if none of them is one; otherwise a hit that no other hit undercuts in
/// distance, and of several such the one with the smallest index.
pub open spec fn closest_among(
    solves: Seq<PlaneSolve>,
    count: int,
    closest: Option<TriangleIntersection>,
) -> bool {
    match closest {
        None => forall|i: int| 0 <= i < count ==> (#[trigger] solves[i]).hit(i as usize) is None,
        Some(best) => {
            &&& 0 <= best.hit_obj < count
            &&& solves[best.hit_obj as int].hit(best.hit_obj) == Some(best)
            &&& forall|i: int|
                0 <= i < count ==> match (#[trigger] solves[i]).hit(i as usize) {
                    Some(other) => !other.distance.less(best.distance) && (i < best.hit_obj
                        ==> best.distance.less(other.distance)),
                    None => true,
                }
        },
    }
}

/// Whether `closest` is the closest hit of a whole scene.
pub open spec fn is_closest(solves: Seq<PlaneSolve>, closest: Option<TriangleIntersection>) -> bool {
    closest_among(solves, solves.len() as int, closest)
}

/// Scans the solves of a ray against every triangle of the scene, in scene
/// order, and returns the hit with the smallest distance; of equally distant
/// hits the first. Returns `None` if the ray hits nothing.
pub fn closest_intersection(solves: &[PlaneSolve]) -> (closest: Option<TriangleIntersection>)
    ensures
        is_closest(solves@, closest),
{
    let mut closest: Option<TriangleIntersection> = None;
    let mut i: usize = 0;
    while i < solves.len()
        invariant
            0 <= i <= solves@.len(),
            closest_among(solves@, i as int, closest),
        decreases solves@.len() - i,
    {
        match solves[i].intersect(i) {
            Some(hit) => {
                let nearer = match &closest {
                    Some(best) => hit.distance.lt(best.distance),
                    None => true,
                };
                if nearer {
                    closest = Some(hit);
                }
            },
            None => {},
        }
        i = i + 1;
    }
    closest
}

/// A solve whose determinant is zero, as for a ray parallel to the
/// triangle's plane, is no hit.
pub proof fn lemma_parallel_misses(solve: PlaneSolve, hit_obj: usize)
    requires
        solve.determinant.magnitude() == 0,
    ensures
        solve.hit(hit_obj) is None,
{
}

/// A hit never has a NaN distance, and its distance is at least the
/// tolerance, hence positive.
pub proof fn lemma_hit_distance(solve: PlaneSolve, hit_obj: usize)
    requires
        solve.hit(hit_obj) is Some,
    ensures
        !solve.hit(hit_obj).unwrap().distance.nan(),
        Scalar::tolerance().at_most(solve.hit(hit_obj).unwrap().distance),
        Scalar::zero().less(solve.hit(hit_obj).unwrap().distance),
        solve.hit(hit_obj).unwrap().hit_obj == hit_obj,
{
}

/// A solution in front of the ray origin that lies strictly inside the
/// triangle passes the inside-triangle predicate: `u` and `v` positive and
/// `u + v - 1` not above zero, at a distance of at least the tolerance.
pub proof fn lemma_interior_is_inside(hit: TriangleIntersection)
    requires
        Scalar::tolerance().at_most(hit.tuv.x),
        Scalar::zero().less(hit.tuv.y),
        Scalar::zero().less(hit.tuv.z),
        hit.uv_excess.at_most(Scalar::zero()),
    ensures
        hit.inside(),
{
}

/// A solution with a negative `u`, a negative `v`, or `u + v - 1` above the
/// tolerance fails the inside-triangle predicate.
pub proof fn lemma_exterior_is_rejected(hit: TriangleIntersection)
    requires
        hit.tuv.y.less(Scalar::zero()) || hit.tuv.z.less(Scalar::zero())
            || Scalar::tolerance().less(hit.uv_excess),
    ensures
        !hit.inside(),
{
}

/// A scene has one closest hit only.
pub proof fn lemma_closest_unique(
    solves: Seq<PlaneSolve>,
    a: Option<TriangleIntersection>,
    b: Option<TriangleIntersection>,
)
    requires
        solves.len() <= usize::MAX,
        is_closest(solves, a),
        is_closest(solves, b),
    ensures
        a == b,
{
    match (a, b) {
        (Some(x), Some(y)) => {
            assert(solves[x.hit_obj as int].hit(x.hit_obj) == Some(x));
            assert(solves[y.hit_obj as int].hit(y.hit_obj) == Some(y));
        },
        (Some(x), None) => {
            assert(solves[x.hit_obj as int].hit(x.hit_obj) == Some(x));
        },
        (None, Some(y)) => {
            assert(solves[y.hit_obj as int].hit(y.hit_obj) == Some(y));
        },
        (None, None) => {},
    }
}

/// Adding a triangle that the ray misses, or hits no nearer than the closest
/// hit so far, leaves the closest hit as it was.
pub proof fn lemma_farther_changes_nothing(
    solves: Seq<PlaneSolve>,
    closest: Option<TriangleIntersection>,
    extra: PlaneSolve,
)
    requires
        solves.len() < usize::MAX,
        is_closest(solves, closest),
        match extra.hit(solves.len() as usize) {
            Some(hit) => closest is Some && !hit.distance.less(closest.unwrap().distance),
            None => true,
        },
    ensures
        is_closest(solves.push(extra), closest),
{
    let longer = solves.push(extra);
    assert forall|i: int| 0 <= i < solves.len() implies (#[trigger] longer[i]) == solves[i] by {}
    match closest {
        Some(best) => {
            assert(longer[best.hit_obj as int] == solves[best.hit_obj as int]);
        },
        None => {},
    }
}

/// Adding a triangle that the ray hits nearer than the closest hit so far,
/// or hits at all when it hit nothing so far, makes that hit the closest.
pub proof fn lemma_closer_becomes_closest(
    solves: Seq<PlaneSolve>,
    closest: Option<TriangleIntersection>,
    extra: PlaneSolve,
)
    requires
        solves.len() < usize::MAX,
        is_closest(solves, closest),
        extra.hit(solves.len() as usize) is Some,
        closest is Some ==> extra.hit(solves.len() as usize).unwrap().distance.less(
            closest.unwrap().distance,
        ),
    ensures
        is_closest(solves.push(extra), extra.hit(solves.len() as usize)),
{
    let longer = solves.push(extra);
    let hit = extra.hit(solves.len() as usize).unwrap();
    assert forall|i: int| 0 <= i < solves.len() implies (#[trigger] longer[i]) == solves[i] by {}
    assert(longer[solves.len() as int] == extra);
    match closest {
        Some(best) => {
            assert(solves[best.hit_obj as int].hit(best.hit_obj) == Some(best));
        },
        None => {},
    }
}

} // verus!
