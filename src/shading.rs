//! Per-pixel decisions of the shading pipeline, taken on hit flags.
//!
//! The geometry (ray-sphere intersection, normals, light intensities) is
//! computed by the caller; what is decided here is which sphere a pixel shows
//! and which lights reach a surface point.
use vstd::prelude::*;

verus! {

/// No sphere in `hits` is hit.
pub open spec fn no_hit(hits: Seq<bool>) -> bool {
    forall|i: int| 0 <= i < hits.len() ==> !hits[i]
}

/// `k` is the last sphere, in scene order, that is hit.
pub open spec fn is_last_hit(hits: Seq<bool>, k: int) -> bool {
    &&& 0 <= k < hits.len()
    &&& hits[k]
    &&& forall|j: int| k < j < hits.len() ==> !hits[j]
}

/// Picks the sphere whose shading a pixel shows, given for each sphere of the
/// scene, in scene order, whether the primary ray hits it.
///
/// Every hit sphere overwrites the pixel in turn, so the last one hit wins,
/// whatever the distances; `None` leaves the background.
pub fn winning_sphere(hits: &Vec<bool>) -> (r: Option<usize>)
    ensures
        r.is_none() <==> no_hit(hits@),
        r matches Some(k) ==> is_last_hit(hits@, k as int),
{
    let mut winner: Option<usize> = None;
    let mut i: usize = 0;
    while i < hits.len()
        invariant
            0 <= i <= hits.len(),
            winner.is_none() ==> forall|j: int| 0 <= j < i ==> !hits@[j],
            winner matches Some(k) ==> k < i && hits@[k as int] && forall|j: int|
                k < j < i ==> !hits@[j],
        decreases hits.len() - i,
    {
        if hits[i] {
            winner = Some(i);
        }
        i += 1;
    }
    winner
}

/// A light reaches a surface point unless shadows are cast and some sphere
/// of the scene (the point's own included) stands in the way of the shadow
/// ray; `blockers` holds, per sphere, whether the shadow ray hits it.
pub open spec fn reaches(shadows: bool, blockers: Seq<bool>) -> bool {
    !shadows || no_hit(blockers)
}

/// For each light, in order, whether it reaches the point.
pub open spec fn lit_mask(shadows: bool, shadow_hits: Seq<Seq<bool>>) -> Seq<bool> {
    Seq::new(shadow_hits.len(), |j: int| reaches(shadows, shadow_hits[j]))
}

/// Decides whether a light contributes to a surface point: with shadows on,
/// a light whose shadow ray hits any sphere contributes nothing.
pub fn light_reaches(shadows: bool, blockers: &Vec<bool>) -> (r: bool)
    ensures
        r == reaches(shadows, blockers@),
{
    !shadows || winning_sphere(blockers).is_none()
}

/// Decides, light by light, which lights contribute to a surface point;
/// `shadow_hits[j]` holds the shadow-ray hit flags for light `j`.
pub fn lit_lights(shadows: bool, shadow_hits: &Vec<Vec<bool>>) -> (r: Vec<bool>)
    ensures
        r@ == lit_mask(shadows, shadow_hits@.map_values(|v: Vec<bool>| v@)),
{
    let mut mask: Vec<bool> = Vec::new();
    let mut j: usize = 0;
    while j < shadow_hits.len()
        invariant
            0 <= j <= shadow_hits.len(),
            mask@ =~= lit_mask(shadows, shadow_hits@.map_values(|v: Vec<bool>| v@)).take(j as int),
        decreases shadow_hits.len() - j,
    {
        let lit = light_reaches(shadows, &shadow_hits[j]);
        mask.push(lit);
        j += 1;
    }
    mask
}

/// When two spheres are both hit by a pixel's primary ray, the pixel shows
/// the one that comes later in scene order, never the earlier one, whichever
/// of the two is nearer.
pub proof fn lemma_last_hit_wins(hits: Seq<bool>, a: int, b: int)
    requires
        0 <= a < b < hits.len(),
        hits[a],
        hits[b],
    ensures
        !no_hit(hits),
        forall|k: int| is_last_hit(hits, k) ==> b <= k,
        !is_last_hit(hits, a),
{
}

/// With shadows on, a light whose shadow ray is blocked by any sphere
/// contributes nothing to the point.
pub proof fn lemma_blocked_light_is_dark(blockers: Seq<bool>, i: int)
    requires
        0 <= i < blockers.len(),
        blockers[i],
    ensures
        !reaches(true, blockers),
{
}

/// Lights are decided one by one: the lights that reach a point from a
/// scene with the lights `a` followed by `b` are those that reach it from
/// `a` alone, followed by those that reach it from `b` alone.
pub proof fn lemma_lights_independent(shadows: bool, a: Seq<Seq<bool>>, b: Seq<Seq<bool>>)
    ensures
        lit_mask(shadows, a + b) == lit_mask(shadows, a) + lit_mask(shadows, b),
{
    assert(lit_mask(shadows, a + b) =~= lit_mask(shadows, a) + lit_mask(shadows, b));
}

} // verus!
