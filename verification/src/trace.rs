//! What a ray meets and what becomes of it: on which side of a surface, at
//! which crossing, which surface first, and how far it is followed.

use vstd::prelude::*;

verus! {

/// The side of a surface on which a ray meets it.
///
/// A hit keeps a normal that faces against the ray. The side records what it
/// took to get one: from the outside the surface's own outward normal is
/// kept, from the inside it is reversed.
#[derive(Clone, Copy, Debug, PartialEq, Eq, Structural)]
pub enum GeometrySide {
    Inside,
    Outside,
}

impl GeometrySide {
    /// The side on which a ray meets a surface, told by whether the ray runs
    /// along the surface's outward normal, that is, whether the product of
    /// its direction with that normal is positive. A ray that grazes the
    /// surface, with a product of zero, meets it from the outside.
    pub open spec fn met(along_normal: bool) -> GeometrySide {
        if along_normal {
            GeometrySide::Inside
        } else {
            GeometrySide::Outside
        }
    }

    /// Whether the outward normal is reversed for a hit on this side.
    pub open spec fn is_reversed(self) -> bool {
        self == GeometrySide::Inside
    }

    /// The product of a ray's direction with the normal that a hit keeps,
    /// given its product with the surface's outward normal: reversing the
    /// normal reverses the product.
    pub open spec fn kept_product(product: int) -> int {
        if GeometrySide::met(product > 0).is_reversed() {
            -product
        } else {
            product
        }
    }

    /// The normal that a hit keeps never runs along the ray: its product
    /// with the ray's direction, taken exactly, is not positive.
    pub proof fn lemma_kept_normal_faces_ray(product: int)
        ensures
            GeometrySide::kept_product(product) <= 0,
    {
    }

    /// The side on which a ray meets a surface; see [`GeometrySide::met`].
    pub fn facing(along_normal: bool) -> (side: GeometrySide)
        ensures
            side == GeometrySide::met(along_normal),
    {
        if along_normal {
            GeometrySide::Inside
        } else {
            GeometrySide::Outside
        }
    }

    /// Whether the outward normal is reversed for a hit on this side.
    pub fn reverses_normal(self) -> (reversed: bool)
        ensures
            reversed == self.is_reversed(),
    {
        match self {
            GeometrySide::Inside => true,
            GeometrySide::Outside => false,
        }
    }
}

/// The number that a pattern of a sign bit above 31 bits of magnitude
/// spells, counted in steps of the least magnitude.
///
/// Distances along a ray are held in such patterns, and two distances
/// compare as these numbers do.
pub open spec fn signed_magnitude(bits: u32) -> int {
    if bits & 0x8000_0000 == 0 {
        (bits & 0x7fff_ffff) as int
    } else {
        -((bits & 0x7fff_ffff) as int)
    }
}

/// The rank of a sign-and-magnitude pattern among all such patterns.
pub open spec fn rank_of(bits: u32) -> u32 {
    if bits & 0x8000_0000 == 0 {
        bits | 0x8000_0000
    } else {
        !bits
    }
}

/// Ranks are ordered as the numbers that the patterns spell, and no two
/// patterns share a rank. The two patterns of zero rank next to each other,
/// the negative one first.
pub proof fn lemma_rank_follows_value(a: u32, b: u32)
    ensures
        signed_magnitude(a) < signed_magnitude(b) ==> rank_of(a) < rank_of(b),
        rank_of(a) < rank_of(b) ==> signed_magnitude(a) <= signed_magnitude(b),
        rank_of(a) == rank_of(b) <==> a == b,
{
    lemma_rank_is_shifted_value(a);
    lemma_rank_is_shifted_value(b);
}

/// The rank of a pattern without the sign bit lies as far above the middle of
/// the ranks as its number lies above zero; that of a pattern with the sign
/// bit lies as far below the rank just under the middle.
proof fn lemma_rank_is_shifted_value(bits: u32)
    ensures
        bits & 0x8000_0000 == 0 ==> bits < 0x8000_0000 && signed_magnitude(bits) == bits
            && rank_of(bits) == bits + 0x8000_0000,
        bits & 0x8000_0000 != 0 ==> bits >= 0x8000_0000 && signed_magnitude(bits) == 0x8000_0000
            - bits && rank_of(bits) == 0xffff_ffff - bits,
{
    assert(bits & 0x8000_0000 == 0 ==> bits < 0x8000_0000 && bits & 0x7fff_ffff == bits && bits
        | 0x8000_0000 == bits + 0x8000_0000) by (bit_vector);
    assert(bits & 0x8000_0000 != 0 ==> bits >= 0x8000_0000 && bits & 0x7fff_ffff == bits
        - 0x8000_0000 && !bits == 0xffff_ffff - bits) by (bit_vector);
}

/// The rank of the distance whose pattern is `bits`: an integer that is
/// ordered among ranks as the distance is among distances.
pub fn rank_of_bits(bits: u32) -> (rank: u32)
    ensures
        rank == rank_of(bits),
{
    if bits & 0x8000_0000 == 0 {
        bits | 0x8000_0000
    } else {
        !bits
    }
}

/// One of the two places at which a line through a sphere crosses its
/// surface.
#[derive(Clone, Copy, Debug, PartialEq, Eq, Structural)]
pub enum Crossing {
    /// The crossing at the smaller distance along the ray.
    Near,
    /// The crossing at the greater distance along the ray.
    Far,
}

/// Which crossing of a sphere counts as the hit, for a search between the
/// ranks `lower` and `upper`, both included: the near one where it lies in
/// between, else the far one where that does, else neither.
pub open spec fn crossing_in(near: u32, far: u32, lower: u32, upper: u32) -> Option<Crossing> {
    if lower <= near <= upper {
        Some(Crossing::Near)
    } else if lower <= far <= upper {
        Some(Crossing::Far)
    } else {
        None
    }
}

/// The crossing that counts as the hit of a ray on a sphere, from the ranks
/// of the distances of the two crossings and of the ends of the search; see
/// [`crossing_in`].
pub fn crossing_within(near: u32, far: u32, lower: u32, upper: u32) -> (hit: Option<Crossing>)
    ensures
        hit == crossing_in(near, far, lower, upper),
{
    if lower <= near && near <= upper {
        Some(Crossing::Near)
    } else if lower <= far && far <= upper {
        Some(Crossing::Far)
    } else {
        None
    }
}

/// The crossing that counts as the hit of a ray on a sphere. `cuts` says
/// whether the line of the ray cuts the sphere at all, that is, whether the
/// discriminant of the crossing equation is positive; a line that passes the
/// sphere by, or only touches it, gives no hit. Where it cuts, the ranks
/// decide as in [`crossing_in`].
pub fn crossing_of(cuts: bool, near: u32, far: u32, lower: u32, upper: u32) -> (hit: Option<
    Crossing,
>)
    ensures
        hit == if cuts {
            crossing_in(near, far, lower, upper)
        } else {
            None
        },
{
    if cuts {
        crossing_within(near, far, lower, upper)
    } else {
        None
    }
}

/// Whether place `winner` holds the nearest of `ranks`: a rank that none
/// undercuts, and that none before it equals. A place without a rank stands
/// for a surface that the ray misses.
pub open spec fn is_nearest(ranks: Seq<Option<u32>>, winner: int) -> bool {
    &&& 0 <= winner < ranks.len()
    &&& ranks[winner] is Some
    &&& forall|j: int|
        0 <= j < ranks.len() && (#[trigger] ranks[j]) is Some ==> ranks[winner]->0 <= ranks[j]->0
    &&& forall|j: int|
        0 <= j < winner && (#[trigger] ranks[j]) is Some ==> ranks[winner]->0 < ranks[j]->0
}

/// Only one place holds the nearest.
pub proof fn lemma_nearest_is_one(ranks: Seq<Option<u32>>, winner: int, other: int)
    requires
        is_nearest(ranks, winner),
        is_nearest(ranks, other),
    ensures
        winner == other,
{
}

/// The place of the nearest hit among the surfaces of a scene, each given
/// by the rank of the distance at which the ray meets it, or by nothing
/// where the ray misses it. Where the ray misses them all there is none.
///
/// Of two surfaces that are met equally near, the one that comes first in
/// the scene is the nearest.
pub fn nearest(ranks: &Vec<Option<u32>>) -> (winner: Option<usize>)
    ensures
        match winner {
            Some(place) => is_nearest(ranks@, place as int),
            None => forall|j: int| 0 <= j < ranks.len() ==> ranks[j] is None,
        },
{
    let mut closest: Option<(usize, u32)> = None;
    let mut next: usize = 0;
    while next < ranks.len()
        invariant
            next <= ranks.len(),
            match closest {
                Some((place, rank)) => place < next && ranks[place as int] == Some(rank)
                    && is_nearest(ranks@.take(next as int), place as int),
                None => forall|j: int| 0 <= j < next ==> ranks[j] is None,
            },
        decreases ranks.len() - next,
    {
        if let Some(rank) = ranks[next] {
            match closest {
                Some((_, kept)) if rank < kept => {
                    closest = Some((next, rank));
                },
                None => {
                    closest = Some((next, rank));
                },
                _ => {},
            }
        }
        next = next + 1;
    }
    assert(ranks@.take(next as int) == ranks@);
    match closest {
        Some((place, _)) => Some(place),
        None => None,
    }
}

/// The bounces that are left to the ray that a surface scatters, where
/// `depth_left` are left to the ray that meets it: one less, and none at all
/// where the budget is spent.
pub open spec fn bounces_after(depth_left: nat) -> Option<nat> {
    if depth_left == 0 {
        None
    } else {
        Some((depth_left - 1) as nat)
    }
}

/// A ray is followed exactly while its budget is not spent; with no bounce
/// left it is not followed, whatever the scene holds.
pub proof fn lemma_spent_budget_ends_the_path(depth_left: nat)
    ensures
        bounces_after(depth_left) is None <==> depth_left == 0,
        bounces_after(depth_left) is Some ==> bounces_after(depth_left)->0 < depth_left,
{
}

/// Takes one bounce from the budget of a ray, and gives what is left for
/// the ray that follows it. With nothing to take there is none: the ray
/// brings no light, and the scene is not asked.
pub fn spend_bounce(depth_left: usize) -> (left: Option<usize>)
    ensures
        match left {
            Some(rest) => bounces_after(depth_left as nat) == Some(rest as nat),
            None => bounces_after(depth_left as nat) is None,
        },
{
    if depth_left == 0 {
        None
    } else {
        Some(depth_left - 1)
    }
}

/// What a ray with a bounce to spend brings back.
#[derive(Clone, Copy, Debug, PartialEq, Eq, Structural)]
pub enum Light {
    /// Nothing: the surface that it met took the light up.
    Black,
    /// The light of the sky: it met no surface.
    Sky,
    /// The light of the scattered ray, each channel by the share that the
    /// surface passes on.
    Attenuated,
}

/// What a ray brings back, told by whether it met a surface and whether
/// that surface scattered it. A ray that met nothing was not scattered
/// either.
pub open spec fn light_from(met: bool, scattered: bool) -> Light {
    if !met {
        Light::Sky
    } else if scattered {
        Light::Attenuated
    } else {
        Light::Black
    }
}

/// What a ray brings back; see [`light_from`].
pub fn light_of(met: bool, scattered: bool) -> (light: Light)
    ensures
        light == light_from(met, scattered),
{
    if !met {
        Light::Sky
    } else if scattered {
        Light::Attenuated
    } else {
        Light::Black
    }
}

} // verus!
