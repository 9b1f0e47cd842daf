//! The scene's primitives as one flat list, and the search that tries them all.

use vstd::prelude::*;
use crate::accel::aabb::Geometry;
use vstd::string::StringExecFns;
use crate::common::IntersectionInfo;
use crate::integrators::baseintegrator::Integrators;
use crate::utilities::mathutils::{fp_lt, is_nan, less, order_key, POS_INFINITY};

verus! {

/// The primitives of a scene, in the order in which they were loaded.
pub struct SceneGeometries {
    pub geometries: Vec<Geometry>,
}

/// The result of trying a list of primitives one after another: a hit takes
/// the place of what was found before it only where its ray parameter is
/// strictly smaller, and the first hit only where its parameter is below
/// infinity.
pub open spec fn closest_in_order(hits: Seq<Option<IntersectionInfo>>) -> Option<IntersectionInfo>
    decreases hits.len(),
{
    if hits.len() == 0 {
        None
    } else {
        let before = closest_in_order(hits.drop_last());
        let bound = match before {
            Some(found) => found.t_intersection,
            None => POS_INFINITY,
        };
        match hits.last() {
            Some(info) => if less(info.t_intersection, bound) {
                Some(info)
            } else {
                before
            },
            None => before,
        }
    }
}

/// `hits` holds, place by place, a result that `hit` can return for the
/// primitive at that place.
pub open spec fn are_results_of<H: Fn(Geometry) -> Option<IntersectionInfo>>(
    hits: Seq<Option<IntersectionInfo>>,
    geometries: Seq<Geometry>,
    hit: H,
) -> bool {
    &&& hits.len() == geometries.len()
    &&& forall|i: int| 0 <= i < geometries.len() ==> call_ensures(hit, (geometries[i],), #[trigger] hits[i])
}

/// Every hit has a ray parameter that is a number below infinity.
pub open spec fn all_hits_finite(hits: Seq<Option<IntersectionInfo>>) -> bool {
    forall|i: int|
        0 <= i < hits.len() && (#[trigger] hits[i]).is_some() ==> {
            &&& !is_nan(hits[i].unwrap().t_intersection)
            &&& order_key(hits[i].unwrap().t_intersection) < order_key(POS_INFINITY)
        }
}

/// `out` is a closest hit among `hits`: nothing where nothing was hit, and
/// otherwise one of the hits, with a ray parameter that no other hit is below.
pub open spec fn is_closest_of(out: Option<IntersectionInfo>, hits: Seq<Option<IntersectionInfo>>) -> bool {
    match out {
        None => forall|i: int| 0 <= i < hits.len() ==> (#[trigger] hits[i]).is_none(),
        Some(info) => {
            &&& exists|i: int| 0 <= i < hits.len() && #[trigger] hits[i] == Some(info)
            &&& forall|i: int|
                0 <= i < hits.len() && (#[trigger] hits[i]).is_some() ==> order_key(info.t_intersection)
                    <= order_key(hits[i].unwrap().t_intersection)
        },
    }
}

impl SceneGeometries {
    /// The closest hit of a ray among all primitives, found by trying each in
    /// turn; `hit` is the ray test of one primitive.
    pub fn check_intersection_return_closest_hit<H: Fn(Geometry) -> Option<IntersectionInfo>>(&self, hit: &H) -> (out:
        Option<IntersectionInfo>)
        requires
            forall|g: Geometry| call_requires(*hit, (g,)),
        ensures
            exists|hits: Seq<Option<IntersectionInfo>>| #[trigger]
                are_results_of(hits, self.geometries@, *hit) && out == closest_in_order(hits),
    {
        let mut closest_intersection_info: IntersectionInfo = IntersectionInfo::default();
        let mut t_max: u64 = POS_INFINITY;
        let mut hit_something: bool = false;
        let ghost mut hits: Seq<Option<IntersectionInfo>> = Seq::empty();
        let mut i: usize = 0;
        while i < self.geometries.len()
            invariant
                0 <= i <= self.geometries.len(),
                hits.len() == i,
                forall|k: int| 0 <= k < i ==> call_ensures(*hit, (self.geometries@[k],), #[trigger] hits[k]),
                forall|g: Geometry| call_requires(*hit, (g,)),
                hit_something == closest_in_order(hits).is_some(),
                hit_something ==> closest_in_order(hits) == Some(closest_intersection_info) && t_max
                    == closest_intersection_info.t_intersection,
                !hit_something ==> t_max == POS_INFINITY,
            decreases self.geometries.len() - i,
        {
            let found: Option<IntersectionInfo> = hit(self.geometries[i]);
            proof {
                let next = hits.push(found);
                assert(next.drop_last() =~= hits);
                hits = next;
            }
            if let Some(intersection_info) = found {
                if fp_lt(intersection_info.t_intersection, t_max) {
                    hit_something = true;
                    t_max = intersection_info.t_intersection;
                    closest_intersection_info = intersection_info;
                }
            }
            i = i + 1;
        }
        proof {
            assert(are_results_of(hits, self.geometries@, *hit));
        }
        if hit_something {
            Some(closest_intersection_info)
        } else {
            None
        }
    }
}

/// Trying the primitives in turn finds a closest hit, where every hit has a
/// finite ray parameter.
pub proof fn lemma_closest_in_order_is_closest(hits: Seq<Option<IntersectionInfo>>)
    requires
        all_hits_finite(hits),
    ensures
        is_closest_of(closest_in_order(hits), hits),
    decreases hits.len(),
{
    if hits.len() > 0 {
        let front = hits.drop_last();
        assert forall|i: int| 0 <= i < front.len() && (#[trigger] front[i]).is_some() implies {
            &&& !is_nan(front[i].unwrap().t_intersection)
            &&& order_key(front[i].unwrap().t_intersection) < order_key(POS_INFINITY)
        } by {
            assert(front[i] == hits[i]);
        }
        lemma_closest_in_order_is_closest(front);
        let before = closest_in_order(front);
        let out = closest_in_order(hits);
        let last = hits.len() - 1;
        assert(hits[last] == hits.last());
        match out {
            None => {
                assert forall|i: int| 0 <= i < hits.len() implies (#[trigger] hits[i]).is_none() by {
                    if i < last {
                        assert(front[i] == hits[i]);
                    }
                }
            },
            Some(info) => {
                if before == out {
                    let k = choose|k: int| 0 <= k < front.len() && #[trigger] front[k] == Some(info);
                    assert(hits[k] == Some(info));
                } else {
                    assert(hits[last] == Some(info));
                }
                assert forall|i: int| 0 <= i < hits.len() && (#[trigger] hits[i]).is_some() implies order_key(
                    info.t_intersection,
                ) <= order_key(hits[i].unwrap().t_intersection) by {
                    if i < last {
                        assert(front[i] == hits[i]);
                        if before.is_none() {
                            assert(front[i].is_none());
                        }
                    }
                }
            },
        }
    }
}

/// What a scene description asks of the renderer.
pub struct SceneConfig {
    pub integrator: Integrators,
}

/// Where the scene was read from, and where the image goes.
pub struct FileNames {
    pub scene_file_name: String,
    pub out_file: String,
}

/// The letter in lower case, for the letters `A` to `Z`; any other character
/// as it is.
pub open spec fn lowered(c: char) -> char {
    if 'A' <= c && c <= 'Z' {
        ((c as u8) + 32) as char
    } else {
        c
    }
}

/// Whether `name`, with its letters in lower case, is `word`.
pub open spec fn names(name: Seq<char>, word: Seq<char>) -> bool {
    &&& name.len() == word.len()
    &&& forall|i: int| 0 <= i < name.len() ==> lowered(#[trigger] name[i]) == word[i]
}

/// The integrator that a scene description names; an unknown name stands for
/// direct lighting.
pub open spec fn integrator_named(name: Seq<char>) -> Integrators {
    if names(name, "path_tracer_bsdf"@) {
        Integrators::PathTracerBsdf
    } else if names(name, "path_tracer_nee"@) {
        Integrators::PathTracerNee
    } else {
        Integrators::DirectLighting
    }
}

fn to_lower(c: char) -> (r: char)
    ensures
        r == lowered(c),
{
    if 'A' <= c && c <= 'Z' {
        ((c as u8) + 32) as char
    } else {
        c
    }
}

fn is_named(name: &str, word: &str) -> (r: bool)
    ensures
        r == names(name@, word@),
{
    let n: usize = name.unicode_len();
    if n != word.unicode_len() {
        return false;
    }
    let mut i: usize = 0;
    while i < n
        invariant
            0 <= i <= n,
            n == name@.len(),
            n == word@.len(),
            forall|j: int| 0 <= j < i ==> lowered(#[trigger] name@[j]) == word@[j],
        decreases n - i,
    {
        if to_lower(name.get_char(i)) != word.get_char(i) {
            return false;
        }
        i = i + 1;
    }
    true
}

impl SceneConfig {
    /// The renderer's settings and file names, from what a scene description
    /// says: the integrator by its name, whatever the case of its letters, and
    /// the image file below the directory `sandbox`.
    pub fn construct_scene(scene_filename: String, integrator_type: &str, hdr_output_file: &str) -> (r: (
        SceneConfig,
        FileNames,
    ))
        ensures
            r.0.integrator == integrator_named(integrator_type@),
            r.1.scene_file_name@ == scene_filename@,
            r.1.out_file@ == "sandbox/"@ + hdr_output_file@,
    {
        let type_of_integrator: Integrators = if is_named(integrator_type, "path_tracer_bsdf") {
            Integrators::PathTracerBsdf
        } else if is_named(integrator_type, "path_tracer_nee") {
            Integrators::PathTracerNee
        } else {
            Integrators::DirectLighting
        };
        let output_file_full_path: String = String::from_str("sandbox/").concat(hdr_output_file);
        (
            SceneConfig { integrator: type_of_integrator },
            FileNames { scene_file_name: scene_filename, out_file: output_file_full_path },
        )
    }
}

} // verus!
