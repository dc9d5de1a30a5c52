//! Per-frame scene decisions taken on the art objects: which object the
//! options panel shows, and what is visible while the camera is inside the
//! portal.
use vstd::prelude::*;
use crate::order::dist_key_spec;

verus! {

/// `2.25` as `f32` bits: the squared radius within which an object's options
/// can be edited.
pub const NEAR_RADIUS_SQR_BITS: u32 = 0x4010_0000;

/// What the per-frame decisions read of an art object.
#[derive(Clone, Copy, Debug)]
pub struct SceneObject {
    /// Order key of the squared distance to the camera (see `dist_key`).
    pub dist_key: i32,
    pub enable_pipeline: bool,
    /// The object exposes at least one option in the panel.
    pub has_options: bool,
    pub inside_portal: bool,
    /// Registry index of the vertex shader handle.
    pub shader_vert: usize,
    /// Registry index of the fragment shader handle.
    pub shader_frag: usize,
}

/// Object `i` may be picked for the options panel.
pub open spec fn interactive(objs: Seq<SceneObject>, i: int) -> bool {
    &&& objs[i].enable_pipeline
    &&& objs[i].has_options
    &&& objs[i].dist_key <= dist_key_spec(NEAR_RADIUS_SQR_BITS)
}

/// Picks the nearest enabled object with options within the edit radius;
/// of several equally near ones, the first.
pub fn nearest_interactive(objs: &Vec<SceneObject>) -> (r: Option<usize>)
    ensures
        match r {
            None => forall|j: int| 0 <= j < objs.len() ==> !interactive(objs@, j),
            Some(i) => {
                &&& i < objs.len()
                &&& interactive(objs@, i as int)
                &&& forall|j: int| 0 <= j < objs.len() && interactive(objs@, j)
                    ==> objs@[i as int].dist_key <= objs@[j].dist_key
                &&& forall|j: int| 0 <= j < i && interactive(objs@, j)
                    ==> objs@[i as int].dist_key < objs@[j].dist_key
            },
        },
{
    let radius: i32 = crate::order::dist_key(NEAR_RADIUS_SQR_BITS);
    let mut best: Option<usize> = None;
    let mut i: usize = 0;
    while i < objs.len()
        invariant
            i <= objs.len(),
            radius as int == dist_key_spec(NEAR_RADIUS_SQR_BITS),
            match best {
                None => forall|j: int| 0 <= j < i ==> !interactive(objs@, j),
                Some(b) => {
                    &&& b < i
                    &&& interactive(objs@, b as int)
                    &&& forall|j: int| 0 <= j < i && interactive(objs@, j)
                        ==> objs@[b as int].dist_key <= objs@[j].dist_key
                    &&& forall|j: int| 0 <= j < b && interactive(objs@, j)
                        ==> objs@[b as int].dist_key < objs@[j].dist_key
                },
            },
        decreases objs.len() - i,
    {
        let o = objs[i];
        if o.enable_pipeline && o.has_options && o.dist_key <= radius {
            match best {
                None => {
                    best = Some(i);
                },
                Some(b) => {
                    if o.dist_key < objs[b].dist_key {
                        best = Some(i);
                    }
                },
            }
        }
        i = i + 1;
    }
    best
}

/// The first object that has the camera inside it, if any.
pub open spec fn first_inside(objs: Seq<SceneObject>) -> Option<int> {
    if exists|i: int| 0 <= i < objs.len() && objs[i].inside_portal {
        Some(choose|i: int| 0 <= i < objs.len() && objs[i].inside_portal
            && forall|j: int| 0 <= j < i ==> !objs[j].inside_portal)
    } else {
        None
    }
}

/// Applies the portal rule to the enable flags. When the camera is inside a
/// portal and there is a portal box, every object farther than the portal is
/// hidden, the others shown, and the box shown with the portal's shaders;
/// the portal's index is returned so that the caller copies its transform
/// and option values to the box. Otherwise every object is shown but the
/// box.
pub fn apply_portal(objs: &mut Vec<SceneObject>, box_idx: Option<usize>) -> (r: Option<usize>)
    requires
        box_idx matches Some(b) ==> b < old(objs).len(),
    ensures
        final(objs).len() == old(objs).len(),
        match r {
            Some(p) => {
                &&& box_idx is Some
                &&& p < old(objs).len()
                &&& old(objs)@[p as int].inside_portal
                &&& forall|j: int| 0 <= j < p ==> !old(objs)@[j].inside_portal
                &&& forall|i: int| 0 <= i < old(objs).len() && Some(i as usize) != box_idx ==> {
                    &&& #[trigger] final(objs)@[i].enable_pipeline
                        == (old(objs)@[i].dist_key > old(objs)@[p as int].dist_key)
                    &&& final(objs)@[i] == (SceneObject { enable_pipeline: final(objs)@[i].enable_pipeline, ..old(objs)@[i] })
                }
                &&& final(objs)@[box_idx.unwrap() as int] == (SceneObject {
                        enable_pipeline: true,
                        shader_vert: old(objs)@[p as int].shader_vert,
                        shader_frag: old(objs)@[p as int].shader_frag,
                        ..old(objs)@[box_idx.unwrap() as int]
                    })
            },
            None => {
                &&& (box_idx is None || forall|j: int| 0 <= j < old(objs).len() ==> !old(objs)@[j].inside_portal)
                &&& forall|i: int| 0 <= i < old(objs).len() ==> #[trigger] final(objs)@[i]
                        == (SceneObject { enable_pipeline: Some(i as usize) != box_idx, ..old(objs)@[i] })
            },
        },
{
    let n = objs.len();
    let mut portal: Option<usize> = None;
    let mut k: usize = 0;
    while k < n
        invariant
            n == objs.len(),
            k <= n,
            match portal {
                None => forall|j: int| 0 <= j < k ==> !objs@[j].inside_portal,
                Some(p) => p < k && objs@[p as int].inside_portal
                    && forall|j: int| 0 <= j < p ==> !objs@[j].inside_portal,
            },
        decreases n - k,
    {
        if portal.is_none() && objs[k].inside_portal {
            portal = Some(k);
        }
        k = k + 1;
    }
    let ghost o = objs@;
    assert(o.len() == n);
    match (box_idx, portal) {
        (Some(b), Some(p)) => {
            let portal_key = objs[p].dist_key;
            let mut i: usize = 0;
            while i < n
                invariant
                    n == objs.len(),
                    p < n,
                    b < n,
                    portal_key == o[p as int].dist_key,
                    o.len() == n,
                    i <= n,
                    forall|j: int| i <= j < n ==> objs@[j] == o[j],
                    forall|j: int| 0 <= j < i ==> #[trigger] objs@[j]
                        == (SceneObject { enable_pipeline: o[j].dist_key > portal_key, ..o[j] }),
                decreases n - i,
            {
                let mut x = objs[i];
                x.enable_pipeline = x.dist_key > portal_key;
                objs.set(i, x);
                i = i + 1;
            }
            let mut bx = objs[b];
            bx.enable_pipeline = true;
            bx.shader_vert = objs[p].shader_vert;
            bx.shader_frag = objs[p].shader_frag;
            objs.set(b, bx);
            Some(p)
        },
        _ => {
            let mut i: usize = 0;
            while i < n
                invariant
                    n == objs.len(),
                    o.len() == n,
                    i <= n,
                    forall|j: int| i <= j < n ==> objs@[j] == o[j],
                    forall|j: int| 0 <= j < i ==> #[trigger] objs@[j]
                        == (SceneObject { enable_pipeline: Some(j as usize) != box_idx, ..o[j] }),
                decreases n - i,
            {
                let mut x = objs[i];
                x.enable_pipeline = match box_idx {
                    Some(b) => b != i,
                    None => true,
                };
                objs.set(i, x);
                i = i + 1;
            }
            None
        },
    }
}

} // verus!
