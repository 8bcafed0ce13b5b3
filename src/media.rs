//! The media a ray travels through.
//!
//! Walking the surfaces a ray crosses in order of distance, a shape is entered
//! the first time its surface is crossed and left the next time. The shapes the
//! ray is inside form a stack; the innermost one decides the refractive index on
//! each side of a surface (none of them: vacuum).
use vstd::prelude::*;

verus! {

/// The shapes a ray is inside after crossing one more surface of shape `id`:
/// leaving `id` if the ray was inside it, else entering it.
pub open spec fn cross(inside: Seq<usize>, id: usize) -> Seq<usize> {
    if inside.contains(id) {
        inside.remove_value(id)
    } else {
        inside.push(id)
    }
}

/// The shapes a ray is inside, outermost first, after crossing the first `k`
/// surfaces of `ids` (each surface given by the identifier of its shape).
pub open spec fn inside_after(ids: Seq<usize>, k: nat) -> Seq<usize>
    decreases k,
{
    if k == 0 || k > ids.len() {
        Seq::empty()
    } else {
        cross(inside_after(ids, (k - 1) as nat), ids[k - 1])
    }
}

/// The innermost shape of a stack of shapes, if any.
pub open spec fn innermost(inside: Seq<usize>) -> Option<usize> {
    if inside.len() == 0 {
        None
    } else {
        Some(inside.last())
    }
}

/// Updates the stack of shapes `inside` for a ray that crosses a surface of
/// shape `id`.
pub fn cross_surface(inside: &mut Vec<usize>, id: usize)
    ensures
        final(inside)@ == cross(old(inside)@, id),
{
    let mut j: usize = 0;
    while j < inside.len()
        invariant
            j <= inside.len(),
            inside@ == old(inside)@,
            forall|k: int| 0 <= k < j ==> inside@[k] != id,
        decreases inside.len() - j,
    {
        if inside[j] == id {
            proof {
                inside@.index_of_first_ensures(id);
                let f = inside@.index_of_first(id).unwrap();
                assert(f == j as int);
            }
            inside.remove(j);
            return;
        }
        j += 1;
    }
    proof {
        assert(!inside@.contains(id));
    }
    inside.push(id);
}

/// Given the identifiers of the shapes whose surfaces a ray crosses, sorted by
/// distance, and the position `hit` of the surface being shaded, returns the
/// innermost shape the ray is inside just before that surface and just after
/// it. `None` stands for vacuum.
pub fn refraction_media(ids: &Vec<usize>, hit: usize) -> (media: (Option<usize>, Option<usize>))
    requires
        hit < ids.len(),
    ensures
        media.0 == innermost(inside_after(ids@, hit as nat)),
        media.1 == innermost(inside_after(ids@, hit as nat + 1)),
{
    let mut inside: Vec<usize> = Vec::new();
    let mut i: usize = 0;
    while i < hit
        invariant
            i <= hit < ids.len(),
            inside@ == inside_after(ids@, i as nat),
        decreases hit - i,
    {
        cross_surface(&mut inside, ids[i]);
        i += 1;
    }
    let before = innermost_of(&inside);
    cross_surface(&mut inside, ids[hit]);
    let after = innermost_of(&inside);
    (before, after)
}

fn innermost_of(inside: &Vec<usize>) -> (r: Option<usize>)
    ensures
        r == innermost(inside@),
{
    if inside.len() == 0 {
        None
    } else {
        Some(inside[inside.len() - 1])
    }
}

} // verus!
