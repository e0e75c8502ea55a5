use vstd::prelude::*;

verus! {

/// A polygon of a mesh, split into triangles of vertex positions.
#[derive(Clone, Debug)]
pub struct Face {
    pub vertex_indices: Vec<[usize; 3]>,
}

/// The fan of triangles around the first vertex that covers polygon `poly`:
/// triangle `i` joins the first vertex with vertices `i + 1` and `i + 2`.
pub open spec fn fan_of(poly: Seq<usize>) -> Seq<Seq<usize>> {
    Seq::new((poly.len() - 2) as nat, |i: int| seq![poly[0], poly[i + 1], poly[i + 2]])
}

/// Splits a convex polygon, given by its vertex positions, into the fan of
/// triangles around its first vertex.
pub fn triangulate_fan(poly: &Vec<usize>) -> (f: Face)
    requires
        poly@.len() >= 3,
    ensures
        f.vertex_indices@.map_values(|t: [usize; 3]| t@) == fan_of(poly@),
{
    let mut tris: Vec<[usize; 3]> = Vec::new();
    let n = poly.len();
    let mut i: usize = 1;
    while i + 1 < n
        invariant
            1 <= i <= n - 1,
            n == poly@.len(),
            n >= 3,
            tris@.len() == i - 1,
            forall|j: int| 0 <= j < i - 1 ==> (#[trigger] tris@[j])@ == fan_of(poly@)[j],
        decreases n - i,
    {
        let t = [poly[0], poly[i], poly[i + 1]];
        proof {
            assert(t@ =~= fan_of(poly@)[i - 1]);
        }
        tris.push(t);
        i += 1;
    }
    proof {
        assert(tris@.map_values(|t: [usize; 3]| t@) =~= fan_of(poly@));
    }
    Face { vertex_indices: tris }
}

/// Position in the vertex list of OBJ vertex reference `v` when `count`
/// vertices have been read: references count from one, negative ones back
/// from the last vertex read. Zero, and a negative reference past the first
/// vertex, refer to nothing.
pub fn resolve_obj_index(v: i64, count: usize) -> (r: Option<usize>)
    ensures
        v > 0 ==> r == Some((v - 1) as usize),
        v == 0 ==> r is None,
        v < 0 ==> r == (if count + v >= 0 { Some((count + v) as usize) } else { None::<usize> }),
{
    if v > 0 {
        Some((v - 1) as usize)
    } else if v == 0 {
        None
    } else {
        let back = (0i64 - (v + 1)) as u64 + 1;
        if (count as u64) >= back {
            Some(((count as u64) - back) as usize)
        } else {
            None
        }
    }
}

} // verus!
