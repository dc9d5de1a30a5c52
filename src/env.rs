//! Faces of the generated environment mesh (floor and walls): quads over a
//! grid of vertices, all sharing one normal.
use vstd::prelude::*;
use crate::obj::Indices;

verus! {

/// The corners of a quad with 0-based vertex indices `i` and normal `normal`.
pub open spec fn quad_face(i: [u32; 4], normal: u32) -> ([Indices; 3], Option<Indices>) {
    (
        [
            Indices { vertex: (i[0] + 1) as u32, texture: None, normal: Some(normal) },
            Indices { vertex: (i[1] + 1) as u32, texture: None, normal: Some(normal) },
            Indices { vertex: (i[2] + 1) as u32, texture: None, normal: Some(normal) },
        ],
        Some(Indices { vertex: (i[3] + 1) as u32, texture: None, normal: Some(normal) }),
    )
}

/// Turns four 0-based vertex indices and a normal index into a quad face
/// with 1-based indices.
pub fn indices_to_face(indices: [u32; 4], normal: u32) -> (r: ([Indices; 3], Option<Indices>))
    requires
        indices[0] < u32::MAX,
        indices[1] < u32::MAX,
        indices[2] < u32::MAX,
        indices[3] < u32::MAX,
        normal >= 1,
    ensures
        r == quad_face(indices, normal),
        r.0[0].wf() && r.0[1].wf() && r.0[2].wf(),
        r.1 matches Some(d) && d.wf(),
{
    let normal = Some(normal);
    (
        [
            Indices { vertex: indices[0] + 1, texture: None, normal },
            Indices { vertex: indices[1] + 1, texture: None, normal },
            Indices { vertex: indices[2] + 1, texture: None, normal },
        ],
        Some(Indices { vertex: indices[3] + 1, texture: None, normal }),
    )
}

/// The quad of grid cell `(x, y)` of a grid `w` vertices wide whose first
/// vertex is `first`: its corners go up a row, across, and back down.
pub open spec fn cell_face(first: int, w: int, x: int, y: int, normal: u32) -> ([Indices; 3], Option<Indices>) {
    let v = first + x + y * w;
    quad_face([v as u32, (v + w) as u32, (v + 1 + w) as u32, (v + 1) as u32], normal)
}

/// Appends the faces of a grid of vertices, `w` per row and `rows + 1`
/// rows, numbered row by row from `first`: one quad per cell, cells row by
/// row.
pub fn push_grid_faces(
    faces: &mut Vec<([Indices; 3], Option<Indices>)>,
    first: u32,
    w: u32,
    rows: u32,
    normal: u32,
)
    requires
        w >= 1,
        normal >= 1,
        first as int + (rows as int + 1) * (w as int) < u32::MAX,
    ensures
        final(faces).len() == old(faces).len() + rows as int * (w as int - 1),
        forall|k: int| 0 <= k < old(faces).len() ==> final(faces)@[k] == old(faces)@[k],
        forall|y: int, x: int| 0 <= y < rows && 0 <= x < w - 1
            ==> #[trigger] final(faces)@[old(faces).len() + y * (w - 1) + x]
                == cell_face(first as int, w as int, x, y, normal),
{
    let ghost base = old(faces).len() as int;
    let ghost f0 = faces@;
    let mut y: u32 = 0;
    while y < rows
        invariant
            w >= 1,
            normal >= 1,
            first as int + (rows as int + 1) * (w as int) < u32::MAX,
            y <= rows,
            base == f0.len(),
            faces.len() == base + y as int * (w as int - 1),
            forall|k: int| 0 <= k < base ==> faces@[k] == f0[k],
            forall|yy: int, x: int| 0 <= yy < y && 0 <= x < w - 1
                ==> #[trigger] faces@[base + yy * (w - 1) + x] == cell_face(first as int, w as int, x, yy, normal),
        decreases rows - y,
    {
        proof {
            assert((y as int + 2) * (w as int) <= (rows as int + 1) * (w as int)) by (nonlinear_arith)
                requires y < rows, w >= 1;
            assert((y as int + 2) * (w as int) == y as int * w as int + 2 * w as int) by (nonlinear_arith);
        }
        let row_start: u32 = first + y * w;
        let mut x: u32 = 0;
        while x + 1 < w
            invariant
                w >= 1,
                normal >= 1,
                y < rows,
                x < w,
                row_start as int == first as int + y as int * w as int,
                row_start as int + 2 * w as int <= u32::MAX,
                base == f0.len(),
                faces.len() == base + y as int * (w as int - 1) + x as int,
                forall|k: int| 0 <= k < base ==> faces@[k] == f0[k],
                forall|yy: int, xx: int| 0 <= yy < y && 0 <= xx < w - 1
                    ==> #[trigger] faces@[base + yy * (w - 1) + xx] == cell_face(first as int, w as int, xx, yy, normal),
                forall|xx: int| 0 <= xx < x
                    ==> #[trigger] faces@[base + y * (w - 1) + xx] == cell_face(first as int, w as int, xx, y as int, normal),
            decreases w - x,
        {
            let v = row_start + x;
            let f = indices_to_face([v, v + w, v + 1 + w, v + 1], normal);
            let ghost before = faces@;
            faces.push(f);
            proof {
                assert(faces@[base + y * (w - 1) + x] == f);
                assert forall|yy: int, xx: int| 0 <= yy < y && 0 <= xx < w - 1
                    implies #[trigger] faces@[base + yy * (w - 1) + xx] == cell_face(first as int, w as int, xx, yy, normal) by {
                    assert(yy * (w - 1) + xx < y * (w - 1)) by (nonlinear_arith)
                        requires yy < y, xx < w - 1, 0 <= xx;
                    assert(faces@[base + yy * (w - 1) + xx] == before[base + yy * (w - 1) + xx]);
                }
            }
            x = x + 1;
        }
        proof {
            assert((y as int + 1) * (w as int - 1) == y as int * (w as int - 1) + (w as int - 1)) by (nonlinear_arith);
            assert forall|yy: int, xx: int| 0 <= yy < y + 1 && 0 <= xx < w - 1
                implies #[trigger] faces@[base + yy * (w - 1) + xx] == cell_face(first as int, w as int, xx, yy, normal) by {
                if yy == y as int {
                    assert(faces@[base + y * (w - 1) + xx] == cell_face(first as int, w as int, xx, y as int, normal));
                }
            }
        }
        y = y + 1;
    }
}

} // verus!
