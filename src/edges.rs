use vstd::prelude::*;

use crate::math::{Line3, Mat4, Vec3};

verus! {

/// A mesh handed to edge extraction: vertex positions, a flat index buffer in
/// which each consecutive triple of indices is one triangle, and a transform.
pub struct Caster {
    pub verts: Vec<Vec3>,
    pub indices: Vec<i32>,
    pub transform: Mat4,
}

impl Caster {
    pub fn new(verts: Vec<Vec3>, indices: Vec<i32>, transform: Mat4) -> (r: Caster)
        ensures
            r.verts@ == verts@,
            r.indices@ == indices@,
            r.transform == transform,
    {
        Caster { verts, indices, transform }
    }
}

/// An edge of a mesh and the first one or two triangles (by position in the
/// index buffer) that have both of its endpoints as corners.
#[derive(Debug, Clone, Copy, PartialEq, Eq)]
pub struct IndexedLine {
    pub line: Line3,
    pub tris: (Option<usize>, Option<usize>),
}

/// Every index points into the vertex buffer, and the index buffer is a whole
/// number of triangles.
pub open spec fn valid_mesh(verts: Seq<Vec3>, indices: Seq<i32>) -> bool {
    &&& indices.len() % 3 == 0
    &&& forall|k: int| 0 <= k < indices.len() ==> 0 <= #[trigger] indices[k] < verts.len()
}

/// The number of triangles in the index buffer.
pub open spec fn tri_count(indices: Seq<i32>) -> nat {
    indices.len() / 3
}

/// The position of corner `j` of triangle `t`.
pub open spec fn corner(verts: Seq<Vec3>, indices: Seq<i32>, t: int, j: int) -> Vec3 {
    verts[indices[3 * t + j] as int]
}

/// Side `j` of triangle `t`, directed as the triangle lists its corners:
/// `(c0, c1)`, `(c1, c2)`, `(c2, c0)`.
pub open spec fn tri_edge(verts: Seq<Vec3>, indices: Seq<i32>, t: int, j: int) -> Line3 {
    Line3 { a: corner(verts, indices, t, j), b: corner(verts, indices, t, (j + 1) % 3) }
}

/// `l` is a side of one of the first `n` triangles.
pub open spec fn is_edge_before(verts: Seq<Vec3>, indices: Seq<i32>, l: Line3, n: int) -> bool {
    exists|t: int, j: int| 0 <= t < n && 0 <= j < 3 && #[trigger] tri_edge(verts, indices, t, j) == l
}

/// `l` is a side of some triangle of the mesh.
pub open spec fn is_edge(verts: Seq<Vec3>, indices: Seq<i32>, l: Line3) -> bool {
    is_edge_before(verts, indices, l, tri_count(indices) as int)
}

/// Triangle `t` has the position `v` as one of its corners.
pub open spec fn has_corner(verts: Seq<Vec3>, indices: Seq<i32>, t: int, v: Vec3) -> bool {
    exists|j: int| 0 <= j < 3 && #[trigger] corner(verts, indices, t, j) == v
}

/// Triangle `t` owns `l`: both endpoints of `l` are corners of `t`.
pub open spec fn owns(verts: Seq<Vec3>, indices: Seq<i32>, t: int, l: Line3) -> bool {
    has_corner(verts, indices, t, l.a) && has_corner(verts, indices, t, l.b)
}

/// The first two owners of `l` among the first `n` triangles, in order.
pub open spec fn owners_before(verts: Seq<Vec3>, indices: Seq<i32>, l: Line3, n: nat) -> (
    Option<usize>,
    Option<usize>,
)
    decreases n,
{
    if n == 0 {
        (None, None)
    } else {
        let p = owners_before(verts, indices, l, (n - 1) as nat);
        let t = (n - 1) as usize;
        if owns(verts, indices, n - 1, l) {
            match p {
                (None, _) => (Some(t), None),
                (Some(first), None) => (Some(first), Some(t)),
                _ => p,
            }
        } else {
            p
        }
    }
}

/// The first two triangles of the mesh that own `l`.
pub open spec fn owners(verts: Seq<Vec3>, indices: Seq<i32>, l: Line3) -> (
    Option<usize>,
    Option<usize>,
) {
    owners_before(verts, indices, l, tri_count(indices))
}

/// `r` lists each side of each triangle exactly once, each with its owners.
pub open spec fn is_edge_list(verts: Seq<Vec3>, indices: Seq<i32>, r: Seq<IndexedLine>) -> bool {
    &&& forall|i: int, k: int| 0 <= i < k < r.len() ==> r[i].line != r[k].line
    &&& forall|i: int|
        0 <= i < r.len() ==> {
            &&& is_edge(verts, indices, #[trigger] r[i].line)
            &&& r[i].tris == owners(verts, indices, r[i].line)
        }
    &&& forall|l: Line3|
        #[trigger] is_edge(verts, indices, l) ==> exists|i: int|
            0 <= i < r.len() && #[trigger] r[i].line == l
}

/// Appends `l` to `lines` unless it is already there.
fn insert_line(lines: &mut Vec<Line3>, l: Line3)
    ensures
        final(lines)@ == if old(lines)@.contains(l) {
            old(lines)@
        } else {
            old(lines)@.push(l)
        },
        final(lines)@.contains(l),
        old(lines)@.len() <= final(lines)@.len(),
        forall|k: int| 0 <= k < old(lines)@.len() ==> final(lines)@[k] == old(lines)@[k],
{
    let mut i: usize = 0;
    while i < lines.len()
        invariant
            0 <= i <= lines@.len(),
            forall|k: int| 0 <= k < i ==> lines@[k] != l,
        decreases lines@.len() - i,
    {
        if lines[i] == l {
            assert(lines@[i as int] == l);
            return;
        }
        i = i + 1;
    }
    lines.push(l);
    assert(lines@[lines@.len() - 1] == l);
}

/// The position of corner `j` of triangle `t`.
fn corner_at(verts: &Vec<Vec3>, indices: &Vec<i32>, t: usize, j: usize) -> (r: Vec3)
    requires
        valid_mesh(verts@, indices@),
        t < tri_count(indices@),
        j < 3,
    ensures
        r == corner(verts@, indices@, t as int, j as int),
{
    let len = indices.len();
    assert(3 * t + j < len) by (nonlinear_arith)
        requires
            t < len / 3,
            j < 3,
    ;
    let k = 3 * t + j;
    let v = indices[k];
    assert(0 <= indices@[k as int] < verts@.len());
    verts[v as usize]
}

/// Whether triangle `t` has both endpoints of `l` as corners.
fn owns_line(verts: &Vec<Vec3>, indices: &Vec<i32>, t: usize, l: Line3) -> (r: bool)
    requires
        valid_mesh(verts@, indices@),
        t < tri_count(indices@),
    ensures
        r == owns(verts@, indices@, t as int, l),
{
    let c0 = corner_at(verts, indices, t, 0);
    let c1 = corner_at(verts, indices, t, 1);
    let c2 = corner_at(verts, indices, t, 2);
    let has_a = c0 == l.a || c1 == l.a || c2 == l.a;
    let has_b = c0 == l.b || c1 == l.b || c2 == l.b;
    has_a && has_b
}

/// The first two triangles, in order, that own `l`.
fn find_owners(verts: &Vec<Vec3>, indices: &Vec<i32>, l: Line3) -> (r: (Option<usize>, Option<usize>))
    requires
        valid_mesh(verts@, indices@),
    ensures
        r == owners(verts@, indices@, l),
{
    let n = indices.len() / 3;
    let mut first: Option<usize> = None;
    let mut second: Option<usize> = None;
    let mut t: usize = 0;
    while t < n
        invariant
            valid_mesh(verts@, indices@),
            n == tri_count(indices@),
            0 <= t <= n,
            (first, second) == owners_before(verts@, indices@, l, t as nat),
            first.is_none() ==> second.is_none(),
        decreases n - t,
    {
        if owns_line(verts, indices, t, l) {
            if first.is_none() {
                first = Some(t);
            } else if second.is_none() {
                second = Some(t);
            }
        }
        t = t + 1;
    }
    (first, second)
}

/// The distinct directed sides of all triangles, in order of first appearance.
fn distinct_sides(verts: &Vec<Vec3>, indices: &Vec<i32>) -> (r: Vec<Line3>)
    requires
        valid_mesh(verts@, indices@),
    ensures
        forall|i: int, k: int| 0 <= i < k < r@.len() ==> r@[i] != r@[k],
        forall|i: int| 0 <= i < r@.len() ==> is_edge(verts@, indices@, #[trigger] r@[i]),
        forall|l: Line3| #[trigger] is_edge(verts@, indices@, l) ==> r@.contains(l),
{
    let n = indices.len() / 3;
    let mut lines: Vec<Line3> = Vec::new();
    let mut t: usize = 0;
    while t < n
        invariant
            valid_mesh(verts@, indices@),
            n == tri_count(indices@),
            0 <= t <= n,
            forall|i: int, k: int| 0 <= i < k < lines@.len() ==> lines@[i] != lines@[k],
            forall|i: int|
                0 <= i < lines@.len() ==> is_edge_before(
                    verts@,
                    indices@,
                    #[trigger] lines@[i],
                    t as int,
                ),
            forall|u: int, j: int|
                0 <= u < t && 0 <= j < 3 ==> lines@.contains(
                    #[trigger] tri_edge(verts@, indices@, u, j),
                ),
        decreases n - t,
    {
        let c0 = corner_at(verts, indices, t, 0);
        let c1 = corner_at(verts, indices, t, 1);
        let c2 = corner_at(verts, indices, t, 2);
        let ghost before = lines@;
        insert_line(&mut lines, Line3::new(c0, c1));
        insert_line(&mut lines, Line3::new(c1, c2));
        insert_line(&mut lines, Line3::new(c2, c0));
        proof {
            let ti = t as int;
            assert(tri_edge(verts@, indices@, ti, 0) == Line3 { a: c0, b: c1 });
            assert(tri_edge(verts@, indices@, ti, 1) == Line3 { a: c1, b: c2 });
            assert(tri_edge(verts@, indices@, ti, 2) == Line3 { a: c2, b: c0 });
            assert forall|i: int| 0 <= i < lines@.len() implies is_edge_before(
                verts@,
                indices@,
                #[trigger] lines@[i],
                ti + 1,
            ) by {
                if i < before.len() {
                    assert(before[i] == lines@[i]);
                    assert(is_edge_before(verts@, indices@, before[i], ti));
                } else {
                    assert(lines@[i] == tri_edge(verts@, indices@, ti, 0) || lines@[i]
                        == tri_edge(verts@, indices@, ti, 1) || lines@[i] == tri_edge(
                        verts@,
                        indices@,
                        ti,
                        2,
                    ));
                }
            }
            assert forall|u: int, j: int| 0 <= u < ti + 1 && 0 <= j < 3 implies lines@.contains(
                #[trigger] tri_edge(verts@, indices@, u, j),
            ) by {
                if u < ti {
                    let e = tri_edge(verts@, indices@, u, j);
                    assert(before.contains(e));
                    let w = choose|w: int| 0 <= w < before.len() && before[w] == e;
                    assert(lines@[w] == e);
                }
            }
        }
        t = t + 1;
    }
    proof {
        assert forall|l: Line3| #[trigger] is_edge(verts@, indices@, l) implies lines@.contains(
            l,
        ) by {
            let (u, j) = choose|u: int, j: int|
                0 <= u < n && 0 <= j < 3 && #[trigger] tri_edge(verts@, indices@, u, j) == l;
            assert(lines@.contains(tri_edge(verts@, indices@, u, j)));
        }
    }
    lines
}

/// The distinct edges of the mesh, each with the first one or two triangles
/// that own it.
///
/// A side is kept with the direction in which its triangle lists it, so a side
/// that two triangles list in opposite directions appears twice. Vertices are
/// matched by exact position; the transform is not applied. Owners are found
/// by a scan of the triangles for each edge, which suits meshes of up to a few
/// thousand triangles.
pub fn calculate_edges(caster: Caster) -> (r: Vec<IndexedLine>)
    requires
        valid_mesh(caster.verts@, caster.indices@),
    ensures
        is_edge_list(caster.verts@, caster.indices@, r@),
{
    let Caster { verts, indices, .. } = caster;
    let lines = distinct_sides(&verts, &indices);
    let mut out: Vec<IndexedLine> = Vec::new();
    let mut i: usize = 0;
    while i < lines.len()
        invariant
            valid_mesh(verts@, indices@),
            0 <= i <= lines@.len(),
            out@.len() == i,
            forall|k: int|
                0 <= k < i ==> (#[trigger] out@[k]).line == lines@[k] && out@[k].tris == owners(
                    verts@,
                    indices@,
                    lines@[k],
                ),
        decreases lines@.len() - i,
    {
        let l = lines[i];
        let tris = find_owners(&verts, &indices, l);
        out.push(IndexedLine { line: l, tris });
        i = i + 1;
    }
    proof {
        assert forall|i: int| 0 <= i < out@.len() implies is_edge(
            verts@,
            indices@,
            #[trigger] out@[i].line,
        ) && out@[i].tris == owners(verts@, indices@, out@[i].line) by {
            assert(out@[i].line == lines@[i]);
        }
        assert forall|i: int, k: int| 0 <= i < k < out@.len() implies out@[i].line
            != out@[k].line by {
            assert(out@[i].line == lines@[i]);
            assert(out@[k].line == lines@[k]);
        }
        assert forall|l: Line3| #[trigger] is_edge(verts@, indices@, l) implies exists|i: int|
            0 <= i < out@.len() && #[trigger] out@[i].line == l by {
            assert(lines@.contains(l));
            let w = choose|w: int| 0 <= w < lines@.len() && lines@[w] == l;
            assert(out@[w].line == l);
        }
    }
    out
}

/// Extraction is deterministic up to order: two edge lists of one mesh hold the
/// same entries, and as many of them.
pub proof fn lemma_edge_lists_agree(
    verts: Seq<Vec3>,
    indices: Seq<i32>,
    r1: Seq<IndexedLine>,
    r2: Seq<IndexedLine>,
)
    requires
        is_edge_list(verts, indices, r1),
        is_edge_list(verts, indices, r2),
    ensures
        r1.to_set() == r2.to_set(),
        r1.len() == r2.len(),
{
    lemma_edge_list_within(verts, indices, r1, r2);
    lemma_edge_list_within(verts, indices, r2, r1);
    assert(r1.to_set() =~= r2.to_set());
    lemma_edge_list_unique(verts, indices, r1);
    lemma_edge_list_unique(verts, indices, r2);
}

proof fn lemma_edge_list_within(
    verts: Seq<Vec3>,
    indices: Seq<i32>,
    r1: Seq<IndexedLine>,
    r2: Seq<IndexedLine>,
)
    requires
        is_edge_list(verts, indices, r1),
        is_edge_list(verts, indices, r2),
    ensures
        forall|x: IndexedLine| r1.contains(x) ==> r2.contains(x),
{
    assert forall|x: IndexedLine| r1.contains(x) implies r2.contains(x) by {
        let i = choose|i: int| 0 <= i < r1.len() && r1[i] == x;
        assert(is_edge(verts, indices, r1[i].line));
        let k = choose|k: int| 0 <= k < r2.len() && #[trigger] r2[k].line == x.line;
        assert(r2[k].tris == x.tris);
        assert(r2[k] == x);
    }
}

proof fn lemma_edge_list_unique(verts: Seq<Vec3>, indices: Seq<i32>, r: Seq<IndexedLine>)
    requires
        is_edge_list(verts, indices, r),
    ensures
        r.len() == r.to_set().len(),
{
    assert forall|i: int, k: int| 0 <= i < r.len() && 0 <= k < r.len() && i != k implies r[i]
        != r[k] by {
        if i < k {
            assert(r[i].line != r[k].line);
        } else {
            assert(r[k].line != r[i].line);
        }
    }
    assert(r.no_duplicates());
    r.unique_seq_to_set();
}

/// A mesh of one triangle, whose corners are not all at one position, has
/// exactly three edges, each owned by that triangle and no other.
pub proof fn lemma_single_triangle_edges(verts: Seq<Vec3>, indices: Seq<i32>, r: Seq<IndexedLine>)
    requires
        valid_mesh(verts, indices),
        indices.len() == 3,
        is_edge_list(verts, indices, r),
        !(corner(verts, indices, 0, 0) == corner(verts, indices, 0, 1) && corner(
            verts,
            indices,
            0,
            1,
        ) == corner(verts, indices, 0, 2)),
    ensures
        r.len() == 3,
        forall|i: int| 0 <= i < r.len() ==> (#[trigger] r[i]).tris == (Some(0usize), None::<usize>),
{
    reveal_with_fuel(owners_before, 2);
    let e0 = tri_edge(verts, indices, 0, 0);
    let e1 = tri_edge(verts, indices, 0, 1);
    let e2 = tri_edge(verts, indices, 0, 2);
    let sides = seq![e0, e1, e2];
    assert(sides.no_duplicates());
    sides.unique_seq_to_set();
    let lines = r.map_values(|x: IndexedLine| x.line);
    assert forall|l: Line3| lines.to_set().contains(l) <==> sides.to_set().contains(l) by {
        if lines.contains(l) {
            let i = choose|i: int| 0 <= i < lines.len() && lines[i] == l;
            assert(is_edge(verts, indices, r[i].line));
            let (t, j) = choose|t: int, j: int|
                0 <= t < 1 && 0 <= j < 3 && #[trigger] tri_edge(verts, indices, t, j) == l;
            assert(sides[j] == l);
        }
        if sides.contains(l) {
            let j = choose|j: int| 0 <= j < 3 && sides[j] == l;
            assert(tri_edge(verts, indices, 0, j) == l);
            assert(is_edge(verts, indices, l));
            let i = choose|i: int| 0 <= i < r.len() && #[trigger] r[i].line == l;
            assert(lines[i] == l);
        }
    }
    assert(lines.to_set() =~= sides.to_set());
    assert forall|i: int, k: int| 0 <= i < lines.len() && 0 <= k < lines.len() && i != k implies lines[i]
        != lines[k] by {
        if i < k {
            assert(r[i].line != r[k].line);
        } else {
            assert(r[k].line != r[i].line);
        }
    }
    assert(lines.no_duplicates());
    lines.unique_seq_to_set();
    assert forall|i: int| 0 <= i < r.len() implies (#[trigger] r[i]).tris == (
        Some(0usize),
        None::<usize>,
    ) by {
        let l = r[i].line;
        assert(is_edge(verts, indices, l));
        let (t, j) = choose|t: int, j: int|
            0 <= t < 1 && 0 <= j < 3 && #[trigger] tri_edge(verts, indices, t, j) == l;
        assert(owns(verts, indices, 0, l));
    }
}

/// The three corners of triangle `t` are at three different positions.
pub open spec fn distinct_corners(verts: Seq<Vec3>, indices: Seq<i32>, t: int) -> bool {
    &&& corner(verts, indices, t, 0) != corner(verts, indices, t, 1)
    &&& corner(verts, indices, t, 1) != corner(verts, indices, t, 2)
    &&& corner(verts, indices, t, 2) != corner(verts, indices, t, 0)
}

/// Of the corners of triangle `t`, only the endpoints of `s` are corners of
/// triangle `u`.
pub open spec fn meets_only_at(verts: Seq<Vec3>, indices: Seq<i32>, t: int, u: int, s: Line3) -> bool {
    forall|j: int|
        0 <= j < 3 && has_corner(verts, indices, u, #[trigger] corner(verts, indices, t, j))
            ==> corner(verts, indices, t, j) == s.a || corner(verts, indices, t, j) == s.b
}

/// Two proper triangles that both list the side `s` in the same direction, and
/// meet nowhere else, give `s` one entry owned by both; every other edge is
/// owned by one triangle alone.
pub proof fn lemma_shared_side_edges(
    verts: Seq<Vec3>,
    indices: Seq<i32>,
    r: Seq<IndexedLine>,
    s: Line3,
)
    requires
        valid_mesh(verts, indices),
        indices.len() == 6,
        is_edge_list(verts, indices, r),
        distinct_corners(verts, indices, 0),
        distinct_corners(verts, indices, 1),
        exists|j: int| 0 <= j < 3 && #[trigger] tri_edge(verts, indices, 0, j) == s,
        exists|j: int| 0 <= j < 3 && #[trigger] tri_edge(verts, indices, 1, j) == s,
        meets_only_at(verts, indices, 0, 1, s),
        meets_only_at(verts, indices, 1, 0, s),
    ensures
        exists|i: int| 0 <= i < r.len() && #[trigger] r[i].line == s,
        forall|i: int|
            0 <= i < r.len() ==> (#[trigger] r[i]).tris == if r[i].line == s {
                (Some(0usize), Some(1usize))
            } else {
                (r[i].tris.0, None::<usize>)
            },
        forall|i: int| 0 <= i < r.len() ==> (#[trigger] r[i]).tris.0.is_some(),
{
    reveal_with_fuel(owners_before, 3);
    assert(owns(verts, indices, 0, s));
    assert(owns(verts, indices, 1, s));
    assert(is_edge(verts, indices, s));
    assert forall|i: int| 0 <= i < r.len() implies (#[trigger] r[i]).tris == if r[i].line == s {
        (Some(0usize), Some(1usize))
    } else {
        (r[i].tris.0, None::<usize>)
    } && r[i].tris.0.is_some() by {
        let l = r[i].line;
        assert(is_edge(verts, indices, l));
        let (t, j) = choose|t: int, j: int|
            0 <= t < 2 && 0 <= j < 3 && #[trigger] tri_edge(verts, indices, t, j) == l;
        assert(owns(verts, indices, t, l));
        if l != s {
            assert(!(owns(verts, indices, 0, l) && owns(verts, indices, 1, l)));
        }
    }
}

} // verus!
