use sc_native::{calculate_edges, Caster, IndexedLine, Line3, Mat4, Vec3};

fn v(x: f32, y: f32, z: f32) -> Vec3 {
    Vec3::new(x.to_bits(), y.to_bits(), z.to_bits())
}

fn edges_of(verts: Vec<Vec3>, indices: Vec<i32>) -> Vec<IndexedLine> {
    calculate_edges(Caster::new(verts, indices, Mat4::identity()))
}

fn find(edges: &[IndexedLine], a: Vec3, b: Vec3) -> Option<IndexedLine> {
    edges.iter().copied().find(|e| e.line == Line3::new(a, b))
}

#[test]
fn single_triangle_has_three_boundary_edges() {
    let (a, b, c) = (v(0.0, 0.0, 0.0), v(1.0, 0.0, 0.0), v(0.0, 1.0, 0.0));
    let edges = edges_of(vec![a, b, c], vec![0, 1, 2]);
    assert_eq!(edges.len(), 3);
    for (p, q) in [(a, b), (b, c), (c, a)] {
        let e = find(&edges, p, q).expect("side missing");
        assert_eq!(e.tris, (Some(0), None));
    }
}

#[test]
fn shared_side_same_direction_has_two_owners() {
    let (a, b, c, d) = (
        v(0.0, 0.0, 0.0),
        v(1.0, 0.0, 0.0),
        v(0.0, 1.0, 0.0),
        v(0.0, -1.0, 0.0),
    );
    let edges = edges_of(vec![a, b, c, d], vec![0, 1, 2, 0, 1, 3]);
    assert_eq!(edges.len(), 5);
    assert_eq!(find(&edges, a, b).unwrap().tris, (Some(0), Some(1)));
    assert_eq!(find(&edges, b, c).unwrap().tris, (Some(0), None));
    assert_eq!(find(&edges, c, a).unwrap().tris, (Some(0), None));
    assert_eq!(find(&edges, b, d).unwrap().tris, (Some(1), None));
    assert_eq!(find(&edges, d, a).unwrap().tris, (Some(1), None));
}

#[test]
fn shared_side_opposite_direction_stays_twice() {
    let (a, b, c, d) = (
        v(0.0, 0.0, 0.0),
        v(1.0, 0.0, 0.0),
        v(0.0, 1.0, 0.0),
        v(0.0, -1.0, 0.0),
    );
    let edges = edges_of(vec![a, b, c, d], vec![0, 1, 2, 1, 0, 3]);
    assert_eq!(edges.len(), 6);
    assert_eq!(find(&edges, a, b).unwrap().tris, (Some(0), Some(1)));
    assert_eq!(find(&edges, b, a).unwrap().tris, (Some(0), Some(1)));
    assert_eq!(find(&edges, a, d).unwrap().tris, (Some(1), None));
}

#[test]
fn extraction_is_repeatable() {
    let verts = vec![
        v(0.0, 0.0, 0.0),
        v(1.0, 0.0, 0.0),
        v(0.0, 1.0, 0.0),
        v(1.0, 1.0, 0.0),
        v(0.5, 0.5, 1.0),
    ];
    let indices = vec![0, 1, 2, 2, 1, 3, 0, 1, 4, 1, 3, 4];
    let first = edges_of(verts.clone(), indices.clone());
    let second = edges_of(verts, indices);
    assert_eq!(first.len(), second.len());
    for e in &first {
        assert!(second.contains(e));
    }
    for e in &second {
        assert!(first.contains(e));
    }
}

#[test]
fn triangle_number_is_position_in_index_buffer() {
    let verts = vec![
        v(0.0, 0.0, 0.0),
        v(1.0, 0.0, 0.0),
        v(0.0, 1.0, 0.0),
        v(5.0, 5.0, 5.0),
        v(6.0, 5.0, 5.0),
        v(5.0, 6.0, 5.0),
    ];
    let edges = edges_of(verts.clone(), vec![3, 4, 5, 0, 1, 2]);
    assert_eq!(edges.len(), 6);
    assert_eq!(find(&edges, verts[3], verts[4]).unwrap().tris, (Some(0), None));
    assert_eq!(find(&edges, verts[0], verts[1]).unwrap().tris, (Some(1), None));
}

#[test]
fn vertices_match_by_position_not_index() {
    let (a, b, c, d) = (
        v(0.0, 0.0, 0.0),
        v(1.0, 0.0, 0.0),
        v(0.0, 1.0, 0.0),
        v(0.0, 0.0, 1.0),
    );
    // the second triangle reaches `a` and `b` through copies at other indices
    let edges = edges_of(vec![a, b, c, a, b, d], vec![0, 1, 2, 3, 4, 5]);
    assert_eq!(edges.len(), 5);
    assert_eq!(find(&edges, a, b).unwrap().tris, (Some(0), Some(1)));
}

#[test]
fn negative_zero_is_a_different_vertex() {
    let (a, b, c) = (v(0.0, 0.0, 0.0), v(1.0, 0.0, 0.0), v(0.0, 1.0, 0.0));
    let a2 = v(-0.0, 0.0, 0.0);
    let edges = edges_of(vec![a, b, c, a2], vec![0, 1, 2, 3, 1, 2]);
    assert_eq!(edges.len(), 5);
    assert_eq!(find(&edges, b, c).unwrap().tris, (Some(0), Some(1)));
    assert_eq!(find(&edges, a2, b).unwrap().tris, (Some(1), None));
    assert_eq!(find(&edges, a, b).unwrap().tris, (Some(0), None));
}

#[test]
fn three_owners_keep_the_first_two() {
    let (a, b, c, d, e) = (
        v(0.0, 0.0, 0.0),
        v(1.0, 0.0, 0.0),
        v(0.0, 1.0, 0.0),
        v(0.0, -1.0, 0.0),
        v(0.0, 0.0, 1.0),
    );
    let edges = edges_of(vec![a, b, c, d, e], vec![0, 1, 2, 0, 1, 3, 0, 1, 4]);
    assert_eq!(find(&edges, a, b).unwrap().tris, (Some(0), Some(1)));
    assert_eq!(find(&edges, b, e).unwrap().tris, (Some(2), None));
}

#[test]
fn collapsed_triangle_has_one_edge() {
    let a = v(2.0, 2.0, 2.0);
    let edges = edges_of(vec![a], vec![0, 0, 0]);
    assert_eq!(edges.len(), 1);
    assert_eq!(edges[0].line, Line3::new(a, a));
    assert_eq!(edges[0].tris, (Some(0), None));
}

#[test]
fn empty_mesh_has_no_edges() {
    let edges = edges_of(vec![v(1.0, 2.0, 3.0)], vec![]);
    assert!(edges.is_empty());
}

#[test]
fn caster_keeps_its_parts() {
    let verts = vec![v(1.0, 2.0, 3.0)];
    let c = Caster::new(verts.clone(), vec![0, 0, 0], Mat4::identity());
    assert_eq!(c.verts, verts);
    assert_eq!(c.indices, vec![0, 0, 0]);
    assert_eq!(c.transform.m, Mat4::identity().m);
}
