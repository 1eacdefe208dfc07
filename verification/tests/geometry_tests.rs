use particles::geometry::{cos_fx, make_sphere, sin_fx};

#[test]
fn sphere_mesh_has_the_lattice_shape() {
    let g = make_sphere();
    assert_eq!(g.positions.len(), 1200);
    assert_eq!(g.triangles.len(), 2280);
}

#[test]
fn first_quad_stitches_the_first_two_rings() {
    let g = make_sphere();
    assert_eq!(&g.triangles[0..6], &[0, 20, 1, 1, 20, 21]);
}

#[test]
fn last_quad_wraps_around_the_seam() {
    let g = make_sphere();
    // quad 379 sits at ring 18, slice 19; its slice neighbour wraps to 0
    assert_eq!(&g.triangles[6 * 379..6 * 379 + 6], &[379, 399, 360, 360, 399, 380]);
}

#[test]
fn pole_vertex_points_up() {
    let g = make_sphere();
    // ring 0, slice 0: the latitude is zero, so the vertex sits at the
    // (approximate) north pole
    assert_eq!(g.positions[0], 0);
    assert_eq!(g.positions[1], 0);
    assert_eq!(g.positions[2], 999_999);
}

#[test]
fn an_inner_vertex_matches_the_closed_formula() {
    let g = make_sphere();
    let v = 21; // ring 1, slice 1
    assert_eq!(g.positions[3 * v], 157_958);
    assert_eq!(g.positions[3 * v + 1], 51_574);
    assert_eq!(g.positions[3 * v + 2], 986_188);
}

#[test]
fn sine_and_cosine_hit_the_cardinal_points() {
    assert_eq!(sin_fx(0), 0);
    assert_eq!(cos_fx(0), 999_999);
    assert_eq!(sin_fx(1_570_796), 999_999);
    assert_eq!(cos_fx(1_570_796), 0);
    assert!(sin_fx(4_712_388) < -999_000);
}

#[test]
fn all_vertices_lie_near_the_unit_sphere() {
    let g = make_sphere();
    for v in 0..400 {
        let x = g.positions[3 * v];
        let y = g.positions[3 * v + 1];
        let z = g.positions[3 * v + 2];
        let n2 = x * x + y * y + z * z;
        let one = 1_000_000_000_000i64;
        assert!(n2 > one - 20_000_000_000 && n2 < one + 20_000_000_000);
    }
}
