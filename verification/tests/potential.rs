use pore_dft::binary64::{INFINITY, ZERO};
use pore_dft::dense::{Array1D, Array2D, Array4D};
use pore_dft::geometry::{Axis, AxisGeometry};
use pore_dft::potential::{
    evaluate, external_potential_1d, external_potential_3d, CUTOFF_RADIUS, MAX_POTENTIAL,
};

fn bits(x: f64) -> u64 {
    x.to_bits()
}

fn axis(geometry: AxisGeometry, positions: &[f64], length: f64) -> Axis {
    let grid = Array1D::from_vec(positions.iter().map(|z| z.to_bits()).collect());
    Axis::new(geometry, grid, bits(length))
}

fn array2(rows: usize, cols: usize, values: &[f64]) -> Array2D {
    Array2D::from_shape_vec(rows, cols, values.iter().map(|v| v.to_bits()).collect()).unwrap()
}

fn value(field: &Array2D, s: usize, i: usize) -> f64 {
    f64::from_bits(field.get(s, i).unwrap())
}

/// The grid of a slit of the given half-width, widened by `offset`.
fn slit_positions(points: usize, half_width: f64, offset: f64) -> Vec<f64> {
    let length = half_width + offset;
    let cell = length / points as f64;
    (0..points).map(|i| (i as f64 + 0.5) * cell).collect()
}

#[test]
fn the_default_cutoff_is_fifty() {
    assert_eq!(MAX_POTENTIAL, bits(50.0));
}

#[test]
fn the_default_cutoff_radius_is_fourteen() {
    assert_eq!(CUTOFF_RADIUS, bits(14.0));
}

#[test]
fn slit_of_width_ten_is_fifty_beyond_the_wall() {
    let points = 2048;
    let positions = slit_positions(points, 5.0, 6.0);
    let segments = 3;
    // a repulsive wall: the potential rises towards the wall and is meaningless behind it
    let mut potential = Vec::new();
    for s in 0..segments {
        for z in positions.iter() {
            let gap = 5.0 - z;
            potential.push((s as f64 + 1.0) * 0.01 / (gap * gap * gap));
        }
    }
    let axis = axis(AxisGeometry::Cartesian, &positions, 5.0);
    let field = external_potential_1d(array2(segments, points, &potential), &axis, Some(bits(50.0)));
    assert_eq!(field.nrows(), segments);
    assert_eq!(field.ncols(), points);
    // the grid point next to 5.5
    let index = positions.iter().position(|&z| z >= 5.5).unwrap();
    assert!(positions[index] > 5.0 && positions[index] < 5.51);
    for s in 0..segments {
        assert_eq!(field.get(s, index), Some(bits(50.0)));
    }
    for s in 0..segments {
        for i in 0..points {
            let v = value(&field, s, i);
            assert!(v <= 50.0);
            if positions[i] > 5.0 {
                assert_eq!(v, 50.0);
            }
        }
    }
}

#[test]
fn wall_overrides_whatever_the_potential_is() {
    let positions = [1.0, 2.0, 3.0, 4.0];
    let axis = axis(AxisGeometry::Cartesian, &positions, 2.5);
    let potential = array2(2, 4, &[-1.0, 0.5, -7.0, 1.0e9, 3.0, 60.0, f64::NAN, -0.25]);
    let field = external_potential_1d(potential, &axis, Some(bits(10.0)));
    assert_eq!(value(&field, 0, 0), -1.0);
    assert_eq!(value(&field, 0, 1), 0.5);
    assert_eq!(value(&field, 0, 2), 10.0);
    assert_eq!(value(&field, 0, 3), 10.0);
    assert_eq!(value(&field, 1, 0), 3.0);
    assert_eq!(value(&field, 1, 1), 10.0);
    assert_eq!(value(&field, 1, 2), 10.0);
    assert_eq!(value(&field, 1, 3), 10.0);
}

#[test]
fn a_point_on_the_wall_is_inside() {
    let axis = axis(AxisGeometry::Cartesian, &[2.5], 2.5);
    let field = external_potential_1d(array2(1, 1, &[-4.0]), &axis, Some(bits(10.0)));
    assert_eq!(value(&field, 0, 0), -4.0);
}

#[test]
fn radial_axis_has_no_point_beyond_the_radius() {
    let positions = [0.5, 1.5, 2.5];
    for geometry in [AxisGeometry::Polar, AxisGeometry::Spherical] {
        let axis = axis(geometry, &positions, 3.0);
        let field =
            external_potential_1d(array2(1, 3, &[-2.0, 49.0, 51.0]), &axis, None);
        assert_eq!(value(&field, 0, 0), -2.0);
        assert_eq!(value(&field, 0, 1), 49.0);
        assert_eq!(value(&field, 0, 2), 50.0);
    }
}

#[test]
fn field_1d_is_capped_at_the_default_cutoff() {
    let axis = axis(AxisGeometry::Cartesian, &[0.1, 0.2, 0.3, 0.4], 1.0);
    let potential = array2(1, 4, &[49.999, 50.0, 50.001, f64::INFINITY]);
    let field = external_potential_1d(potential, &axis, None);
    assert_eq!(value(&field, 0, 0), 49.999);
    assert_eq!(value(&field, 0, 1), 50.0);
    assert_eq!(value(&field, 0, 2), 50.0);
    assert_eq!(value(&field, 0, 3), 50.0);
}

#[test]
fn field_1d_leaves_what_is_not_a_number() {
    let axis = axis(AxisGeometry::Cartesian, &[0.1, 0.2], 1.0);
    let field = external_potential_1d(array2(1, 2, &[f64::NAN, 1.0]), &axis, Some(bits(5.0)));
    assert!(value(&field, 0, 0).is_nan());
    assert_eq!(value(&field, 0, 1), 1.0);
}

#[test]
fn field_1d_of_no_segments_is_empty() {
    let axis = axis(AxisGeometry::Cartesian, &[0.1, 9.0], 1.0);
    let potential = Array2D::from_shape_vec(0, 2, Vec::new()).unwrap();
    let field = external_potential_1d(potential, &axis, None);
    assert_eq!(field.nrows(), 0);
    assert_eq!(field.ncols(), 2);
}

#[test]
fn field_3d_is_capped_and_has_no_wall() {
    let values = [-3.0, 0.0, 49.0, 50.0, 51.0, 1.0e300, f64::INFINITY, f64::NEG_INFINITY];
    let potential =
        Array4D::from_shape_vec((2, 1, 2, 2), values.iter().map(|v| v.to_bits()).collect())
            .unwrap();
    let field = external_potential_3d(potential, None);
    assert_eq!(field.dim(), (2, 1, 2, 2));
    let expected = [-3.0, 0.0, 49.0, 50.0, 50.0, 50.0, 50.0, f64::NEG_INFINITY];
    let mut n = 0;
    for s in 0..2 {
        for y in 0..2 {
            for z in 0..2 {
                assert_eq!(field.get(s, 0, y, z), Some(bits(expected[n])));
                n += 1;
            }
        }
    }
}

#[test]
fn field_3d_is_capped_at_the_cutoff_given() {
    let values = [1.0, 2.0, 3.0, f64::NAN];
    let potential =
        Array4D::from_shape_vec((1, 2, 2, 1), values.iter().map(|v| v.to_bits()).collect())
            .unwrap();
    let field = external_potential_3d(potential, Some(bits(2.0)));
    assert_eq!(field.get(0, 0, 0, 0), Some(bits(1.0)));
    assert_eq!(field.get(0, 0, 1, 0), Some(bits(2.0)));
    assert_eq!(field.get(0, 1, 0, 0), Some(bits(2.0)));
    assert!(f64::from_bits(field.get(0, 1, 1, 0).unwrap()).is_nan());
}

#[test]
fn pair_potential_is_zero_beyond_the_cutoff_radius() {
    let cutoff2 = bits(14.0 * 14.0);
    assert_eq!(evaluate(bits(196.00000000000003), bits(-0.7), cutoff2), ZERO);
    assert_eq!(evaluate(bits(1.0e6), bits(-0.7), cutoff2), ZERO);
    assert_eq!(evaluate(bits(f64::INFINITY), bits(f64::NAN), cutoff2), ZERO);
}

#[test]
fn pair_potential_is_infinite_where_the_two_coincide() {
    let cutoff2 = bits(196.0);
    assert_eq!(evaluate(bits(0.0), bits(f64::NAN), cutoff2), INFINITY);
    assert_eq!(evaluate(bits(-0.0), bits(f64::NAN), cutoff2), INFINITY);
    assert_eq!(evaluate(bits(0.0), bits(1.0), bits(0.0)), INFINITY);
}

#[test]
fn pair_potential_is_the_interaction_within_the_cutoff_radius() {
    let cutoff2 = bits(196.0);
    let sigma_r: f64 = 3.0_f64.powi(2) / 12.25;
    let interaction = 4.0 * 120.0 * (sigma_r.powi(6) - sigma_r.powi(3));
    assert_eq!(evaluate(bits(12.25), bits(interaction), cutoff2), bits(interaction));
    assert_eq!(evaluate(bits(196.0), bits(-1.0e-3), cutoff2), bits(-1.0e-3));
    assert_eq!(evaluate(bits(5.0e-324), bits(f64::INFINITY), cutoff2), INFINITY);
}

#[test]
fn pair_potential_beyond_a_negative_cutoff_is_zero() {
    assert_eq!(evaluate(bits(0.0), bits(1.0), bits(-1.0)), ZERO);
}
