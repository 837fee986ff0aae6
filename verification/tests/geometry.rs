use pore_dft::dense::Array1D;
use pore_dft::geometry::{Axis, AxisGeometry, Grid};

fn axis(geometry: AxisGeometry, positions: &[f64], length: f64) -> Axis {
    let grid = Array1D::from_vec(positions.iter().map(|z| z.to_bits()).collect());
    Axis::new(geometry, grid, length.to_bits())
}

#[test]
fn only_a_slit_spans_half_the_width() {
    assert!(AxisGeometry::Cartesian.spans_half_width());
    assert!(!AxisGeometry::Polar.spans_half_width());
    assert!(!AxisGeometry::Spherical.spans_half_width());
}

#[test]
fn axis_keeps_what_it_was_made_of() {
    let a = axis(AxisGeometry::Polar, &[0.25, 0.75], 1.0);
    assert_eq!(a.geometry, AxisGeometry::Polar);
    assert_eq!(a.len(), 2);
    assert_eq!(a.grid.get(0), Some(0.25f64.to_bits()));
    assert_eq!(a.grid.get(1), Some(0.75f64.to_bits()));
    assert_eq!(a.length, 1.0f64.to_bits());
}

#[test]
fn axis_clone_is_the_same_axis() {
    let a = axis(AxisGeometry::Spherical, &[0.5, 1.5, 2.5], 3.0);
    let b = a.clone();
    assert_eq!(b.geometry, AxisGeometry::Spherical);
    assert_eq!(b.len(), 3);
    assert_eq!(b.grid.get(2), Some(2.5f64.to_bits()));
    assert_eq!(b.length, 3.0f64.to_bits());
}

#[test]
fn grid_of_one_dimension_goes_by_the_geometry() {
    assert!(matches!(
        Grid::new_1d(axis(AxisGeometry::Cartesian, &[0.5], 1.0)),
        Grid::Cartesian1(_)
    ));
    assert!(matches!(Grid::new_1d(axis(AxisGeometry::Polar, &[0.5], 1.0)), Grid::Polar(_)));
    assert!(matches!(
        Grid::new_1d(axis(AxisGeometry::Spherical, &[0.5], 1.0)),
        Grid::Spherical(_)
    ));
}

#[test]
fn grid_of_one_dimension_keeps_the_axis() {
    match Grid::new_1d(axis(AxisGeometry::Cartesian, &[0.5, 1.5], 2.0)) {
        Grid::Cartesian1(a) => {
            assert_eq!(a.len(), 2);
            assert_eq!(a.grid.get(1), Some(1.5f64.to_bits()));
            assert_eq!(a.length, 2.0f64.to_bits());
        }
        _ => panic!("a slit has a cartesian grid"),
    }
}

#[test]
fn grid_clone_is_the_same_grid() {
    let grid = Grid::Periodical3(
        axis(AxisGeometry::Cartesian, &[0.5], 1.0),
        axis(AxisGeometry::Cartesian, &[0.5, 1.5], 2.0),
        axis(AxisGeometry::Cartesian, &[0.5, 1.5, 2.5], 3.0),
    );
    match grid.clone() {
        Grid::Periodical3(x, y, z) => {
            assert_eq!(x.len(), 1);
            assert_eq!(y.len(), 2);
            assert_eq!(z.len(), 3);
            assert_eq!(z.length, 3.0f64.to_bits());
        }
        _ => panic!("a box has a periodic grid"),
    }
}
