use pore_dft::dense::{Array1D, Array2D};
use pore_dft::geometry::{Axis, AxisGeometry, Grid};
use pore_dft::profile::{DensityProfile, PoreProfile, PoreProfile1D, Solution};

fn bits(x: f64) -> u64 {
    x.to_bits()
}

fn array2(rows: usize, cols: usize, values: &[f64]) -> Array2D {
    Array2D::from_shape_vec(rows, cols, values.iter().map(|v| v.to_bits()).collect()).unwrap()
}

fn unsolved(bulk: &str) -> PoreProfile1D<String, u8> {
    let grid = Array1D::from_vec(vec![bits(0.5), bits(1.5)]);
    let axis = Axis::new(AxisGeometry::Cartesian, grid, bits(2.0));
    let field = array2(1, 2, &[0.25, 50.0]);
    PoreProfile::new(DensityProfile::new(Grid::new_1d(axis), 7, bulk.to_string(), field))
}

fn solution(omega: f64, gamma: f64) -> Solution<Array2D> {
    Solution {
        density: array2(1, 2, &[0.7, 0.0]),
        grand_potential: bits(omega),
        interfacial_tension: bits(gamma),
    }
}

#[test]
fn new_profile_is_not_solved() {
    let pore = unsolved("bulk");
    assert_eq!(pore.grand_potential, None);
    assert_eq!(pore.interfacial_tension, None);
    assert!(pore.profile.density.is_none());
    assert_eq!(pore.profile.bulk, "bulk");
    assert_eq!(pore.profile.convolver, 7);
    assert_eq!(pore.profile.external_potential.get(0, 1), Some(bits(50.0)));
}

#[test]
fn solve_inplace_sets_both_scalars_and_the_density() {
    let mut pore = unsolved("bulk");
    let r: Result<(), String> = pore.solve_inplace(Ok(solution(-12.5, 0.75)));
    assert_eq!(r, Ok(()));
    assert_eq!(pore.grand_potential, Some(bits(-12.5)));
    assert_eq!(pore.interfacial_tension, Some(bits(0.75)));
    let density = pore.profile.density.as_ref().unwrap();
    assert_eq!(density.get(0, 0), Some(bits(0.7)));
    assert_eq!(density.get(0, 1), Some(bits(0.0)));
    assert_eq!(pore.profile.bulk, "bulk");
    assert_eq!(pore.profile.external_potential.get(0, 0), Some(bits(0.25)));
}

#[test]
fn solve_inplace_that_failed_sets_neither() {
    let mut pore = unsolved("bulk");
    let r = pore.solve_inplace(Err("not converged".to_string()));
    assert_eq!(r, Err("not converged".to_string()));
    assert_eq!(pore.grand_potential, None);
    assert_eq!(pore.interfacial_tension, None);
    assert!(pore.profile.density.is_none());
}

#[test]
fn solve_inplace_that_failed_keeps_an_earlier_solution() {
    let mut pore = unsolved("bulk");
    let first: Result<(), String> = pore.solve_inplace(Ok(solution(-12.5, 0.75)));
    assert!(first.is_ok());
    let second = pore.solve_inplace(Err(3u8));
    assert_eq!(second, Err(3u8));
    assert_eq!(pore.grand_potential, Some(bits(-12.5)));
    assert_eq!(pore.interfacial_tension, Some(bits(0.75)));
    assert_eq!(pore.profile.density.as_ref().unwrap().get(0, 0), Some(bits(0.7)));
}

#[test]
fn solve_hands_the_solved_profile_back() {
    let r: Result<PoreProfile1D<String, u8>, String> =
        unsolved("bulk").solve(Ok(solution(1.0, 2.0)));
    match r {
        Ok(pore) => {
            assert_eq!(pore.grand_potential, Some(bits(1.0)));
            assert_eq!(pore.interfacial_tension, Some(bits(2.0)));
            assert_eq!(pore.profile.density.as_ref().unwrap().get(0, 0), Some(bits(0.7)));
            assert_eq!(pore.profile.bulk, "bulk");
        }
        Err(_) => panic!("a converged solve gives the profile"),
    }
}

#[test]
fn solve_that_failed_hands_the_error_back() {
    let r = unsolved("bulk").solve(Err(17u32));
    match r {
        Ok(_) => panic!("a failed solve gives no profile"),
        Err(e) => assert_eq!(e, 17),
    }
}

#[test]
fn update_bulk_clears_both_scalars_of_a_solved_profile() {
    let mut pore = unsolved("first");
    let r: Result<(), String> = pore.solve_inplace(Ok(solution(-12.5, 0.75)));
    assert!(r.is_ok());
    let pore = pore.update_bulk("second".to_string());
    assert_eq!(pore.grand_potential, None);
    assert_eq!(pore.interfacial_tension, None);
    assert_eq!(pore.profile.bulk, "second");
    assert_eq!(pore.profile.convolver, 7);
    assert_eq!(pore.profile.density.as_ref().unwrap().get(0, 0), Some(bits(0.7)));
    assert_eq!(pore.profile.external_potential.get(0, 1), Some(bits(50.0)));
}

#[test]
fn update_bulk_leaves_an_unsolved_profile_unsolved() {
    let pore = unsolved("first").update_bulk("second".to_string());
    assert_eq!(pore.grand_potential, None);
    assert_eq!(pore.interfacial_tension, None);
    assert!(pore.profile.density.is_none());
    assert_eq!(pore.profile.bulk, "second");
}

#[test]
fn a_profile_can_be_solved_again_after_update_bulk() {
    let mut pore = unsolved("first");
    let r: Result<(), String> = pore.solve_inplace(Ok(solution(-12.5, 0.75)));
    assert!(r.is_ok());
    let mut pore = pore.update_bulk("second".to_string());
    let r: Result<(), String> = pore.solve_inplace(Ok(solution(-11.0, 0.5)));
    assert!(r.is_ok());
    assert_eq!(pore.grand_potential, Some(bits(-11.0)));
    assert_eq!(pore.interfacial_tension, Some(bits(0.5)));
}

#[test]
fn clone_keeps_the_scalars_and_the_fields() {
    let mut pore = unsolved("bulk");
    let r: Result<(), String> = pore.solve_inplace(Ok(solution(-12.5, 0.75)));
    assert!(r.is_ok());
    let copy = pore.clone();
    assert_eq!(copy.grand_potential, Some(bits(-12.5)));
    assert_eq!(copy.interfacial_tension, Some(bits(0.75)));
    assert_eq!(copy.profile.bulk, "bulk");
    assert_eq!(copy.profile.convolver, 7);
    assert_eq!(copy.profile.external_potential.get(0, 0), Some(bits(0.25)));
    assert_eq!(copy.profile.density.as_ref().unwrap().get(0, 0), Some(bits(0.7)));
    assert!(matches!(copy.profile.grid, Grid::Cartesian1(_)));
}
