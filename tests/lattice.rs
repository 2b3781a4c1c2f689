#![allow(non_snake_case)]

use ising_lib::lattice::{Lattice, LatticeError, MAX_SPINS};
use rand::rngs::SmallRng;
use rand::SeedableRng;

fn float_error(x: f64, t: f64) -> f64 {
    (x - t).abs() / t
}

#[test]
fn test_lattice_new() {
    let lattice = Lattice::new([17, 10]).unwrap();

    assert_eq!(lattice.dims(), [17, 10]);
}

#[test]
fn test_lattice_from_array() {
    let lattice = Lattice::from_array((2, 2), vec![1, -1, 1, -1]).unwrap();

    assert_eq!(lattice.dims(), [2, 2]);
}

#[test]
fn test_spin_times_neighbors() {
    let spins = [-1, -1, 1, 1, 1, 1, 1, 1, -1];
    let lattice = Lattice::from_array((3, 3), spins.to_vec()).unwrap();

    let product = lattice.spin_times_all_neighbors([1, 1]).unwrap();

    assert_eq!(product, 2);
}

#[test]
fn test_measure_E_difference() {
    let lattice = Lattice::from_array((3, 3), vec![-1, -1, 1, 1, 1, 1, -1, 1, 1]).unwrap();

    let E_diff = lattice.measure_E_diff([1, 1]).unwrap();

    assert_eq!(f64::from(E_diff), 4.0);
}

#[test]
fn test_measure_E() {
    let lattice = Lattice::from_array((3, 3), vec![-1, -1, -1, 1, 1, -1, 1, 1, -1]).unwrap();

    let E = lattice.measure_E();

    assert_eq!(E as f64, -2.0);
}

#[test]
fn test_measure_I() {
    let lattice = Lattice::from_array((2, 2), vec![-1, -1, -1, 1]).unwrap();

    let (magnitude, count) = lattice.magnetization_ratio();
    let I = magnitude as f64 / count as f64;

    assert_eq!(I, 0.5);
}

#[test]
fn test_flip_spin() {
    let mut lattice =
        Lattice::from_array((3, 3), vec![-1, -1, -1, -1, 1, 1, -1, -1, 1]).unwrap();

    let E_1 = lattice.measure_E();

    lattice.flip_spin([1, 1]).unwrap();

    let E_2 = lattice.measure_E();

    assert!(float_error((E_2 - E_1) as f64, -4.0) < 0.01);
}

#[test]
fn from_array_accepts_only_spins() {
    assert!(Lattice::from_array((2, 3), vec![1, -1, 1, 1, -1, -1]).is_ok());
    assert_eq!(
        Lattice::from_array((2, 2), vec![5, -1, 1, -1]).err(),
        Some(LatticeError::InvalidSpinValue)
    );
    assert_eq!(
        Lattice::from_array((2, 2), vec![1, -1, 0, -1]).err(),
        Some(LatticeError::InvalidSpinValue)
    );
}

#[test]
fn from_array_rejects_bad_shapes() {
    assert_eq!(
        Lattice::from_array((0, 2), vec![]).err(),
        Some(LatticeError::InvalidShape)
    );
    assert_eq!(
        Lattice::from_array((2, 0), vec![]).err(),
        Some(LatticeError::InvalidShape)
    );
    assert_eq!(
        Lattice::from_array((2, 2), vec![1, 1, 1]).err(),
        Some(LatticeError::InvalidShape)
    );
    assert_eq!(
        Lattice::from_array((2, 2), vec![1, 1, 1, 1, 1]).err(),
        Some(LatticeError::InvalidShape)
    );
    // the shape is checked before the values
    assert_eq!(
        Lattice::from_array((2, 2), vec![7, 1, 1]).err(),
        Some(LatticeError::InvalidShape)
    );
}

#[test]
fn new_rejects_empty_and_oversized_dims() {
    assert_eq!(Lattice::new([0, 5]).err(), Some(LatticeError::InvalidShape));
    assert_eq!(Lattice::new([5, 0]).err(), Some(LatticeError::InvalidShape));
    assert_eq!(
        Lattice::new([MAX_SPINS, 2]).err(),
        Some(LatticeError::InvalidShape)
    );
    assert_eq!(
        Lattice::new([usize::MAX, usize::MAX]).err(),
        Some(LatticeError::InvalidShape)
    );
}

#[test]
fn new_with_rng_fills_with_spins() {
    let mut rng = SmallRng::seed_from_u64(7);
    let lattice = Lattice::new_with_rng([6, 5], &mut rng).unwrap();

    assert_eq!(lattice.dims(), [6, 5]);
    let cells = lattice.inner();
    assert_eq!(cells.len(), 30);
    assert!(cells.iter().all(|s| *s == 1 || *s == -1));
    // thirty fair draws are not all equal
    assert!(cells.iter().any(|s| *s == 1));
    assert!(cells.iter().any(|s| *s == -1));
}

#[test]
fn inner_is_row_major() {
    let cells = vec![1, 1, -1, -1, 1, -1];
    let lattice = Lattice::from_array((2, 3), cells.clone()).unwrap();

    assert_eq!(lattice.inner(), cells);
    assert_eq!(lattice.spin_at([0, 2]), Ok(-1));
    assert_eq!(lattice.spin_at([1, 0]), Ok(-1));
    assert_eq!(lattice.spin_at([1, 1]), Ok(1));
}

#[test]
fn indexed_access_out_of_bounds() {
    let mut lattice = Lattice::from_array((2, 3), vec![1, 1, -1, -1, 1, -1]).unwrap();

    assert_eq!(lattice.spin_at([2, 0]), Err(LatticeError::IndexOutOfBounds));
    assert_eq!(lattice.spin_at([0, 3]), Err(LatticeError::IndexOutOfBounds));
    assert_eq!(
        lattice.measure_E_diff([42, 0]),
        Err(LatticeError::IndexOutOfBounds)
    );
    assert_eq!(
        lattice.spin_times_all_neighbors([0, 9]),
        Err(LatticeError::IndexOutOfBounds)
    );
    assert_eq!(
        lattice.neighbors_of([5, 5]),
        Err(LatticeError::IndexOutOfBounds)
    );
    assert_eq!(lattice.flip_spin([2, 2]), Err(LatticeError::IndexOutOfBounds));
    assert_eq!(lattice.inner(), vec![1, 1, -1, -1, 1, -1]);
}

#[test]
fn neighbors_wrap_around_the_torus() {
    let lattice = Lattice::from_array((3, 4), vec![1; 12]).unwrap();

    assert_eq!(
        lattice.neighbors_of([0, 0]),
        Ok([[1, 0], [0, 1], [2, 0], [0, 3]])
    );
    assert_eq!(
        lattice.neighbors_of([2, 3]),
        Ok([[0, 3], [2, 0], [1, 3], [2, 2]])
    );
    assert_eq!(
        lattice.neighbors_of([1, 2]),
        Ok([[2, 2], [1, 3], [0, 2], [1, 1]])
    );
}

#[test]
fn neighbor_table_is_symmetric() {
    let lattice = Lattice::from_array((3, 4), vec![1; 12]).unwrap();

    for i in 0..3 {
        for j in 0..4 {
            let own = lattice.neighbors_of([i, j]).unwrap();
            let right = lattice.neighbors_of(own[0]).unwrap();
            let bottom = lattice.neighbors_of(own[1]).unwrap();
            let left = lattice.neighbors_of(own[2]).unwrap();
            let top = lattice.neighbors_of(own[3]).unwrap();
            assert_eq!(left[0], [i, j]);
            assert_eq!(right[2], [i, j]);
            assert_eq!(top[1], [i, j]);
            assert_eq!(bottom[3], [i, j]);
        }
    }
}

#[test]
fn flip_twice_restores_spins() {
    let cells = vec![-1, -1, 1, 1, 1, 1, -1, 1, 1];
    let mut lattice = Lattice::from_array((3, 3), cells.clone()).unwrap();

    lattice.flip_spin([2, 0]).unwrap();
    assert_eq!(lattice.inner(), vec![-1, -1, 1, 1, 1, 1, 1, 1, 1]);
    lattice.flip_spin([2, 0]).unwrap();
    assert_eq!(lattice.inner(), cells);
}

#[test]
fn energy_of_uniform_lattice() {
    let lattice = Lattice::from_array((4, 5), vec![-1; 20]).unwrap();

    assert_eq!(lattice.measure_E(), -40);
    assert_eq!(lattice.measure_E_diff([3, 4]), Ok(8));
    assert_eq!(lattice.magnetization_ratio(), (20, 20));
}

#[test]
fn energy_of_checkerboard() {
    let lattice = Lattice::from_array((2, 2), vec![1, -1, -1, 1]).unwrap();

    // on a 2 by 2 torus each cell meets its opposite neighbours twice
    assert_eq!(lattice.measure_E(), 8);
    assert_eq!(lattice.measure_E_diff([0, 0]), Ok(-8));
    assert_eq!(lattice.magnetization_ratio(), (0, 4));
}

#[test]
fn magnetization_stays_in_unit_range() {
    let mut rng = SmallRng::seed_from_u64(11);
    let lattice = Lattice::new_with_rng([9, 7], &mut rng).unwrap();

    let (magnitude, count) = lattice.magnetization_ratio();
    assert_eq!(count, 63);
    assert!(magnitude <= count);
    let sum: i32 = lattice.inner().iter().sum();
    assert_eq!(magnitude as i32, sum.abs());
}

#[test]
fn random_index_is_in_bounds() {
    let mut rng = SmallRng::seed_from_u64(3);
    let mut lattice = Lattice::from_array((3, 5), vec![1; 15]).unwrap();

    let mut seen = std::collections::HashSet::new();
    for _ in 0..500 {
        let ix = lattice.gen_random_index(&mut rng);
        assert!(ix[0] < 3 && ix[1] < 5);
        seen.insert(ix);
    }
    // uniform draws reach every cell
    assert_eq!(seen.len(), 15);
    assert_eq!(lattice.inner(), vec![1; 15]);
}

#[test]
fn flip_changes_energy_by_measured_difference() {
    let mut rng = SmallRng::seed_from_u64(21);
    for dims in [[2, 2], [2, 5], [3, 3], [4, 6]] {
        let mut lattice = Lattice::new_with_rng(dims, &mut rng).unwrap();
        for i in 0..dims[0] {
            for j in 0..dims[1] {
                let before = lattice.measure_E();
                let diff = lattice.measure_E_diff([i, j]).unwrap();
                lattice.flip_spin([i, j]).unwrap();
                assert_eq!(lattice.measure_E() - before, i64::from(diff));
            }
        }
    }
}
