use ising_lib::lattice::Lattice;
use ising_lib::sweep::{FlipGroup, GroupState, SweepSchedule, SweepStep};
use rand::rngs::SmallRng;
use rand::SeedableRng;

#[test]
fn group_without_tries_is_exhausted() {
    let group = FlipGroup::new(0);

    assert_eq!(group.state(), GroupState::Exhausted);
    assert_eq!(group.tries(), 0);
}

#[test]
fn rejected_tries_exhaust_the_group() {
    let mut rng = SmallRng::seed_from_u64(5);
    let cells = vec![1, -1, 1, -1, 1, -1, 1, -1, 1];
    let mut lattice = Lattice::from_array((3, 3), cells.clone()).unwrap();
    let mut group = FlipGroup::new(3);

    for expected_tries in 1..=3 {
        assert_eq!(group.state(), GroupState::Attempting);
        let (ix, _) = group.propose(&mut lattice, &mut rng);
        group.settle(&mut lattice, ix, false);
        assert_eq!(group.tries(), expected_tries);
    }
    assert_eq!(group.state(), GroupState::Exhausted);
    assert_eq!(group.attempts_per_flip(), 3);
    assert_eq!(lattice.inner(), cells);
}

#[test]
fn accepted_try_flips_and_ends_the_group() {
    let mut rng = SmallRng::seed_from_u64(9);
    let mut lattice = Lattice::from_array((3, 3), vec![1; 9]).unwrap();
    let mut group = FlipGroup::new(20);

    let (ix, e_diff) = group.propose(&mut lattice, &mut rng);
    // every cell of a uniform lattice would cost 8 to flip
    assert_eq!(e_diff, 8);
    group.settle(&mut lattice, ix, false);
    let (ix, e_diff) = group.propose(&mut lattice, &mut rng);
    assert_eq!(e_diff, lattice.measure_E_diff(ix).unwrap());
    group.settle(&mut lattice, ix, true);

    assert_eq!(group.state(), GroupState::Accepted);
    assert_eq!(group.tries(), 2);
    assert_eq!(lattice.spin_at(ix), Ok(-1));
    assert_eq!(lattice.measure_E(), -18 + 8);
}

#[test]
fn schedule_runs_equilibration_then_cycles_per_temperature() {

    let mut schedule = SweepSchedule::new(2, 2, 2, 1);
    let mut steps = Vec::new();
    loop {
        let step = schedule.next_step();
        steps.push(step);
        if step == SweepStep::Done {
            break;
        }
    }

    assert_eq!(
        steps,
        vec![
            SweepStep::Equilibrate,
            SweepStep::Equilibrate,
            SweepStep::Flip { t: 0 },
            SweepStep::Sample { t: 0 },
            SweepStep::Flip { t: 0 },
            SweepStep::Sample { t: 0 },
            SweepStep::Finish { t: 0 },
            SweepStep::Flip { t: 1 },
            SweepStep::Sample { t: 1 },
            SweepStep::Flip { t: 1 },
            SweepStep::Sample { t: 1 },
            SweepStep::Finish { t: 1 },
            SweepStep::Done,
        ]
    );
    assert_eq!(schedule.next_step(), SweepStep::Done);
}

#[test]
fn schedule_without_flips_or_temperatures() {

    let mut schedule = SweepSchedule::new(0, 1, 2, 0);
    assert_eq!(schedule.next_step(), SweepStep::Sample { t: 0 });
    assert_eq!(schedule.next_step(), SweepStep::Sample { t: 0 });
    assert_eq!(schedule.next_step(), SweepStep::Finish { t: 0 });
    assert_eq!(schedule.next_step(), SweepStep::Done);

    let mut empty = SweepSchedule::new(1, 0, 5, 5);
    assert_eq!(empty.next_step(), SweepStep::Equilibrate);
    assert_eq!(empty.next_step(), SweepStep::Done);
}
