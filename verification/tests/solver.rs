use stackelberg::solver::{active_set_schedule, RRGameConstraints};
use stackelberg::solver_mrgame::{index_of_maximum, single_assignment};

#[test]
fn kkt_vector_length_per_active_set() {
    let none = RRGameConstraints { TVR_active: false, Ta_active: false };
    let tvr = RRGameConstraints { TVR_active: true, Ta_active: false };
    let ta = RRGameConstraints { TVR_active: false, Ta_active: true };
    let both = RRGameConstraints { TVR_active: true, Ta_active: true };
    assert_eq!(none.array_len(4), 8);
    assert_eq!(tvr.array_len(4), 9);
    assert_eq!(ta.array_len(4), 9);
    assert_eq!(both.array_len(4), 10);
    assert_eq!(both.array_len(0), 2);
}

#[test]
fn lambda_positions_per_active_set() {
    let none = RRGameConstraints { TVR_active: false, Ta_active: false };
    let tvr = RRGameConstraints { TVR_active: true, Ta_active: false };
    let ta = RRGameConstraints { TVR_active: false, Ta_active: true };
    let both = RRGameConstraints { TVR_active: true, Ta_active: true };
    assert_eq!(none.lambda_positions(4), (None, None));
    assert_eq!(tvr.lambda_positions(4), (Some(8), None));
    assert_eq!(ta.lambda_positions(4), (None, Some(8)));
    assert_eq!(both.lambda_positions(4), (Some(8), Some(9)));
}

#[test]
fn admissibility_requires_active_multipliers_nonnegative() {
    let both = RRGameConstraints { TVR_active: true, Ta_active: true };
    assert!(both.multipliers_admissible(true, true));
    assert!(!both.multipliers_admissible(false, true));
    assert!(!both.multipliers_admissible(true, false));
    let tvr = RRGameConstraints { TVR_active: true, Ta_active: false };
    // an inactive constraint's multiplier is never examined
    assert!(tvr.multipliers_admissible(true, false));
    assert!(!tvr.multipliers_admissible(false, true));
    let none = RRGameConstraints { TVR_active: false, Ta_active: false };
    assert!(none.multipliers_admissible(false, false));
}

#[test]
fn schedule_tries_all_four_active_sets_in_order() {
    let schedule = active_set_schedule();
    let flags: Vec<(bool, bool)> =
        schedule.iter().map(|c| (c.TVR_active, c.Ta_active)).collect();
    assert_eq!(flags, vec![(false, false), (true, false), (false, true), (true, true)]);
}

#[test]
fn maximum_index_is_the_argmax() {
    assert_eq!(index_of_maximum(&vec![5]), 0);
    assert_eq!(index_of_maximum(&vec![1, 3, 2]), 1);
    assert_eq!(index_of_maximum(&vec![9, 3, 2]), 0);
    assert_eq!(index_of_maximum(&vec![1, 3, 9]), 2);
}

#[test]
fn maximum_index_keeps_the_earliest_tie() {
    assert_eq!(index_of_maximum(&vec![4, 7, 7]), 1);
    assert_eq!(index_of_maximum(&vec![6, 6, 6]), 0);
}

#[test]
fn single_assignment_routes_everything_to_the_chosen_slot() {
    let row = single_assignment(3, 1, 0.0f64, 1250.5f64);
    assert_eq!(row, vec![0.0, 1250.5, 0.0]);
    let row = single_assignment(1, 0, 0u64, 8u64);
    assert_eq!(row, vec![8]);
}
