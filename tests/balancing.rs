use gitlab_roulette::balance::{
    allocation_with_extras, assign, base_allocation, plan_assignment, BalanceError,
};
use rand::rngs::StdRng;
use rand::SeedableRng;

fn counts(a: &[usize], m: usize) -> Vec<usize> {
    let mut c = vec![0; m];
    for &x in a {
        c[x] += 1;
    }
    c
}

#[test]
fn five_issues_two_members_split_three_and_two() {
    for seed in 0..20 {
        let mut rng = StdRng::seed_from_u64(seed);
        let pairs = assign(&vec![0, 1, 2, 3, 4], 2, &mut rng).unwrap();
        assert_eq!(pairs.len(), 5);
        let keys: Vec<usize> = pairs.iter().map(|p| p.0).collect();
        assert_eq!(keys, vec![0, 1, 2, 3, 4]);
        let members: Vec<usize> = pairs.iter().map(|p| p.1).collect();
        let mut c = counts(&members, 2);
        c.sort();
        assert_eq!(c, vec![2, 3]);
    }
}

#[test]
fn no_issues_give_empty_assignment() {
    let mut rng = StdRng::seed_from_u64(1);
    assert_eq!(assign(&Vec::new(), 2, &mut rng), Ok(Vec::new()));
}

#[test]
fn no_members_is_an_error() {
    let mut rng = StdRng::seed_from_u64(1);
    assert_eq!(assign(&vec![0, 1], 0, &mut rng), Err(BalanceError::NoMembers));
    assert_eq!(plan_assignment(0, 0, &mut rng), Err(BalanceError::NoMembers));
}

#[test]
fn every_member_gets_at_least_the_quotient() {
    for seed in 0..20 {
        let mut rng = StdRng::seed_from_u64(seed);
        let a = plan_assignment(17, 4, &mut rng).unwrap();
        assert_eq!(a.len(), 17);
        let c = counts(&a, 4);
        assert!(c.iter().all(|&x| x >= 4 && x <= 5));
        assert_eq!(c.iter().sum::<usize>(), 17);
    }
}

#[test]
fn same_seed_same_assignment() {
    let mut r1 = StdRng::seed_from_u64(9);
    let mut r2 = StdRng::seed_from_u64(9);
    assert_eq!(plan_assignment(30, 7, &mut r1), plan_assignment(30, 7, &mut r2));
}

#[test]
fn assignment_is_shuffled() {
    let base = base_allocation(2, 10);
    let moved = (0..10).any(|seed| {
        let mut rng = StdRng::seed_from_u64(seed);
        plan_assignment(20, 2, &mut rng).unwrap() != base
    });
    assert!(moved);
}

#[test]
fn base_allocation_repeats_each_member() {
    assert_eq!(base_allocation(3, 2), vec![0, 0, 1, 1, 2, 2]);
    assert!(base_allocation(4, 0).is_empty());
}

#[test]
fn extras_are_appended_to_the_base() {
    assert_eq!(allocation_with_extras(7, 3, &vec![2]), vec![0, 0, 1, 1, 2, 2, 2]);
    assert_eq!(allocation_with_extras(5, 3, &vec![0, 0]), vec![0, 1, 2, 0, 0]);
}
