use bo::simplex::{breakpoint, descending_order};

fn bits(values: &[f64]) -> Vec<u64> {
    values.iter().map(|v| v.to_bits()).collect()
}

fn order(values: &[f64]) -> Vec<usize> {
    descending_order(&bits(values))
}

#[test]
fn descending_order_takes_the_largest_component_first() {
    assert_eq!(order(&[0.3, 0.9, -0.4, 0.7]), vec![1, 3, 0, 2]);
    assert_eq!(order(&[1.0, 2.0, 3.0]), vec![2, 1, 0]);
    assert_eq!(order(&[3.0, 2.0, 1.0]), vec![0, 1, 2]);
    assert_eq!(order(&[f64::NEG_INFINITY, f64::INFINITY, 0.0]), vec![1, 2, 0]);
    assert_eq!(order(&[-1.0, -2.0, -0.5]), vec![2, 0, 1]);
    assert_eq!(order(&[1e-300, 0.0, 5e-324]), vec![0, 2, 1]);
}

#[test]
fn descending_order_keeps_equal_components_in_their_order() {
    assert_eq!(order(&[0.5, 0.9, 0.5, 0.9, 0.5]), vec![1, 3, 0, 2, 4]);
    assert_eq!(order(&[0.0, 0.0, 0.0]), vec![0, 1, 2]);
}

#[test]
fn descending_order_of_nothing_and_of_one_component() {
    assert_eq!(order(&[]), Vec::<usize>::new());
    assert_eq!(order(&[-1.0]), vec![0]);
}

#[test]
fn breakpoint_is_the_first_candidate_that_the_next_component_does_not_exceed() {
    // Components 0.9, 0.5, 0.1 and the cap 1.0: the candidates are -0.1, 0.2
    // and 0.5 / 3; the component 0.1 after the second does not exceed 0.2.
    let sorted = [0.9, 0.5, 0.1];
    let candidates = [(0.9 - 1.0) / 1.0, (1.4 - 1.0) / 2.0, (1.5 - 1.0) / 3.0];
    assert_eq!(breakpoint(&bits(&sorted), &bits(&candidates)), Some(1));
    assert_eq!(breakpoint(&bits(&[2.5, 2.5]), &bits(&[1.5, 2.0])), Some(1));
    assert_eq!(breakpoint(&bits(&[5.0, 0.1]), &bits(&[4.0, 2.05])), Some(0));
    assert_eq!(breakpoint(&bits(&[3.0, 3.0]), &bits(&[3.0, 2.5])), Some(0));
}

#[test]
fn breakpoint_after_the_last_component_is_always_found_for_a_number() {
    assert_eq!(breakpoint(&bits(&[7.0]), &bits(&[-1e300])), Some(0));
    assert_eq!(breakpoint(&bits(&[7.0]), &bits(&[f64::NEG_INFINITY])), Some(0));
    assert_eq!(breakpoint(&bits(&[3.0, 2.0, 1.0]), &bits(&[0.0, 0.0, 0.0])), Some(2));
}

#[test]
fn breakpoint_is_missing_where_no_candidate_will_do() {
    assert_eq!(breakpoint(&bits(&[]), &bits(&[])), None);
    assert_eq!(breakpoint(&bits(&[7.0]), &bits(&[f64::NAN])), None);
    assert_eq!(breakpoint(&bits(&[3.0, 2.0]), &bits(&[1.0])), None);
    assert_eq!(breakpoint(&bits(&[3.0, f64::NAN]), &bits(&[1.0, f64::NAN])), None);
    assert_eq!(breakpoint(&bits(&[3.0]), &bits(&[])), None);
}

#[test]
fn descending_order_agrees_with_a_stable_sort() {
    let mut seed: u64 = 0x2545_f491_4f6c_dd1d;
    for round in 0..200usize {
        let mut values = Vec::new();
        for _ in 0..(round % 13) {
            seed = seed.wrapping_mul(6364136223846793005).wrapping_add(1442695040888963407);
            values.push((((seed >> 33) % 7) as f64 - 3.0) / 4.0);
        }
        let mut expected: Vec<usize> = (0..values.len()).collect();
        expected.sort_by(|a, b| values[*b].total_cmp(&values[*a]));
        assert_eq!(order(&values), expected);
    }
}
