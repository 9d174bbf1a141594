use price_feed::consensus::{median, sort_ascending};

#[test]
fn median_of_one_value_is_that_value() {
    assert_eq!(median(vec![10]), 10);
}

#[test]
fn median_of_two_values_is_their_average() {
    assert_eq!(median(vec![10, 20]), 15);
}

#[test]
fn median_of_three_values_is_the_middle_one() {
    assert_eq!(median(vec![10, 20, 30]), 20);
}

#[test]
fn median_of_an_even_count_rounds_down() {
    assert_eq!(median(vec![1, 2, 3, 4]), 2);
}

#[test]
fn median_sorts_before_it_picks() {
    assert_eq!(median(vec![30, 10, 20]), 20);
    assert_eq!(median(vec![4, 1, 3, 2]), 2);
    assert_eq!(median(vec![9, 7, 8, 1, 100]), 8);
}

#[test]
fn median_is_the_same_for_every_order() {
    let orders: [[u128; 4]; 6] = [
        [5, 7, 7, 100],
        [100, 7, 7, 5],
        [7, 100, 5, 7],
        [7, 5, 100, 7],
        [7, 7, 5, 100],
        [100, 5, 7, 7],
    ];
    for order in orders {
        assert_eq!(median(order.to_vec()), 7);
    }
}

#[test]
fn median_counts_equal_values_each_time() {
    assert_eq!(median(vec![1, 1, 1, 9]), 1);
    assert_eq!(median(vec![1, 9, 9, 9]), 9);
    assert_eq!(median(vec![3, 3]), 3);
}

#[test]
fn median_of_large_values_does_not_overflow() {
    assert_eq!(median(vec![u128::MAX, u128::MAX]), u128::MAX);
    assert_eq!(median(vec![u128::MAX, u128::MAX - 1]), u128::MAX - 1);
    assert_eq!(median(vec![0, u128::MAX]), u128::MAX / 2);
    assert_eq!(median(vec![u128::MAX - 2, 1, u128::MAX, 3]), (u128::MAX - 2) / 2 + 2);
}

#[test]
fn sort_puts_values_in_ascending_order() {
    let mut values: Vec<u128> = vec![5, 3, 9, 3, 0, u128::MAX, 1];
    sort_ascending(&mut values);
    assert_eq!(values, vec![0, 1, 3, 3, 5, 9, u128::MAX]);
}

#[test]
fn sort_agrees_with_the_standard_sort() {
    let mut seed: u128 = 0x2545_f491_4f6c_dd1d;
    for len in 0..40usize {
        let mut values: Vec<u128> = Vec::new();
        for _ in 0..len {
            seed = seed.wrapping_mul(6364136223846793005).wrapping_add(1442695040888963407);
            values.push(seed % 17);
        }
        let mut expected = values.clone();
        expected.sort();
        sort_ascending(&mut values);
        assert_eq!(values, expected);
    }
}

#[test]
fn sort_of_nothing_is_nothing() {
    let mut values: Vec<u128> = Vec::new();
    sort_ascending(&mut values);
    assert!(values.is_empty());
}
