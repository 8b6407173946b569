use finance::{extremes, Fixed, Volatility};

#[test]
fn range_volatility_calculated_correctly() {
    let nums: [i32; 6] = [10, 5, 2, 1, 3, 7];
    let range = nums.range_volatility();
    assert_eq!(range, 9);
}

#[test]
fn range_volatility_returns_zero_for_one_element_vec() {
    let nums: Vec<i32> = vec![5];
    let range = nums.range_volatility();
    assert_eq!(range, 0);
}

#[test]
fn range_volatility_returns_zero_for_no_elements() {
    let none: Vec<i32> = Vec::new();
    assert_eq!(none.range_volatility(), 0);
    let none: Vec<i64> = Vec::new();
    assert_eq!(none.range_volatility(), 0);
}

#[test]
fn range_volatility_of_equal_elements_is_zero() {
    let nums: [i32; 4] = [7, 7, 7, 7];
    assert_eq!(nums.range_volatility(), 0);
}

#[test]
fn range_volatility_of_two_elements() {
    let nums: [i32; 2] = [3, -4];
    assert_eq!(nums.range_volatility(), 7);
    let nums: [i32; 2] = [-4, 3];
    assert_eq!(nums.range_volatility(), 7);
}

#[test]
fn range_volatility_finds_the_extremes_wherever_they_stand() {
    let nums: [i64; 5] = [0, 100, -50, 100, -50];
    assert_eq!(nums.range_volatility(), 150);
    let nums: [i64; 5] = [9, 8, 7, 6, 5];
    assert_eq!(nums.range_volatility(), 4);
    let nums: [i64; 5] = [5, 6, 7, 8, 9];
    assert_eq!(nums.range_volatility(), 4);
}

#[test]
fn range_volatility_spans_the_whole_of_i32() {
    let nums: [i32; 3] = [i32::MAX, 0, i32::MIN];
    assert_eq!(nums.range_volatility(), u32::MAX);
}

#[test]
fn range_volatility_spans_the_whole_of_i64() {
    let nums: [i64; 3] = [i64::MIN, 0, i64::MAX];
    assert_eq!(nums.range_volatility(), u64::MAX);
}

#[test]
fn range_volatility_of_fixed_series() {
    let nums: Vec<Fixed> = [10_000_000, 5_500_000, -2_250_000, 1_000_000]
        .iter()
        .map(|m| Fixed { micros: *m })
        .collect();
    assert_eq!(nums.range_volatility(), Fixed { micros: 12_250_000 });
    let one = vec![Fixed { micros: 5_000_000 }];
    assert_eq!(one.range_volatility(), Fixed { micros: 0 });
    let none: Vec<Fixed> = Vec::new();
    assert_eq!(none.range_volatility(), Fixed { micros: 0 });
}

#[test]
fn range_volatility_of_fixed_series_stops_at_the_greatest_fixed() {
    let nums = vec![Fixed { micros: i64::MIN }, Fixed { micros: 0 }, Fixed { micros: i64::MAX }];
    assert_eq!(nums.range_volatility(), Fixed { micros: i64::MAX });
}

#[test]
fn extremes_of_no_samples() {
    let none: Vec<i32> = Vec::new();
    assert_eq!(extremes(&none), None);
}

#[test]
fn extremes_are_the_least_and_the_greatest_sample() {
    let nums: [i32; 6] = [10, 5, 2, 1, 3, 7];
    assert_eq!(extremes(&nums), Some((1, 10)));
    let nums: [i64; 4] = [-3, -3, -9, -1];
    assert_eq!(extremes(&nums), Some((-9, -1)));
    let one: [i64; 1] = [4];
    assert_eq!(extremes(&one), Some((4, 4)));
}
