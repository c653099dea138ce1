use hyperloglog::{
    count_leading_zeros, count_zero_registers, get_alpha, position_of_leftmost_one_bit,
    BiasConstant, Estimator, HllError, HyperLogLog,
};

#[test]
fn leading_zeros_of_a_word_of_given_width() {
    assert_eq!(count_leading_zeros(0, 60), 60);
    assert_eq!(count_leading_zeros(1, 60), 59);
    assert_eq!(count_leading_zeros(0b100, 8), 5);
    assert_eq!(count_leading_zeros(255, 8), 0);
    assert_eq!(count_leading_zeros(u64::MAX, 64), 0);
    assert_eq!(count_leading_zeros(1 << 59, 60), 0);
    assert_eq!(count_leading_zeros((1 << 59) - 1, 60), 1);
    assert_eq!(count_leading_zeros(0, 0), 0);
    assert_eq!(count_leading_zeros(5, 255), 252);
}

#[test]
fn rank_is_one_more_than_the_leading_zeros() {
    assert_eq!(position_of_leftmost_one_bit(1, 60), 60);
    assert_eq!(position_of_leftmost_one_bit(0b100, 8), 6);
    assert_eq!(position_of_leftmost_one_bit(255, 8), 1);
    assert_eq!(position_of_leftmost_one_bit(1 << 59, 60), 1);
    assert_eq!(position_of_leftmost_one_bit(u64::MAX, 64), 1);
    assert_eq!(position_of_leftmost_one_bit(3, 48), 47);
}

#[test]
fn rank_of_the_zero_word_is_the_width() {
    assert_eq!(position_of_leftmost_one_bit(0, 60), 60);
    assert_eq!(position_of_leftmost_one_bit(0, 48), 48);
    assert_eq!(position_of_leftmost_one_bit(0, 255), 255);
    assert_eq!(position_of_leftmost_one_bit(0, 0), 0);
}

#[test]
fn zero_registers_are_counted() {
    assert_eq!(count_zero_registers(&[]), 0);
    assert_eq!(count_zero_registers(&[0]), 1);
    assert_eq!(count_zero_registers(&[7]), 0);
    assert_eq!(count_zero_registers(&[0, 3, 0, 0, 1, 255, 0]), 4);
    assert_eq!(count_zero_registers(&[0u8; 4096]), 4096);
}

#[test]
fn bias_constant_of_the_small_precisions() {
    assert_eq!(get_alpha(4), Ok(BiasConstant { numerator: 673, denominator: 1000 }));
    assert_eq!(get_alpha(5), Ok(BiasConstant { numerator: 697, denominator: 1000 }));
    assert_eq!(get_alpha(6), Ok(BiasConstant { numerator: 709, denominator: 1000 }));
    for (b, expected) in [(4u8, 0.673f64), (5, 0.697), (6, 0.709)] {
        let alpha = HyperLogLog::with_seed(b, 0, 0).unwrap().bias_constant();
        assert_eq!(alpha.numerator as f64 / alpha.denominator as f64, expected);
    }
}

#[test]
fn bias_constant_of_the_larger_precisions() {
    assert_eq!(get_alpha(7), Ok(BiasConstant { numerator: 923264, denominator: 1290790 }));
    assert_eq!(
        get_alpha(16),
        Ok(BiasConstant { numerator: 472711168, denominator: 655370790 })
    );
    let alpha = HyperLogLog::with_seed(10, 0, 0).unwrap().bias_constant();
    assert_eq!(alpha, BiasConstant { numerator: 7213 * 1024, denominator: 10000 * 1024 + 10790 });
    let value = alpha.numerator as f64 / alpha.denominator as f64;
    assert!((value - 0.7213 / (1.0 + 1.079 / 1024.0)).abs() < 1e-15);
    for b in 7..=16u8 {
        let alpha = get_alpha(b).unwrap();
        let value = alpha.numerator as f64 / alpha.denominator as f64;
        let m = (1u64 << b) as f64;
        assert!((value - 0.7213 / (1.0 + 1.079 / m)).abs() < 1e-15);
    }
}

#[test]
fn bias_constant_refuses_an_invalid_precision() {
    assert_eq!(get_alpha(3), Err(HllError::InvalidPrecision { precision: 3 }));
    assert_eq!(get_alpha(17), Err(HllError::InvalidPrecision { precision: 17 }));
    assert_eq!(get_alpha(0), Err(HllError::InvalidPrecision { precision: 0 }));
    assert_eq!(get_alpha(255), Err(HllError::InvalidPrecision { precision: 255 }));
}

#[test]
fn estimator_is_linear_counting_only_in_the_small_range_with_zeros() {
    assert_eq!(Estimator::select(true, 1), Estimator::LinearCounting);
    assert_eq!(Estimator::select(true, 4096), Estimator::LinearCounting);
    assert_eq!(Estimator::select(true, 0), Estimator::HyperLogLog);
    assert_eq!(Estimator::select(false, 0), Estimator::HyperLogLog);
    assert_eq!(Estimator::select(false, 12), Estimator::HyperLogLog);
}

#[test]
fn histogram_of_an_empty_sketch_is_one_full_bar() {
    let hll = HyperLogLog::with_seed(4, 0, 0).unwrap();
    assert_eq!(
        hll.histgram_of_register_value_distribution(),
        format!("  0: {} 16", "*".repeat(40))
    );
}

#[test]
fn histogram_has_a_line_for_every_value_up_to_the_highest() {
    let mut hll = HyperLogLog::with_seed(4, 0, 0).unwrap();
    // rank 2 into register 1, rank 4 into registers 2 and 3
    hll.insert_hash((1 << 62) | 1);
    hll.insert_hash((1 << 60) | 2);
    hll.insert_hash((1 << 60) | 3);
    let expected = [
        format!("  0: {} 13", "*".repeat(40)),
        "  1: 0".to_string(),
        format!("  2: {} 1", "*".repeat(4)),
        "  3: 0".to_string(),
        format!("  4: {} 2", "*".repeat(7)),
    ]
    .join("\n");
    assert_eq!(hll.histgram_of_register_value_distribution(), expected);
}

#[test]
fn histogram_labels_are_right_aligned() {
    let mut hll = HyperLogLog::with_seed(4, 0, 0).unwrap();
    hll.insert_hash((1 << 54) | 1);
    let text = hll.histgram_of_register_value_distribution();
    let lines: Vec<&str> = text.lines().collect();
    assert_eq!(lines.len(), 11);
    assert_eq!(lines[9], "  9: 0");
    assert_eq!(lines[10], format!(" 10: {} 1", "*".repeat(3)));
}

#[test]
fn histogram_counts_are_written_in_decimal() {
    let mut hll = HyperLogLog::with_seed(12, 0, 0).unwrap();
    for i in 0..1000u64 {
        hll.insert_hash((1 << 63) | i);
    }
    let expected = [
        format!("  0: {} 3096", "*".repeat(40)),
        format!("  1: {} 1000", "*".repeat(13)),
    ]
    .join("\n");
    assert_eq!(hll.histgram_of_register_value_distribution(), expected);
}
