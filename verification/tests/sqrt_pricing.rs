use liquify::math::integer_sqrt;
use liquify::pricing::swap_output;
use liquify::DexError;

#[test]
fn sqrt_of_zero_is_zero() {
    assert_eq!(integer_sqrt(0), 0);
}

#[test]
fn sqrt_small_values() {
    assert_eq!(integer_sqrt(1), 1);
    assert_eq!(integer_sqrt(2), 1);
    assert_eq!(integer_sqrt(3), 1);
    assert_eq!(integer_sqrt(4), 2);
    assert_eq!(integer_sqrt(15), 3);
    assert_eq!(integer_sqrt(16), 4);
    assert_eq!(integer_sqrt(17), 4);
}

#[test]
fn sqrt_perfect_square_and_neighbours() {
    let r: u128 = 1_000_000_007;
    assert_eq!(integer_sqrt(r * r), r);
    assert_eq!(integer_sqrt(r * r - 1), r - 1);
    assert_eq!(integer_sqrt(r * r + 1), r);
}

#[test]
fn sqrt_large_values() {
    assert_eq!(integer_sqrt(10_000_000_000_000_000_000), 3_162_277_660);
    let m = u64::MAX as u128;
    assert_eq!(integer_sqrt(m * m), m);
    assert_eq!(integer_sqrt(u128::MAX), m);
}

#[test]
fn swap_output_pinned_regression() {
    // reserves (100000, 100000), input 1000, 0.3% fee:
    // floor(100000 * 997000 / (100000 * 1000 + 997000)) == 987
    assert_eq!(swap_output(100_000, 100_000, 1_000), Ok(987));
}

#[test]
fn swap_output_monotone_in_input() {
    let mut last = 0u64;
    for amount in [0u64, 1, 10, 100, 1_000, 10_000, 100_000, 1_000_000] {
        let out = swap_output(100_000, 100_000, amount).unwrap();
        assert!(out >= last);
        last = out;
    }
}

#[test]
fn swap_output_below_fee_free_curve() {
    // fee-free output would be floor(100000 * 1000 / 101000) == 990
    let fee_free = (100_000u128 * 1_000) / (100_000 + 1_000);
    let with_fee = swap_output(100_000, 100_000, 1_000).unwrap();
    assert_eq!(fee_free, 990);
    assert!(u128::from(with_fee) < fee_free);
}

#[test]
fn swap_output_zero_input_is_zero() {
    assert_eq!(swap_output(100_000, 100_000, 0), Ok(0));
}

#[test]
fn swap_output_empty_output_reserve_is_zero() {
    assert_eq!(swap_output(100_000, 0, 1_000), Ok(0));
}

#[test]
fn swap_output_zero_denominator_faults() {
    assert_eq!(swap_output(0, 100_000, 0), Err(DexError::ArithmeticFault));
}

#[test]
fn swap_output_overflowing_numerator_faults() {
    assert_eq!(
        swap_output(1, u64::MAX, u64::MAX),
        Err(DexError::ArithmeticFault)
    );
}
