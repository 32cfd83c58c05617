use gcd_server::gcd::greatest_common_divisor;
use gcd_server::gcd::compute_gcd;
use gcd_server::gcd::ArithmeticError;

#[test]
fn test_greatest_common_divisor() {
    assert_eq!(greatest_common_divisor(14, 15), 1);
    assert_eq!(greatest_common_divisor(2 * 3 * 5 * 11 * 17, 3 * 7 * 11 * 13 * 19), 3 * 11);
}

#[test]
fn single_element_identity() {
    assert_eq!(compute_gcd(&vec![7]), Ok(7));
    assert_eq!(compute_gcd(&vec![1]), Ok(1));
    assert_eq!(compute_gcd(&vec![u64::MAX]), Ok(u64::MAX));
}

#[test]
fn coprime_pair() {
    assert_eq!(compute_gcd(&vec![14, 15]), Ok(1));
}

#[test]
fn shared_factors() {
    assert_eq!(compute_gcd(&vec![2 * 3 * 5 * 11 * 17, 3 * 7 * 11 * 13 * 19]), Ok(33));
}

#[test]
fn order_does_not_matter() {
    let expected = compute_gcd(&vec![12, 18, 24]);
    assert_eq!(expected, Ok(6));
    assert_eq!(compute_gcd(&vec![12, 24, 18]), expected);
    assert_eq!(compute_gcd(&vec![18, 12, 24]), expected);
    assert_eq!(compute_gcd(&vec![18, 24, 12]), expected);
    assert_eq!(compute_gcd(&vec![24, 12, 18]), expected);
    assert_eq!(compute_gcd(&vec![24, 18, 12]), expected);
}

#[test]
fn zero_operand_is_reported() {
    assert_eq!(compute_gcd(&vec![0, 5]), Err(ArithmeticError::ZeroOperand));
    assert_eq!(compute_gcd(&vec![5, 0]), Err(ArithmeticError::ZeroOperand));
    assert_eq!(compute_gcd(&vec![0]), Err(ArithmeticError::ZeroOperand));
}
