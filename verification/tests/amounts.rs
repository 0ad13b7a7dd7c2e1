use pago_curso::Amount;

fn amount(n: u64) -> Amount {
    Amount::from_u64(n)
}

/// 2^64, one more than the largest `u64`.
fn two_to_the_64() -> Amount {
    Amount::from_bytes_be(vec![1, 0, 0, 0, 0, 0, 0, 0, 0])
}

#[test]
fn zero_is_zero() {
    assert!(Amount::zero().is_zero());
    assert!(amount(0).is_zero());
    assert!(!amount(1).is_zero());
    assert_eq!(Amount::zero().to_u64(), Some(0));
    assert_eq!(Amount::zero().to_bytes_be(), Vec::<u8>::new());
}

#[test]
fn from_u64_writes_the_shortest_digits() {
    assert_eq!(amount(0).to_bytes_be(), Vec::<u8>::new());
    assert_eq!(amount(1).to_bytes_be(), vec![1]);
    assert_eq!(amount(255).to_bytes_be(), vec![255]);
    assert_eq!(amount(256).to_bytes_be(), vec![1, 0]);
    assert_eq!(amount(0x0102_0304).to_bytes_be(), vec![1, 2, 3, 4]);
    assert_eq!(amount(u64::MAX).to_bytes_be(), vec![255; 8]);
}

#[test]
fn to_u64_reads_what_from_u64_wrote() {
    for n in [0, 1, 20, 99, 100, 255, 256, 65_535, 65_536, u64::MAX - 1, u64::MAX] {
        assert_eq!(amount(n).to_u64(), Some(n));
    }
}

#[test]
fn to_u64_ignores_leading_zero_digits() {
    let padded = Amount::from_bytes_be(vec![0, 0, 0, 0, 0, 0, 0, 0, 0, 0, 1, 44]);
    assert_eq!(padded.to_u64(), Some(300));
    assert_eq!(padded, amount(300));
}

#[test]
fn to_u64_gives_none_beyond_its_range() {
    assert_eq!(two_to_the_64().to_u64(), None);
    assert_eq!(Amount::from_bytes_be(vec![255; 9]).to_u64(), None);
    let padded = Amount::from_bytes_be(vec![0, 255, 255, 255, 255, 255, 255, 255, 255]);
    assert_eq!(padded.to_u64(), Some(u64::MAX));
}

#[test]
fn equality_is_by_number() {
    assert_eq!(amount(100), amount(100));
    assert_ne!(amount(100), amount(99));
    assert_eq!(Amount::from_bytes_be(vec![0, 100]), amount(100));
    assert_ne!(two_to_the_64(), amount(0));
}

#[test]
fn sum_adds() {
    assert_eq!(amount(20).sum(&amount(80)).to_u64(), Some(100));
    assert_eq!(amount(0).sum(&amount(0)).to_u64(), Some(0));
    assert_eq!(amount(u64::MAX).sum(&amount(1)), two_to_the_64());
}

#[test]
fn product_multiplies() {
    assert_eq!(amount(20).product(&amount(5)).to_u64(), Some(100));
    assert_eq!(amount(20).product(&amount(0)).to_u64(), Some(0));
    assert_eq!(amount(1 << 32).product(&amount(1 << 32)), two_to_the_64());
}

#[test]
fn checked_sub_subtracts() {
    assert_eq!(amount(100).checked_sub(&amount(20)), Some(amount(80)));
    assert_eq!(amount(100).checked_sub(&amount(100)), Some(amount(0)));
    assert_eq!(two_to_the_64().checked_sub(&amount(1)), Some(amount(u64::MAX)));
}

#[test]
fn checked_sub_signals_underflow() {
    assert_eq!(amount(20).checked_sub(&amount(100)), None);
    assert_eq!(amount(0).checked_sub(&amount(1)), None);
    assert_eq!(amount(u64::MAX).checked_sub(&two_to_the_64()), None);
}

#[test]
fn quotient_rounds_down() {
    assert_eq!(amount(100).quotient(&amount(5)).to_u64(), Some(20));
    assert_eq!(amount(100).quotient(&amount(3)).to_u64(), Some(33));
    assert_eq!(amount(2).quotient(&amount(3)).to_u64(), Some(0));
    assert_eq!(amount(0).quotient(&amount(7)).to_u64(), Some(0));
    assert_eq!(two_to_the_64().quotient(&amount(2)).to_u64(), Some(1 << 63));
    assert_eq!(amount(7).quotient(&two_to_the_64()).to_u64(), Some(0));
}

#[test]
fn clone_keeps_the_number() {
    let big = two_to_the_64();
    assert_eq!(big.clone(), big);
    assert_eq!(big.clone().to_bytes_be(), big.to_bytes_be());
}
