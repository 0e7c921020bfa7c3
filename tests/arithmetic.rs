use uniswap_core::account::AccountId;
use uniswap_core::wide::{mul_wide, sqrt_wide, uq112_div, wrapping_add, wrapping_mul_u32, Wide};

#[test]
fn full_product_of_largest_words() {
    assert_eq!(mul_wide(u128::MAX, u128::MAX), Wide { hi: u128::MAX - 1, lo: 1 });
    assert_eq!(mul_wide(1 << 64, 1 << 64), Wide { hi: 1, lo: 0 });
    assert_eq!(mul_wide(12345, 678), Wide { hi: 0, lo: 12345 * 678 });
}

#[test]
fn square_roots() {
    assert_eq!(sqrt_wide(Wide { hi: 0, lo: 0 }), 0);
    assert_eq!(sqrt_wide(Wide { hi: 0, lo: 15 }), 3);
    assert_eq!(sqrt_wide(Wide { hi: 0, lo: 16 }), 4);
    assert_eq!(sqrt_wide(Wide { hi: 0, lo: u128::MAX }), u64::MAX as u128);
    assert_eq!(sqrt_wide(Wide { hi: u128::MAX, lo: u128::MAX }), u128::MAX);
    assert_eq!(sqrt_wide(Wide { hi: 1, lo: 0 }), 1 << 64);
}

#[test]
fn wrapping_sums_and_products() {
    let max = Wide { hi: u128::MAX, lo: u128::MAX };
    assert_eq!(wrapping_add(max, Wide { hi: 0, lo: 1 }), Wide { hi: 0, lo: 0 });
    assert_eq!(wrapping_add(Wide { hi: 0, lo: u128::MAX }, Wide { hi: 0, lo: 2 }), Wide { hi: 1, lo: 1 });
    assert_eq!(wrapping_mul_u32(max, 2), Wide { hi: u128::MAX, lo: u128::MAX - 1 });
    assert_eq!(wrapping_mul_u32(Wide { hi: 0, lo: 1 << 127 }, 4), Wide { hi: 2, lo: 0 });
}

#[test]
fn fixed_point_quotients() {
    assert_eq!(uq112_div(2, 1), Wide { hi: 0, lo: 2u128 << 112 });
    assert_eq!(uq112_div(1, 2), Wide { hi: 0, lo: 1u128 << 111 });
    let third = uq112_div(1, 3);
    assert_eq!(third, Wide { hi: 0, lo: (1u128 << 112) / 3 });
    let big = uq112_div((1u128 << 112) - 1, 1);
    assert_eq!(big, Wide { hi: ((1u128 << 112) - 1) >> 16, lo: 0xffffu128 << 112 });
}

#[test]
fn canonical_order_of_accounts() {
    let mut a = [0u8; 32];
    let mut b = [0u8; 32];
    a[3] = 1;
    b[2] = 1;
    let x = AccountId::from_bytes(a);
    let y = AccountId::from_bytes(b);
    assert!(x.lt(&y));
    assert!(!y.lt(&x));
    assert!(!x.lt(&x));
    assert!(AccountId::zero().is_zero());
    assert!(!x.is_zero());
}
