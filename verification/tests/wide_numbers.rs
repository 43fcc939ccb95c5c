use jup_sdk::wide::Wide;

#[test]
fn products_are_ordered_like_their_exact_values() {
    let words = [0u64, 1, 2, 999, 1_000, u32::MAX as u64, u32::MAX as u64 + 1, u64::MAX - 1, u64::MAX];
    for a in words {
        for b in words {
            for c in words {
                for d in words {
                    let left = Wide::from_u64(a).times(b);
                    let right = Wide::from_u64(c).times(d);
                    let exact = a as u128 * b as u128 >= c as u128 * d as u128;
                    assert_eq!(left.at_least(&right), exact);
                }
            }
        }
    }
}

#[test]
fn long_products_keep_every_limb() {
    let mut power = Wide::one();
    let mut shifted = Wide::one();
    for _ in 0..40 {
        power = power.times(1_000);
        shifted = shifted.times(10).times(100);
    }
    assert!(power.at_least(&shifted));
    assert!(shifted.at_least(&power));
    let more = shifted.times(1).times(1);
    assert!(more.at_least(&power) && power.at_least(&more));
    let larger = power.times(2);
    assert!(larger.at_least(&power));
    assert!(!power.at_least(&larger));
    assert!(!Wide::one().at_least(&power));
    assert!(power.at_least(&Wide::one()));
    assert!(!power.times(0).at_least(&Wide::one()));
    assert!(Wide::one().at_least(&power.times(0)));
}
