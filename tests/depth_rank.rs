use termrender::depth::depth_rank;

#[test]
fn ranks_order_as_depths() {
    let depths = [-1e300, -2.5, -1.0, -0.0, 0.0, 1e-300, 0.5, 1.0, 10.0, 3e8];
    for pair in depths.windows(2) {
        let (a, b) = (pair[0], pair[1]);
        assert_eq!(depth_rank(f64::to_bits(a)) < depth_rank(f64::to_bits(b)), a < b);
        assert_eq!(depth_rank(f64::to_bits(a)) > depth_rank(f64::to_bits(b)), a > b);
    }
}

#[test]
fn both_zeros_rank_zero() {
    assert_eq!(depth_rank(f64::to_bits(0.0)), 0);
    assert_eq!(depth_rank(f64::to_bits(-0.0)), 0);
}

#[test]
fn rank_is_sign_magnitude() {
    assert_eq!(depth_rank(f64::to_bits(1.0)), 0x3ff0_0000_0000_0000);
    assert_eq!(depth_rank(f64::to_bits(-1.0)), -0x3ff0_0000_0000_0000);
}
