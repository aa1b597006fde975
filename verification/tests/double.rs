use colortool::double::Double;

fn double(x: f64) -> Double {
    Double { bits: x.to_bits() }
}

/// Numbers that follow one another without an obvious pattern.
fn scattered(count: usize) -> Vec<u64> {
    let mut state: u64 = 0x9e37_79b9_7f4a_7c15;
    let mut numbers = Vec::new();
    for _ in 0..count {
        state = state
            .wrapping_mul(6_364_136_223_846_793_005)
            .wrapping_add(1_442_695_040_888_963_407);
        numbers.push(state ^ (state >> 29));
    }
    numbers
}

fn unsigned_samples() -> Vec<u32> {
    let mut samples: Vec<u32> = (0..2_000).collect();
    samples.extend((0..2_000).map(|i| u32::MAX - i));
    samples.extend((0..32).flat_map(|i| [(1_u32 << i) - 1, 1 << i, (1 << i) + 1]));
    samples.extend(scattered(2_000).iter().map(|n| *n as u32));
    samples
}

fn assert_goes_out(x: f64) {
    let number = double(x);
    assert_eq!(number.to_unsigned(1), x as u32, "{:e}", x);
    assert_eq!(number.to_unsigned(10_000), (x * 10_000.0) as u32, "{:e}", x);
    assert_eq!(number.to_signed(1_000_000), (x * 1_000_000.0) as i32, "{:e}", x);
}

#[test]
fn unsigned_numbers_come_in_as_the_machine_divides() {
    for n in unsigned_samples() {
        assert_eq!(Double::from_unsigned(n, 1), double(f64::from(n)), "{}", n);
        assert_eq!(Double::from_unsigned(n, 10_000), double(f64::from(n) / 10_000.0), "{}", n);
        assert_eq!(Double::from_unsigned(n, 7), double(f64::from(n) / 7.0), "{}", n);
    }
}

#[test]
fn signed_numbers_come_in_as_the_machine_divides() {
    for n in unsigned_samples() {
        let n = n as i32;
        assert_eq!(
            Double::from_signed(n, 1_000_000),
            double(f64::from(n) / 1_000_000.0),
            "{}",
            n
        );
    }
    assert_eq!(Double::from_signed(i32::MIN, 1), double(-2_147_483_648.0));
}

#[test]
fn one_half_has_its_bits() {
    assert_eq!(Double::from_unsigned(5_000, 10_000), Double { bits: 0x3fe0_0000_0000_0000 });
    assert_eq!(Double::from_unsigned(0, 10_000), Double { bits: 0 });
    assert_eq!(Double::from_signed(-1, 2), Double { bits: 0xbfe0_0000_0000_0000 });
}

#[test]
fn numbers_go_out_as_the_machine_multiplies() {
    for bits in scattered(5_000) {
        assert_goes_out(f64::from_bits(bits));
    }
    // Numbers of a size that can travel.
    for bits in scattered(20_000) {
        let exponent = 1_023 - 40 + bits % 90;
        assert_goes_out(f64::from_bits((bits & 0x800f_ffff_ffff_ffff) | (exponent << 52)));
    }
}

#[test]
fn odd_numbers_go_out_as_the_machine_says() {
    let odd = [
        0.0,
        -0.0,
        1.0,
        -1.0,
        0.999_999_999_999_999_9,
        203.5,
        -0.5,
        4_294_967_295.0,
        4_294_967_295.9,
        4_294_967_296.0,
        2_147.483_647,
        2_147.483_648,
        -2_147.483_648,
        -2_147.483_649,
        429_496.729_5,
        429_496.729_6,
        f64::MAX,
        f64::MIN,
        f64::MIN_POSITIVE,
        f64::EPSILON,
        f64::INFINITY,
        f64::NEG_INFINITY,
        f64::NAN,
        -f64::NAN,
    ];
    for x in odd {
        assert_goes_out(x);
    }
    assert_goes_out(f64::from_bits(1));
    assert_goes_out(f64::from_bits(0x7ff0_0000_0000_0001));
    assert_goes_out(f64::from_bits(0x000f_ffff_ffff_ffff));
}

#[test]
fn exact_values_go_out() {
    assert_eq!(double(0.5).to_unsigned(10_000), 5_000);
    assert_eq!(double(-0.25).to_signed(1_000_000), -250_000);
    assert_eq!(double(-0.25).to_unsigned(10_000), 0);
    assert_eq!(double(1e300).to_signed(1_000_000), i32::MAX);
    assert_eq!(double(-1e300).to_signed(1_000_000), i32::MIN);
}

#[test]
fn wire_numbers_come_back_or_lose_one() {
    for n in unsigned_samples() {
        let back = Double::from_unsigned(n, 10_000).to_unsigned(10_000);
        assert!(back == n || back + 1 == n, "{}", n);
        if n % 625 == 0 {
            assert_eq!(back, n);
        }
        assert_eq!(Double::from_unsigned(n, 1).to_unsigned(1), n);
        let n = n as i32;
        let back = Double::from_signed(n, 1_000_000).to_signed(1_000_000);
        assert!(back == n || back + n.signum() == n, "{}", n);
        if n % 15_625 == 0 {
            assert_eq!(back, n);
        }
    }
    assert_eq!(Double::from_unsigned(3, 10_000).to_unsigned(10_000), 2);
}

#[test]
fn whole_numbers_are_scaled_exactly() {
    for n in unsigned_samples() {
        let expected = (u64::from(n) * 10_000).min(u64::from(u32::MAX)) as u32;
        assert_eq!(Double::from_unsigned(n, 1).to_unsigned(10_000), expected);
    }
}
