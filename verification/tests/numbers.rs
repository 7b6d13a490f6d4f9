use mexc_lag::decimal::{Decimal, MAX_MANTISSA, MAX_SCALE};

fn d(text: &str) -> Decimal {
    Decimal::parse(text).unwrap()
}

#[test]
fn numbers_are_read_and_written() {
    let n = d("123.4500");
    assert_eq!(n.mantissa(), 1_234_500);
    assert_eq!(n.scale(), 4);
    assert_eq!(n.text(), "123.4500");
    assert_eq!(d("-0.001").text(), "-0.001");
    assert_eq!(d("0").text(), "0");
    assert_eq!(d("0.00").text(), "0.00");
    assert_eq!(Decimal::of_int(-42).text(), "-42");
    assert!(Decimal::parse("abc").is_none());
    assert!(Decimal::parse("").is_none());
    assert!(Decimal::parse("1,5").is_none());
}

#[test]
fn writing_and_reading_give_the_number_back() {
    for (m, s) in [(0i128, 0u32), (5, 1), (-5, 28), (MAX_MANTISSA, 0), (-MAX_MANTISSA, 28), (100, 2)] {
        let n = Decimal::new(m, s).unwrap();
        assert_eq!(Decimal::parse(&n.text()), Some(n));
    }
}

#[test]
fn too_large_parts_make_no_number() {
    assert!(Decimal::new(MAX_MANTISSA, MAX_SCALE).is_some());
    assert!(Decimal::new(MAX_MANTISSA + 1, 0).is_none());
    assert!(Decimal::new(-MAX_MANTISSA - 1, 0).is_none());
    assert!(Decimal::new(1, MAX_SCALE + 1).is_none());
}

#[test]
fn sums_are_exact_where_they_fit() {
    assert_eq!(d("0.10").plus(d("0.2")).unwrap().text(), "0.30");
    assert_eq!(d("0").plus(d("0.250")).unwrap().text(), "0.250");
    assert_eq!(d("0.250").plus(d("0")).unwrap().text(), "0.250");
    assert!(Decimal::new(MAX_MANTISSA, 0).unwrap().plus(Decimal::of_int(1)).is_none());
}

#[test]
fn differences_are_exact_where_they_fit() {
    assert_eq!(d("1").minus(d("0.25")).unwrap().text(), "0.75");
    assert_eq!(d("0").minus(d("5.0")).unwrap().text(), "-5.0");
    assert_eq!(d("5.0").minus(d("0.00")).unwrap().text(), "5.0");
    assert!(Decimal::new(-MAX_MANTISSA, 0).unwrap().minus(Decimal::of_int(1)).is_none());
}

#[test]
fn products_are_exact_where_they_fit() {
    assert_eq!(d("1.5").times(d("2.00")).unwrap().text(), "3.000");
    assert_eq!(d("0.00").times(d("5")).unwrap().text(), "0");
    assert_eq!(d("-3").times(d("0.00")).unwrap().text(), "0");
    assert!(Decimal::new(MAX_MANTISSA, 0).unwrap().times(Decimal::of_int(2)).is_none());
}

#[test]
fn quotients() {
    assert_eq!(d("1").over(d("3")).unwrap().text(), "0.3333333333333333333333333333");
    let same = rust_decimal::Decimal::from(10) / rust_decimal::Decimal::from(4);
    assert_eq!(d("10").over(d("4")).unwrap().text(), same.to_string());
    assert_eq!(d("6.0").over(d("3")).unwrap().text(), "2.0");
    assert_eq!(d("0.00").over(d("7")).unwrap().text(), "0");
    assert!(d("1").over(d("0")).is_none());
    assert!(d("0").over(d("0.0")).is_none());
    let small = Decimal::new(1, 28).unwrap();
    assert!(Decimal::new(MAX_MANTISSA, 0).unwrap().over(small).is_none());
    assert!(!d("-1").over(d("3")).unwrap().is_positive());
}

#[test]
fn whole_divisors_always_divide() {
    for m in [1i128, -1, 7, MAX_MANTISSA, -MAX_MANTISSA] {
        for s in [0u32, 1, 28] {
            for by in [1i64, 2, 100, 1000, 10_000, 0xffff_ffff] {
                assert!(Decimal::new(m, s).unwrap().over(Decimal::of_int(by)).is_some());
            }
        }
    }
    let half = Decimal::new(MAX_MANTISSA - 1, 28).unwrap().over(Decimal::of_int(2)).unwrap();
    assert_eq!(half.mantissa(), (MAX_MANTISSA - 1) / 2);
    assert_eq!(half.scale(), 28);
}

#[test]
fn numbers_compare_by_their_values() {
    assert!(!d("1.0").less(&d("1.00")));
    assert!(!d("1.00").less(&d("1.0")));
    assert!(d("0.9").less(&d("1")));
    assert!(d("-2").less(&d("-1.99")));
    assert!(!d("1").less(&d("0.9")));
    assert!(d("0.1").is_positive() && !d("0").is_positive() && !d("-0.1").is_positive());
    assert!(d("-0.1").is_negative() && !d("0").is_negative() && !d("0.1").is_negative());
}

#[test]
fn order_is_transitive_on_a_sample() {
    let all = [d("-3.5"), d("-3.49"), d("0.0"), d("0.01"), d("7"), d("7.0001"), d("100")];
    for i in 0..all.len() {
        assert!(!all[i].less(&all[i]));
        for j in i + 1..all.len() {
            assert!(all[i].less(&all[j]));
            assert!(!all[j].less(&all[i]));
        }
    }
}

#[test]
fn rounding_goes_to_the_even_digit() {
    assert_eq!(d("2.345").round_dp(2).text(), "2.34");
    assert_eq!(d("2.355").round_dp(2).text(), "2.36");
    assert_eq!(d("2.3451").round_dp(2).text(), "2.35");
    assert_eq!(d("-2.345").round_dp(2).text(), "-2.34");
    assert_eq!(d("2.3").round_dp(2).text(), "2.3");
    assert_eq!(d("0.04").round_dp(1).text(), "0.0");
    assert_eq!(d("99.95").round_dp(1).text(), "100.0");
}

#[test]
fn signs_change() {
    assert_eq!(d("1.5").negated().text(), "-1.5");
    assert_eq!(d("-1.50").abs().text(), "1.50");
    assert_eq!(d("1.50").abs().text(), "1.50");
    assert_eq!(Decimal::zero().negated().text(), "0");
}

#[test]
fn written_numbers_hold_no_comma() {
    for t in ["-1234567.89", "0.0000001", "79228162514264337593543950335"] {
        assert!(!d(t).text().contains(','));
    }
}

fn next(seed: &mut u64) -> u64 {
    *seed = seed.wrapping_mul(6364136223846793005).wrapping_add(1442695040888963407);
    *seed >> 20
}

#[test]
fn results_are_exact_on_many_numbers() {
    let mut seed = 1u64;
    for _ in 0..20_000 {
        let (x, y) = (next(&mut seed) as i128 % 100_000 - 50_000, next(&mut seed) as i128 % 1_000 - 500);
        let (p, q) = ((next(&mut seed) % 9) as u32, (next(&mut seed) % 9) as u32);
        let (a, b) = (Decimal::new(x, p).unwrap(), Decimal::new(y, q).unwrap());
        let s = p.max(q);
        let (u, v) = (x * 10i128.pow(s - p), y * 10i128.pow(s - q));
        if u != 0 && v != 0 {
            assert_eq!(a.plus(b), Decimal::new(u + v, s));
            assert_eq!(a.minus(b), Decimal::new(u - v, s));
            assert_eq!(a.times(b), Decimal::new(x * y, p + q));
            let quotient = a.over(b).unwrap();
            assert!(quotient.is_positive() == ((x > 0) == (y > 0)) || quotient.mantissa() == 0);
        }
        assert_eq!(a.less(&b), u < v);
        let whole = Decimal::of_int(1 + (y.abs() as i64));
        if x != 0 && x % (1 + y.abs()) == 0 {
            assert_eq!(a.over(whole), Decimal::new(x / (1 + y.abs()), p));
        }
    }
}

#[test]
fn large_results_are_exact() {
    let mut seed = 9u64;
    for _ in 0..20_000 {
        let wide = |seed: &mut u64| {
            let n = (next(seed) as i128) << 44 ^ (next(seed) as i128);
            let n = n >> (next(seed) % 90);
            if next(seed) % 2 == 0 { n } else { -n }
        };
        let (x, y) = (wide(&mut seed), wide(&mut seed));
        let (p, q) = ((next(&mut seed) % 29) as u32, (next(&mut seed) % 29) as u32);
        let (a, b) = match (Decimal::new(x, p), Decimal::new(y, q)) {
            (Some(a), Some(b)) => (a, b),
            _ => continue,
        };
        let s = p.max(q);
        let up = |m: i128, k: u32| m.checked_mul(10i128.pow(k)).filter(|n| n.abs() <= MAX_MANTISSA);
        if let (Some(u), Some(v)) = (up(x, s - p), up(y, s - q)) {
            if u != 0 && v != 0 && (u + v).abs() <= MAX_MANTISSA {
                assert_eq!(a.plus(b), Decimal::new(u + v, s));
            }
            if u != 0 && v != 0 && (u - v).abs() <= MAX_MANTISSA {
                assert_eq!(a.minus(b), Decimal::new(u - v, s));
            }
            assert_eq!(a.less(&b), u < v);
        }
        if let Some(product) = x.checked_mul(y).filter(|n| n.abs() <= MAX_MANTISSA) {
            if product != 0 && p + q <= MAX_SCALE {
                assert_eq!(a.times(b), Decimal::new(product, p + q));
            }
        }
        if let (true, Some(quotient)) = (x != 0 && y != 0, a.over(b)) {
            assert!(quotient.mantissa() == 0 || (quotient.mantissa() > 0) == ((x > 0) == (y > 0)));
        }
        let by = (next(&mut seed) % 0xffff_ffff + 1) as i64;
        assert!(a.over(Decimal::of_int(by)).is_some());
        if x != 0 && x % by as i128 == 0 {
            assert_eq!(a.over(Decimal::of_int(by)), Decimal::new(x / by as i128, p));
        }
        let places = (next(&mut seed) % 29) as u32;
        if places < p {
            let unit = 10i128.pow(p - places);
            let (q, r) = (x.abs() / unit, x.abs() % unit);
            let up = 2 * r > unit || (2 * r == unit && q % 2 == 1);
            let size = q + up as i128;
            let expected = Decimal::new(if x < 0 { -size } else { size }, places).unwrap();
            assert_eq!(a.round_dp(places), expected);
        } else {
            assert_eq!(a.round_dp(places), a);
        }
        let (whole, rest) = (x.abs() / 10i128.pow(p), x.abs() % 10i128.pow(p));
        let sign = if x < 0 { "-" } else { "" };
        let point = if p == 0 { String::new() } else { format!(".{:0width$}", rest, width = p as usize) };
        assert_eq!(a.text(), format!("{}{}{}", sign, whole, point));
        assert_eq!(Decimal::parse(&a.text()), Some(a));
    }
}

fn same(a: Decimal, b: Decimal) -> bool {
    !a.less(&b) && !b.less(&a)
}

#[test]
fn quotients_that_fit_are_exact() {
    assert!(same(d("1").over(d("100")).unwrap(), d("0.01")));
    assert!(same(d("10").over(d("1000")).unwrap(), d("0.01")));
    assert!(same(d("-0.3").over(d("0.0008")).unwrap(), d("-375")));
    for y in [1i128, 2, 3, 7, 8, 25, 625, 1_000, 65_536, 6_500_015, 1_000_000_007, 4_294_967_295] {
        for m in [1i128, -1, 2, 5, 125, 99_999, -1_234_567_890_123, 18_446_744_073_709_551_615] {
            for (s, scale) in [(0u32, 0u32), (0, 9), (3, 2), (9, 4), (17, 0), (20, 8), (28, 0)] {
                let b = Decimal::new(y, scale).unwrap();
                for sign in [1, -1] {
                    let (mut x, mut at) = (m * y * sign, s + scale);
                    let exact = Decimal::new(m * sign, s).unwrap();
                    loop {
                        let q = Decimal::new(x, at).unwrap().over(b).unwrap();
                        assert!(same(q, exact), "{} {} / {} {}", x, at, y, scale);
                        if x % 10 != 0 || at == 0 {
                            break;
                        }
                        x /= 10;
                        at -= 1;
                    }
                }
            }
        }
    }
}
