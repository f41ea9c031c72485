use turbobench::rounding::{divide_half_even, to_binary64};
use turbobench::tokens::estimate_tokens;

#[test]
fn estimates() {
    assert_eq!(estimate_tokens(0), 0);
    assert_eq!(estimate_tokens(4), 1);
    assert_eq!(estimate_tokens(100), 25);
    assert_eq!(estimate_tokens(3), 1);
}

#[test]
fn estimates_round_up() {
    assert_eq!(estimate_tokens(1), 1);
    assert_eq!(estimate_tokens(5), 2);
    assert_eq!(estimate_tokens(8), 2);
    assert_eq!(estimate_tokens(4097), 1025);
}

#[test]
fn estimates_follow_binary64() {
    let cases: [usize; 9] = [
        7,
        9_007_199_254_740_991,
        9_007_199_254_740_992,
        9_007_199_254_740_993,
        9_007_199_254_740_995,
        18_014_398_509_481_986,
        18_014_398_509_481_990,
        usize::MAX - 1,
        usize::MAX,
    ];
    for n in cases {
        assert_eq!(estimate_tokens(n), (n as f64 / 4.0).ceil() as usize);
    }
}

#[test]
fn binary64_conversion() {
    let cases: [u64; 9] = [
        0,
        1,
        9_007_199_254_740_992,
        9_007_199_254_740_993,
        9_007_199_254_740_995,
        36_028_797_018_963_970,
        36_028_797_018_963_974,
        u64::MAX - 1024,
        u64::MAX,
    ];
    for n in cases {
        assert_eq!(to_binary64(n), n as f64 as u128);
    }
    assert_eq!(to_binary64(9_007_199_254_740_993), 9_007_199_254_740_992);
    assert_eq!(to_binary64(9_007_199_254_740_995), 9_007_199_254_740_996);
}

#[test]
fn half_even_division() {
    assert_eq!(divide_half_even(5, 2), 2);
    assert_eq!(divide_half_even(7, 2), 4);
    assert_eq!(divide_half_even(9, 4), 2);
    assert_eq!(divide_half_even(11, 4), 3);
    assert_eq!(divide_half_even(0, 3), 0);
}

#[test]
fn estimates_grow_with_the_text() {
    let mut last: usize = 0;
    for n in 0..5000usize {
        let t: usize = estimate_tokens(n);
        assert!(t >= last);
        assert!(4 * t >= n && 4 * t < n + 4);
        last = t;
    }
}
