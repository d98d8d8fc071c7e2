use play_through::adapter::factor;

#[test]
fn factor_known_pairs() {
    assert_eq!(factor(2, 2), (1, 1));
    assert_eq!(factor(1, 2), (2, 1));
    assert_eq!(factor(4, 2), (1, 2));
    assert_eq!(factor(2, 1), (1, 2));
}

#[test]
fn factor_unknown_count_is_identity() {
    for x in [0u16, 1, 2, 7, 65535] {
        assert_eq!(factor(0, x), (1, 1));
        assert_eq!(factor(x, 0), (1, 1));
    }
}

#[test]
fn factor_truncates_inexact_ratio() {
    assert_eq!(factor(5, 2), (1, 2));
    assert_eq!(factor(2, 5), (2, 1));
    assert_eq!(factor(3, 8), (2, 1));
    assert_eq!(factor(6, 4), (1, 1));
}

#[test]
fn factor_exact_multiples_balance() {
    for (i, o) in [(1u16, 2u16), (2, 6), (8, 2), (6, 3), (5, 5)] {
        let (p, c) = factor(i, o);
        assert_eq!(p as u32 * i as u32, c as u32 * o as u32);
    }
}

#[test]
fn factor_one_side_is_one() {
    for i in 1u16..=12 {
        for o in 1u16..=12 {
            let (p, c) = factor(i, o);
            assert!(p == 1 || c == 1);
            assert!(p >= 1 && c >= 1);
        }
    }
}
