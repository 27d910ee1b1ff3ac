use std::cmp::Ordering;
use yurf::order::{compare_bytes, compare_scores, compare_text, Order};

#[test]
fn reverse_flips_the_outcome() {
    assert_eq!(Order::Less.reverse(), Order::Greater);
    assert_eq!(Order::Greater.reverse(), Order::Less);
    assert_eq!(Order::Equal.reverse(), Order::Equal);
}

#[test]
fn then_breaks_only_ties() {
    assert_eq!(Order::Equal.then(Order::Less), Order::Less);
    assert_eq!(Order::Equal.then(Order::Greater), Order::Greater);
    assert_eq!(Order::Equal.then(Order::Equal), Order::Equal);
    assert_eq!(Order::Less.then(Order::Greater), Order::Less);
    assert_eq!(Order::Greater.then(Order::Less), Order::Greater);
}

#[test]
fn is_tie_only_for_equal() {
    assert!(Order::Equal.is_tie());
    assert!(!Order::Less.is_tie());
    assert!(!Order::Greater.is_tie());
}

#[test]
fn converts_to_and_from_std() {
    assert_eq!(Order::Less.into_std(), Ordering::Less);
    assert_eq!(Order::Equal.into_std(), Ordering::Equal);
    assert_eq!(Order::Greater.into_std(), Ordering::Greater);
    assert_eq!(Order::from_std(Ordering::Less), Order::Less);
    assert_eq!(Order::from_std(Ordering::Equal), Order::Equal);
    assert_eq!(Order::from_std(Ordering::Greater), Order::Greater);
}

#[test]
fn scores_compare_as_numbers() {
    assert_eq!(compare_scores(3, 7), Order::Less);
    assert_eq!(compare_scores(7, 7), Order::Equal);
    assert_eq!(compare_scores(8, 7), Order::Greater);
    assert_eq!(compare_scores(0, u32::MAX), Order::Less);
}

#[test]
fn bytes_compare_in_dictionary_order() {
    assert_eq!(compare_bytes(b"", b""), Order::Equal);
    assert_eq!(compare_bytes(b"", b"a"), Order::Less);
    assert_eq!(compare_bytes(b"a", b""), Order::Greater);
    assert_eq!(compare_bytes(b"abc", b"abd"), Order::Less);
    assert_eq!(compare_bytes(b"abd", b"abc"), Order::Greater);
    assert_eq!(compare_bytes(b"ab", b"abc"), Order::Less);
    assert_eq!(compare_bytes(b"abc", b"ab"), Order::Greater);
    assert_eq!(compare_bytes(b"abc", b"abc"), Order::Equal);
    assert_eq!(compare_bytes(&[0xff], &[0x00, 0x01]), Order::Greater);
}

#[test]
fn text_compares_like_str() {
    let samples = ["", "a", "apple", "Apple", "banana", "b", "ab", "é", "zebra", "日本", "z"];
    for lhs in samples {
        for rhs in samples {
            assert_eq!(compare_text(lhs, rhs).into_std(), lhs.cmp(rhs), "{lhs:?} against {rhs:?}");
        }
    }
}
