use timewarp::comparator::{compare, Comparator};
use timewarp::instant::Instant;

const ALL: [Comparator; 5] =
    [Comparator::Gt, Comparator::Lt, Comparator::Eq, Comparator::Ge, Comparator::Le];

fn at(nanos: i128) -> Instant {
    Instant::from_unix_nanos(nanos)
}

#[test]
fn a_later_sample_is_greater() {
    let (sample, reference) = (at(2), at(1));
    assert!(compare(sample, reference, Comparator::Gt));
    assert!(!compare(sample, reference, Comparator::Lt));
    assert!(!compare(sample, reference, Comparator::Eq));
    assert!(compare(sample, reference, Comparator::Ge));
    assert!(!compare(sample, reference, Comparator::Le));
}

#[test]
fn an_earlier_sample_is_less() {
    let (sample, reference) = (at(-5), at(1));
    assert!(!compare(sample, reference, Comparator::Gt));
    assert!(compare(sample, reference, Comparator::Lt));
    assert!(!compare(sample, reference, Comparator::Eq));
    assert!(!compare(sample, reference, Comparator::Ge));
    assert!(compare(sample, reference, Comparator::Le));
}

#[test]
fn an_instant_equals_itself_and_is_neither_greater_nor_less() {
    for nanos in [0, 1, -1, 1_652_411_586_000_000_000, i128::MAX, i128::MIN] {
        let t = at(nanos);
        assert!(compare(t, t, Comparator::Eq));
        assert!(!compare(t, t, Comparator::Gt));
        assert!(!compare(t, t, Comparator::Lt));
        assert!(compare(t, t, Comparator::Ge));
        assert!(compare(t, t, Comparator::Le));
    }
}

#[test]
fn equality_is_to_the_nanosecond() {
    let noon = at(1_652_443_200_000_000_000);
    let a_nanosecond_later = at(1_652_443_200_000_000_001);
    assert!(!compare(a_nanosecond_later, noon, Comparator::Eq));
    assert!(compare(a_nanosecond_later, noon, Comparator::Gt));
    assert!(compare(noon, a_nanosecond_later, Comparator::Lt));
}

#[test]
fn exactly_one_of_greater_equal_and_less_holds() {
    let points = [i128::MIN, -3, -1, 0, 1, 2, 1_000_000_000, i128::MAX];
    for a in points {
        for b in points {
            let holding = [Comparator::Gt, Comparator::Eq, Comparator::Lt]
                .iter()
                .filter(|op| compare(at(a), at(b), **op))
                .count();
            assert_eq!(holding, 1, "{} against {}", a, b);
        }
    }
}

#[test]
fn ge_and_le_are_the_unions_with_equality() {
    let points = [i128::MIN, -3, -1, 0, 1, 2, 1_000_000_000, i128::MAX];
    for a in points {
        for b in points {
            let (a, b) = (at(a), at(b));
            assert_eq!(
                compare(a, b, Comparator::Ge),
                compare(a, b, Comparator::Gt) || compare(a, b, Comparator::Eq)
            );
            assert_eq!(
                compare(a, b, Comparator::Le),
                compare(a, b, Comparator::Lt) || compare(a, b, Comparator::Eq)
            );
        }
    }
}

#[test]
fn swapping_the_sides_swaps_greater_and_less() {
    for (a, b) in [(1, 2), (2, 1), (5, 5), (i128::MIN, i128::MAX)] {
        let (a, b) = (at(a), at(b));
        assert_eq!(compare(a, b, Comparator::Gt), compare(b, a, Comparator::Lt));
        assert_eq!(compare(a, b, Comparator::Ge), compare(b, a, Comparator::Le));
        assert_eq!(compare(a, b, Comparator::Eq), compare(b, a, Comparator::Eq));
    }
    assert_eq!(ALL.len(), 5);
}
