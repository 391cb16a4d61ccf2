use rust_primer::branches::{get_fibonacci_number, run, Divisor, MAX_FIBONACCI_POSITION};

#[test]
fn fibonacci_numbers_by_position() {
    let expected = [0, 1, 1, 2, 3, 5, 8, 13, 21, 34];
    for (i, want) in expected.iter().enumerate() {
        assert_eq!(get_fibonacci_number(i as i32 + 1), *want);
    }
}

#[test]
fn fibonacci_below_the_first_position_is_minus_one() {
    assert_eq!(get_fibonacci_number(0), -1);
    assert_eq!(get_fibonacci_number(-1), -1);
    assert_eq!(get_fibonacci_number(i32::MIN), -1);
}

#[test]
fn fibonacci_obeys_its_recurrence() {
    for n in 3..=25 {
        assert_eq!(
            get_fibonacci_number(n),
            get_fibonacci_number(n - 1) + get_fibonacci_number(n - 2)
        );
    }
}

#[test]
fn fibonacci_limit_is_the_last_position_that_fits() {
    assert_eq!(MAX_FIBONACCI_POSITION, 47);
    assert_eq!(get_fibonacci_number(30), 514229);
}

#[test]
fn branches_walkthrough() {
    let seen = run();
    assert_eq!(seen.divisor, Divisor::Three);
    assert_eq!(seen.something, 9);
    assert_eq!(seen.result, 20);
    assert_eq!(seen.forward, vec![1, 2, 3, 4]);
    assert_eq!(seen.backward, vec![4, 3, 2, 1]);
    assert_eq!(seen.fibonacci, 5);
}
