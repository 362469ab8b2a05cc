use rolling_stats::domain::models::{OutOfRange, StatsError, WindowSize, LONGEST_WINDOW};

#[test]
fn window_lengths_are_powers_of_ten() {
    let sizes = WindowSize::ascending();
    let mut expected: usize = 1;
    for size in sizes {
        expected *= 10;
        assert_eq!(usize::from(size), expected);
    }
    assert_eq!(expected, LONGEST_WINDOW);
}

#[test]
fn window_length_table() {
    assert_eq!(usize::from(WindowSize::E1), 10);
    assert_eq!(usize::from(WindowSize::E2), 100);
    assert_eq!(usize::from(WindowSize::E3), 1_000);
    assert_eq!(usize::from(WindowSize::E4), 10_000);
    assert_eq!(usize::from(WindowSize::E5), 100_000);
    assert_eq!(usize::from(WindowSize::E6), 1_000_000);
    assert_eq!(usize::from(WindowSize::E7), 10_000_000);
    assert_eq!(usize::from(WindowSize::E8), 100_000_000);
}

#[test]
fn exponents_one_to_eight_name_a_window() {
    let sizes = WindowSize::ascending();
    for k in 1u8..=8 {
        assert_eq!(WindowSize::try_from(k), Ok(sizes[usize::from(k) - 1]));
    }
    assert_eq!(WindowSize::try_from(1u8), Ok(WindowSize::E1));
    assert_eq!(WindowSize::try_from(8u8), Ok(WindowSize::E8));
}

#[test]
fn exponent_into_window_size() {
    let size: Result<WindowSize, OutOfRange> = 4u8.try_into();
    assert_eq!(size, Ok(WindowSize::E4));
    let length: usize = WindowSize::E4.into();
    assert_eq!(length, 10_000);
}

#[test]
fn other_exponents_are_out_of_range() {
    assert_eq!(WindowSize::try_from(0u8), Err(OutOfRange { value: 0 }));
    assert_eq!(WindowSize::try_from(9u8), Err(OutOfRange { value: 9 }));
    assert_eq!(WindowSize::try_from(255u8), Err(OutOfRange { value: 255 }));
    for k in 9u8..=255 {
        assert!(WindowSize::try_from(k).is_err());
    }
}

#[test]
fn out_of_range_names_the_range() {
    let error = WindowSize::try_from(12u8).unwrap_err();
    assert_eq!(error.message(), "value should be in range [1, 8]");
}

#[test]
fn stats_errors_in_words() {
    assert_eq!(StatsError::NameNotFound.message(), "Name not found");
    assert_eq!(
        StatsError::WindowIsNotFilled.message(),
        "Window doesn't have enough data"
    );
}
