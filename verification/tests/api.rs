use rolling_stats::api::add_batch::add_batch;
use rolling_stats::api::stats::stats;
use rolling_stats::api::{ApiError, AppState};
use rolling_stats::domain::models::{OutOfRange, StatsError};
use rolling_stats::domain::sample::Sample;

fn request_values(from: u32, to: u32) -> Vec<Sample> {
    (from..=to).map(|value| Sample::from_bits(f64::from(value).to_bits())).collect()
}

#[test]
fn a_request_without_values_is_refused() {
    let mut app_state = AppState::new();
    assert_eq!(add_batch(&mut app_state, "a".to_string(), Vec::new()), Err(ApiError::EmptyValues));
    // as if the request had never come
    assert_eq!(stats(&app_state, "a", 1), Err(ApiError::Stats(StatsError::NameNotFound)));

    add_batch(&mut app_state, "a".to_string(), request_values(1, 10)).unwrap();
    let before = stats(&app_state, "a", 1);
    assert_eq!(add_batch(&mut app_state, "a".to_string(), Vec::new()), Err(ApiError::EmptyValues));
    assert_eq!(stats(&app_state, "a", 1), before);
}

#[test]
fn a_request_with_values_is_taken_in() {
    let mut app_state = AppState::new();
    let steps = add_batch(&mut app_state, "a".to_string(), request_values(1, 10)).unwrap();
    assert_eq!(steps.len(), 1);
    let answer = stats(&app_state, "a", 1).unwrap();
    assert_eq!(f64::from_bits(answer.min.to_bits()), 1.0);
    assert_eq!(f64::from_bits(answer.max.to_bits()), 10.0);
    assert_eq!(f64::from_bits(answer.last.to_bits()), 10.0);
}

#[test]
fn an_exponent_out_of_range_is_refused() {
    let mut app_state = AppState::new();
    add_batch(&mut app_state, "a".to_string(), request_values(1, 10)).unwrap();
    assert_eq!(stats(&app_state, "a", 0), Err(ApiError::InvalidK(OutOfRange { value: 0 })));
    assert_eq!(stats(&app_state, "a", 9), Err(ApiError::InvalidK(OutOfRange { value: 9 })));
    // the exponent is looked at before the name
    assert_eq!(stats(&app_state, "b", 200), Err(ApiError::InvalidK(OutOfRange { value: 200 })));
}

#[test]
fn the_registry_errors_are_passed_on() {
    let mut app_state = AppState::new();
    add_batch(&mut app_state, "a".to_string(), request_values(1, 10)).unwrap();
    assert_eq!(stats(&app_state, "b", 1), Err(ApiError::Stats(StatsError::NameNotFound)));
    assert_eq!(stats(&app_state, "a", 2), Err(ApiError::Stats(StatsError::WindowIsNotFilled)));
    assert_eq!(stats(&app_state, "a", 8), Err(ApiError::Stats(StatsError::WindowIsNotFilled)));
}

#[test]
fn errors_in_words() {
    assert_eq!(ApiError::EmptyValues.message(), "`values` should not be empty");
    assert_eq!(ApiError::InvalidK(OutOfRange { value: 9 }).message(), "invalid `k` parameter");
    assert_eq!(ApiError::Stats(StatsError::NameNotFound).message(), "Name not found");
    assert_eq!(
        ApiError::Stats(StatsError::WindowIsNotFilled).message(),
        "Window doesn't have enough data"
    );
}
