use rolling_stats::domain::models::{Stats, StatsError, WindowSize};
use rolling_stats::domain::sample::Sample;
use rolling_stats::domain::state::State;
use rolling_stats::domain::window::WindowStep;

fn sample(value: f64) -> Sample {
    Sample::from_bits(value.to_bits())
}

fn samples(values: &[f64]) -> Vec<Sample> {
    values.iter().map(|value| sample(*value)).collect()
}

fn values(samples: &[Sample]) -> Vec<f64> {
    samples.iter().map(|sample| f64::from_bits(sample.to_bits())).collect()
}

fn counting(from: u32, to: u32) -> Vec<f64> {
    (from..=to).map(f64::from).collect()
}

fn numbers(stats: Stats) -> (f64, f64, f64) {
    (
        f64::from_bits(stats.min.to_bits()),
        f64::from_bits(stats.max.to_bits()),
        f64::from_bits(stats.last.to_bits()),
    )
}

fn mean(window: &[f64]) -> f64 {
    window.iter().fold(0f64, |sum, value| sum + value) / window.len() as f64
}

fn variance(window: &[f64]) -> f64 {
    let average = mean(window);
    window.iter().fold(0f64, |sum, value| sum + (value - average).powi(2))
        / (window.len() - 1) as f64
}

#[test]
fn unknown_symbol_is_not_found() {
    let state = State::new();
    for size in WindowSize::ascending() {
        assert_eq!(state.get_stats("nothing", size), Err(StatsError::NameNotFound));
    }
    let mut state = State::default();
    state.add_batch("known".to_string(), samples(&counting(1, 10)));
    assert_eq!(state.get_stats("unknown", WindowSize::E1), Err(StatsError::NameNotFound));
    assert_eq!(state.get_stats("", WindowSize::E1), Err(StatsError::NameNotFound));
    assert_eq!(state.get_stats("Known", WindowSize::E1), Err(StatsError::NameNotFound));
}

#[test]
fn short_series_has_no_window() {
    let mut state = State::new();
    state.add_batch("a".to_string(), samples(&counting(1, 9)));
    for size in WindowSize::ascending() {
        assert_eq!(state.get_stats("a", size), Err(StatsError::WindowIsNotFilled));
    }
}

#[test]
fn ten_ascending_values() {
    let mut state = State::new();
    let steps = state.add_batch("a".to_string(), samples(&counting(1, 10)));
    let stats = state.get_stats("a", WindowSize::E1).unwrap();
    assert_eq!(numbers(stats), (1.0, 10.0, 10.0));
    assert_eq!(state.get_stats("a", WindowSize::E2), Err(StatsError::WindowIsNotFilled));

    // the one window that was reached is reported with its samples
    assert_eq!(
        steps,
        vec![WindowStep::Rebuilt { size: WindowSize::E1, window: samples(&counting(1, 10)) }]
    );
    let window = match &steps[0] {
        WindowStep::Rebuilt { window, .. } => values(window),
        WindowStep::Advanced { .. } => panic!("the window is new"),
    };
    assert_eq!(mean(&window), 5.5);
    assert!((variance(&window) - 9.166666666666666).abs() < 1e-12);
}

#[test]
fn an_eleventh_value_moves_the_window() {
    let mut state = State::new();
    state.add_batch("a".to_string(), samples(&counting(1, 10)));
    let steps = state.add_batch("a".to_string(), samples(&[11.0]));
    let stats = state.get_stats("a", WindowSize::E1).unwrap();
    assert_eq!(numbers(stats), (2.0, 11.0, 11.0));
    assert_eq!(
        steps,
        vec![WindowStep::Advanced { size: WindowSize::E1, outgoing: samples(&[1.0]) }]
    );

    // the same as a fresh start on the ten newest values
    let mut fresh = State::new();
    fresh.add_batch("b".to_string(), samples(&counting(2, 11)));
    assert_eq!(fresh.get_stats("b", WindowSize::E1), Ok(stats));

    // the mean, moved on by what came in and what left, is that of the new window
    let moved = mean(&counting(1, 10)) + (11.0 - 1.0) / 10.0;
    assert_eq!(moved, 6.5);
    assert_eq!(mean(&counting(2, 11)), 6.5);
}

#[test]
fn the_maximum_that_leaves_is_not_kept() {
    let mut state = State::new();
    // the largest value comes first and occurs once
    state.add_batch(
        "a".to_string(),
        samples(&[100.0, 3.0, 7.0, 1.0, 5.0, 2.0, 6.0, 4.0, 8.0, 9.0]),
    );
    assert_eq!(numbers(state.get_stats("a", WindowSize::E1).unwrap()), (1.0, 100.0, 9.0));
    state.add_batch("a".to_string(), samples(&[0.5]));
    assert_eq!(numbers(state.get_stats("a", WindowSize::E1).unwrap()), (0.5, 9.0, 0.5));
}

#[test]
fn the_minimum_that_leaves_is_not_kept() {
    let mut state = State::new();
    state.add_batch(
        "a".to_string(),
        samples(&[-100.0, 3.0, 7.0, 1.0, 5.0, 2.0, 6.0, 4.0, 8.0, 9.0]),
    );
    assert_eq!(numbers(state.get_stats("a", WindowSize::E1).unwrap()), (-100.0, 9.0, 9.0));
    state.add_batch("a".to_string(), samples(&[50.0, 60.0]));
    assert_eq!(numbers(state.get_stats("a", WindowSize::E1).unwrap()), (1.0, 60.0, 60.0));
}

#[test]
fn asking_twice_gives_the_same() {
    let mut state = State::new();
    state.add_batch("a".to_string(), samples(&counting(1, 25)));
    for size in WindowSize::ascending() {
        let first = state.get_stats("a", size);
        let second = state.get_stats("a", size);
        assert_eq!(first, second);
    }
    assert_eq!(state.get_stats("b", WindowSize::E1), state.get_stats("b", WindowSize::E1));
}

#[test]
fn a_window_fills_on_the_sample_that_completes_it() {
    let mut state = State::new();
    state.add_batch("a".to_string(), samples(&counting(1, 5)));
    assert_eq!(state.get_stats("a", WindowSize::E1), Err(StatsError::WindowIsNotFilled));
    state.add_batch("a".to_string(), samples(&counting(6, 9)));
    assert_eq!(state.get_stats("a", WindowSize::E1), Err(StatsError::WindowIsNotFilled));
    let steps = state.add_batch("a".to_string(), samples(&[10.0]));
    assert_eq!(numbers(state.get_stats("a", WindowSize::E1).unwrap()), (1.0, 10.0, 10.0));
    assert_eq!(
        steps,
        vec![WindowStep::Rebuilt { size: WindowSize::E1, window: samples(&counting(1, 10)) }]
    );
}

#[test]
fn the_second_window_fills_at_a_hundred() {
    let mut state = State::new();
    state.add_batch("a".to_string(), samples(&counting(1, 99)));
    assert!(state.get_stats("a", WindowSize::E1).is_ok());
    assert_eq!(state.get_stats("a", WindowSize::E2), Err(StatsError::WindowIsNotFilled));
    let steps = state.add_batch("a".to_string(), samples(&[100.0]));
    assert_eq!(numbers(state.get_stats("a", WindowSize::E1).unwrap()), (91.0, 100.0, 100.0));
    assert_eq!(numbers(state.get_stats("a", WindowSize::E2).unwrap()), (1.0, 100.0, 100.0));
    assert_eq!(state.get_stats("a", WindowSize::E3), Err(StatsError::WindowIsNotFilled));
    assert_eq!(
        steps,
        vec![
            WindowStep::Advanced { size: WindowSize::E1, outgoing: samples(&[90.0]) },
            WindowStep::Rebuilt { size: WindowSize::E2, window: samples(&counting(1, 100)) },
        ]
    );
}

#[test]
fn a_long_batch_fills_several_windows() {
    let mut state = State::new();
    let steps = state.add_batch("a".to_string(), samples(&counting(1, 1234)));
    assert_eq!(steps.len(), 3);
    assert_eq!(numbers(state.get_stats("a", WindowSize::E1).unwrap()), (1225.0, 1234.0, 1234.0));
    assert_eq!(numbers(state.get_stats("a", WindowSize::E2).unwrap()), (1135.0, 1234.0, 1234.0));
    assert_eq!(numbers(state.get_stats("a", WindowSize::E3).unwrap()), (235.0, 1234.0, 1234.0));
    assert_eq!(state.get_stats("a", WindowSize::E4), Err(StatsError::WindowIsNotFilled));
    assert_eq!(
        steps[0],
        WindowStep::Rebuilt { size: WindowSize::E1, window: samples(&counting(1225, 1234)) }
    );
}

#[test]
fn a_batch_as_long_as_the_window_replaces_it() {
    let mut state = State::new();
    state.add_batch("a".to_string(), samples(&counting(1, 10)));
    let steps = state.add_batch("a".to_string(), samples(&counting(21, 32)));
    assert_eq!(numbers(state.get_stats("a", WindowSize::E1).unwrap()), (23.0, 32.0, 32.0));
    assert_eq!(
        steps,
        vec![WindowStep::Rebuilt { size: WindowSize::E1, window: samples(&counting(23, 32)) }]
    );
}

#[test]
fn an_empty_batch_changes_no_answer() {
    let mut state = State::new();
    state.add_batch("a".to_string(), samples(&counting(1, 12)));
    let before = state.get_stats("a", WindowSize::E1);
    let steps = state.add_batch("a".to_string(), Vec::new());
    assert_eq!(state.get_stats("a", WindowSize::E1), before);
    assert_eq!(
        steps,
        vec![WindowStep::Advanced { size: WindowSize::E1, outgoing: Vec::new() }]
    );
}

#[test]
fn symbols_do_not_touch_each_other() {
    let mut both = State::new();
    both.add_batch("a".to_string(), samples(&counting(1, 10)));
    both.add_batch("b".to_string(), samples(&counting(101, 110)));
    both.add_batch("a".to_string(), samples(&counting(11, 15)));
    both.add_batch("b".to_string(), samples(&[0.0]));

    let mut only_a = State::new();
    only_a.add_batch("a".to_string(), samples(&counting(1, 10)));
    only_a.add_batch("a".to_string(), samples(&counting(11, 15)));
    let mut only_b = State::new();
    only_b.add_batch("b".to_string(), samples(&counting(101, 110)));
    only_b.add_batch("b".to_string(), samples(&[0.0]));

    for size in WindowSize::ascending() {
        assert_eq!(both.get_stats("a", size), only_a.get_stats("a", size));
        assert_eq!(both.get_stats("b", size), only_b.get_stats("b", size));
    }
    assert_eq!(numbers(both.get_stats("a", WindowSize::E1).unwrap()), (6.0, 15.0, 15.0));
    assert_eq!(numbers(both.get_stats("b", WindowSize::E1).unwrap()), (0.0, 110.0, 0.0));
}

#[test]
fn batch_by_batch_agrees_with_the_window() {
    // a fixed sequence of values and batch lengths stands for a random one
    let mut seed: u64 = 0x2545_F491_4F6C_DD1D;
    let mut draw = move || {
        seed ^= seed << 13;
        seed ^= seed >> 7;
        seed ^= seed << 17;
        seed
    };
    let mut state = State::new();
    let mut series: Vec<f64> = Vec::new();
    // what a caller keeps beside the registry: mean and variance of each window
    let mut moments: Vec<Option<(f64, f64)>> = vec![None; 8];
    for _ in 0..120 {
        let length = (draw() % 37 + 1) as usize;
        let batch: Vec<f64> = (0..length).map(|_| (draw() % 2001) as f64 / 8.0 - 125.0).collect();
        let steps = state.add_batch("s".to_string(), samples(&batch));
        series.extend(batch.iter());
        for step in &steps {
            match step {
                WindowStep::Rebuilt { size, window } => {
                    let window = values(window);
                    assert_eq!(window.len(), usize::from(*size));
                    assert_eq!(window, series[series.len() - window.len()..].to_vec());
                    moments[usize::from(*size).ilog10() as usize - 1] =
                        Some((mean(&window), variance(&window)));
                }
                WindowStep::Advanced { size, outgoing } => {
                    let outgoing = values(outgoing);
                    assert_eq!(outgoing.len(), batch.len());
                    let n = usize::from(*size);
                    let old_start = series.len() - batch.len() - n;
                    assert_eq!(outgoing, series[old_start..old_start + batch.len()].to_vec());
                    let slot = &mut moments[n.ilog10() as usize - 1];
                    let (mut avg, mut var) = slot.unwrap();
                    for (incoming, outgoing) in batch.iter().zip(outgoing.iter()) {
                        let new_avg = avg + (incoming - outgoing) / n as f64;
                        var += (incoming - outgoing) * (incoming - new_avg + outgoing - avg)
                            / (n - 1) as f64;
                        avg = new_avg;
                    }
                    *slot = Some((avg, var));
                }
            }
        }
        for (place, size) in WindowSize::ascending().into_iter().enumerate() {
            let n = usize::from(size);
            if series.len() < n {
                assert_eq!(state.get_stats("s", size), Err(StatsError::WindowIsNotFilled));
                assert!(moments[place].is_none());
                continue;
            }
            let window = &series[series.len() - n..];
            let (min, max, last) = numbers(state.get_stats("s", size).unwrap());
            assert_eq!(min, window.iter().cloned().fold(f64::MAX, f64::min));
            assert_eq!(max, window.iter().cloned().fold(f64::MIN, f64::max));
            assert_eq!(last, window[n - 1]);
            let (avg, var) = moments[place].unwrap();
            assert!((avg - mean(window)).abs() < 1e-9);
            assert!((var - variance(window)).abs() < 1e-6);
        }
    }
    assert!(series.len() > 1_000);
}
