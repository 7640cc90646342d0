use sector_vol::series::{align_trailing, filled, min_len, trailing};
use sector_vol::volatility::{
    compute_sector_volatility, parkinson_volatility, rolling_volatility, volatility_ratio,
};

const TRADING_DAYS_PER_YEAR: f64 = 252.0;

fn annualized_deviation(w: &[f64]) -> f64 {
    let mean = w.iter().sum::<f64>() / w.len() as f64;
    let variance = w.iter().map(|r| (r - mean).powi(2)).sum::<f64>() / (w.len() - 1) as f64;
    variance.sqrt() * TRADING_DAYS_PER_YEAR.sqrt()
}

fn log_range_sq(h: f64, l: f64) -> f64 {
    if l <= 0.0 || h <= 0.0 {
        return 0.0;
    }
    (h / l).ln().powi(2)
}

fn range_vol(w: &[f64]) -> f64 {
    let factor = 1.0 / (4.0 * std::f64::consts::LN_2);
    let avg = w.iter().sum::<f64>() / w.len() as f64;
    (factor * avg).sqrt() * TRADING_DAYS_PER_YEAR.sqrt()
}

fn guarded_ratio(s: f64, l: f64) -> f64 {
    if l.abs() > 1e-10 {
        s / l
    } else {
        1.0
    }
}

fn sample_returns() -> Vec<f64> {
    vec![
        0.01, -0.005, 0.008, -0.012, 0.003, 0.007, -0.002, 0.015, -0.01, 0.006, 0.002, -0.008,
        0.011, -0.004, 0.009, -0.001, 0.005, -0.007, 0.013, -0.003, 0.004, -0.006, 0.01, -0.009,
        0.002,
    ]
}

#[test]
fn test_rolling_volatility_length() {
    let returns = sample_returns();
    let vol = rolling_volatility(&returns, 5, annualized_deviation);
    assert_eq!(vol.len(), returns.len() - 5 + 1);
}

#[test]
fn test_rolling_volatility_positive() {
    let returns = sample_returns();
    let vol = rolling_volatility(&returns, 5, annualized_deviation);
    for v in &vol {
        assert!(*v > 0.0, "Volatility should be positive, got {}", v);
    }
}

#[test]
fn test_rolling_volatility_insufficient_data() {
    let returns = vec![0.01, 0.02];
    let vol = rolling_volatility(&returns, 5, annualized_deviation);
    assert!(vol.is_empty());
}

#[test]
fn test_parkinson_volatility() {
    let highs = vec![101.0, 102.0, 100.5, 103.0, 101.5, 104.0, 102.0];
    let lows = vec![99.0, 100.0, 98.5, 101.0, 99.5, 102.0, 100.0];
    let vol = parkinson_volatility(&highs, &lows, 3, log_range_sq, range_vol);
    assert_eq!(vol.len(), 5);
    for v in &vol {
        assert!(*v > 0.0);
    }
}

#[test]
fn test_volatility_ratio() {
    let short = vec![0.15, 0.20, 0.18, 0.22];
    let long = vec![0.16, 0.19];
    let ratio = volatility_ratio(&short, &long, guarded_ratio);
    assert_eq!(ratio.len(), 2);
    assert!((ratio[0] - 0.18 / 0.16).abs() < 1e-10);
    assert!((ratio[1] - 0.22 / 0.19).abs() < 1e-10);
}

#[test]
fn rolling_volatility_rejects_window_below_two() {
    let returns = sample_returns();
    assert!(rolling_volatility(&returns, 1, annualized_deviation).is_empty());
    assert!(rolling_volatility(&returns, 0, annualized_deviation).is_empty());
}

#[test]
fn rolling_volatility_window_equal_to_length_gives_one_value() {
    let returns = vec![0.01, 0.03];
    let vol = rolling_volatility(&returns, 2, annualized_deviation);
    assert_eq!(vol.len(), 1);
    let expected = (0.0002f64).sqrt() * 252.0f64.sqrt();
    assert!((vol[0] - expected).abs() < 1e-12);
}

#[test]
fn rolling_volatility_hands_each_window_in_order() {
    let series = vec![1u32, 2, 3, 4, 5];
    let firsts = rolling_volatility(&series, 3, |w: &[u32]| w[0] * 100 + w[1] * 10 + w[2]);
    assert_eq!(firsts, vec![123, 234, 345]);
}

#[test]
fn parkinson_volatility_rejects_mismatched_or_short_input() {
    let highs = vec![101.0, 102.0, 100.5];
    let lows = vec![99.0, 100.0];
    assert!(parkinson_volatility(&highs, &lows, 2, log_range_sq, range_vol).is_empty());
    let lows = vec![99.0, 100.0, 98.5];
    assert!(parkinson_volatility(&highs, &lows, 4, log_range_sq, range_vol).is_empty());
    assert!(parkinson_volatility(&highs, &lows, 0, log_range_sq, range_vol).is_empty());
    assert_eq!(parkinson_volatility(&highs, &lows, 1, log_range_sq, range_vol).len(), 3);
}

#[test]
fn parkinson_volatility_skips_non_positive_bars() {
    let highs = vec![101.0, 0.0, 100.5];
    let lows = vec![99.0, -1.0, 98.5];
    let vol = parkinson_volatility(&highs, &lows, 1, log_range_sq, range_vol);
    assert_eq!(vol.len(), 3);
    assert_eq!(vol[1], 0.0);
    let expected = ((1.0 / (4.0 * std::f64::consts::LN_2)) * (101.0f64 / 99.0).ln().powi(2)).sqrt()
        * 252.0f64.sqrt();
    assert!((vol[0] - expected).abs() < 1e-12);
}

#[test]
fn volatility_ratio_guards_zero_denominator() {
    let short = vec![0.2, 0.3];
    let long = vec![0.0, 0.1, 1e-11];
    let ratio = volatility_ratio(&short, &long, guarded_ratio);
    assert_eq!(ratio.len(), 2);
    assert!((ratio[0] - 2.0).abs() < 1e-12);
    assert_eq!(ratio[1], 1.0);
}

#[test]
fn volatility_ratio_of_empty_series_is_empty() {
    let short: Vec<f64> = vec![];
    let long = vec![0.1];
    assert!(volatility_ratio(&short, &long, guarded_ratio).is_empty());
}

#[test]
fn sector_volatility_is_cut_to_the_long_window_series() {
    let returns = sample_returns();
    let highs: Vec<f64> = (0..26).map(|i| 101.0 + i as f64).collect();
    let lows: Vec<f64> = (0..26).map(|i| 99.0 + i as f64).collect();
    let m = compute_sector_volatility(
        "XLK",
        &returns,
        &highs,
        &lows,
        5,
        10,
        annualized_deviation,
        log_range_sq,
        range_vol,
        guarded_ratio,
    );
    assert_eq!(m.symbol, "XLK");
    let short = rolling_volatility(&returns, 5, annualized_deviation);
    let long = rolling_volatility(&returns, 10, annualized_deviation);
    let park = parkinson_volatility(&highs, &lows, 5, log_range_sq, range_vol);
    assert_eq!(long.len(), 16);
    assert_eq!(m.long_window_vol, long);
    assert_eq!(m.short_window_vol, short[short.len() - 16..].to_vec());
    assert_eq!(m.parkinson_vol, park[park.len() - 16..].to_vec());
    assert_eq!(m.vol_ratio.len(), 16);
    assert!((m.vol_ratio[15] - short[20] / long[15]).abs() < 1e-12);
    assert!((m.vol_ratio[0] - short[5] / long[0]).abs() < 1e-12);
}

#[test]
fn sector_volatility_with_too_little_history_is_empty() {
    let returns = vec![0.01, 0.02, -0.01];
    let highs = vec![10.0, 11.0, 12.0, 13.0];
    let lows = vec![9.0, 10.0, 11.0, 12.0];
    let m = compute_sector_volatility(
        "XLE",
        &returns,
        &highs,
        &lows,
        2,
        5,
        annualized_deviation,
        log_range_sq,
        range_vol,
        guarded_ratio,
    );
    assert!(m.long_window_vol.is_empty());
    assert!(m.short_window_vol.is_empty());
    assert!(m.parkinson_vol.is_empty());
    assert!(m.vol_ratio.is_empty());
}

#[test]
fn trailing_keeps_the_most_recent_items() {
    let s = vec![1, 2, 3, 4, 5];
    assert_eq!(trailing(&s, 2), &[4, 5]);
    assert_eq!(trailing(&s, 0), &[] as &[i32]);
    assert_eq!(trailing(&s, 5), &[1, 2, 3, 4, 5]);
    assert_eq!(trailing(&s, 9), &[1, 2, 3, 4, 5]);
}

#[test]
fn min_len_is_the_shortest_length() {
    let set = vec![vec![1, 2, 3], vec![1], vec![1, 2]];
    assert_eq!(min_len(&set), 1);
    assert_eq!(min_len(&set[..1]), 3);
    let none: Vec<Vec<i32>> = vec![];
    assert_eq!(min_len(&none), 0);
}

#[test]
fn align_trailing_cuts_from_the_front() {
    let set = vec![vec![1, 2, 3], vec![7], vec![4, 5]];
    assert_eq!(align_trailing(&set, 2), vec![vec![2, 3], vec![7], vec![4, 5]]);
    assert_eq!(filled(3, 9), vec![9, 9, 9]);
}
