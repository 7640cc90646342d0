use sector_vol::batch::VolBatcher;
use sector_vol::bond_spreads::{BondSpread, CalendarDate, TreasuryRate};
use sector_vol::config::{LONG_VOL_WINDOW, NUM_FEATURES, SHORT_VOL_WINDOW};
use sector_vol::dataset::{
    build_dataset, engineer_features, feature_row, forward_target, window_samples, FeatureTable,
    VolDataset, VolSample,
};
use sector_vol::market::{MarketData, OhlcvBar, SectorTimeSeries};

fn mean(w: &[f64]) -> f64 {
    w.iter().sum::<f64>() / w.len() as f64
}

fn annualized_deviation(w: &[f64]) -> f64 {
    let m = w.iter().sum::<f64>() / w.len() as f64;
    let variance = w.iter().map(|r| (r - m).powi(2)).sum::<f64>() / (w.len() - 1) as f64;
    variance.sqrt() * 252.0f64.sqrt()
}

fn log_return(previous: f64, close: f64) -> f64 {
    (close / previous).ln()
}

fn difference(a: f64, b: f64) -> f64 {
    a - b
}

fn pearson(a: &[f64], b: &[f64]) -> f64 {
    let n = a.len().min(b.len());
    if n < 2 {
        return 0.0;
    }
    let mean_a = a[..n].iter().sum::<f64>() / n as f64;
    let mean_b = b[..n].iter().sum::<f64>() / n as f64;
    let mut cov = 0.0;
    let mut var_a = 0.0;
    let mut var_b = 0.0;
    for i in 0..n {
        let da = a[i] - mean_a;
        let db = b[i] - mean_b;
        cov += da * db;
        var_a += da * da;
        var_b += db * db;
    }
    let denom = (var_a * var_b).sqrt();
    if denom < 1e-15 {
        0.0
    } else {
        cov / denom
    }
}

/// A table of `sectors` sectors over `len` steps whose values tell where
/// they come from: volatility of sector s at step t is 1000 + 100 s + t.
fn table(sectors: usize, len: usize, benchmark: bool) -> FeatureTable<f64> {
    FeatureTable {
        len,
        sector_vols: (0..sectors)
            .map(|s| (0..len).map(|t| 1000.0 + 100.0 * s as f64 + t as f64).collect())
            .collect(),
        sector_returns: (0..sectors)
            .map(|s| (0..len).map(|t| -(1000.0 + 100.0 * s as f64 + t as f64)).collect())
            .collect(),
        avg_correlation: 0.25,
        spreads: (0..len).map(|t| 0.5 + t as f64).collect(),
        slopes: (0..len).map(|t| 0.75 + t as f64).collect(),
        benchmark_vol: if benchmark { Some((0..len).map(|t| 7000.0 + t as f64).collect()) } else { None },
    }
}

fn sector(symbol: &str, closes: &[f64]) -> SectorTimeSeries<f64> {
    SectorTimeSeries {
        symbol: symbol.to_string(),
        name: symbol.to_string(),
        bars: closes
            .iter()
            .map(|c| OhlcvBar {
                date: CalendarDate { year: 2025, month: 1, day: 1 },
                open: *c,
                high: *c + 1.0,
                low: *c - 1.0,
                close: *c,
                volume: 100,
            })
            .collect(),
    }
}

fn closes(bars: usize, seed: u64) -> Vec<f64> {
    let mut state = seed;
    let mut price = 100.0;
    (0..bars)
        .map(|_| {
            state = state.wrapping_mul(6364136223846793005).wrapping_add(1442695040888963407);
            let step = ((state >> 33) % 2001) as f64 / 1000.0 - 1.0;
            price *= 1.0 + 0.01 * step;
            price
        })
        .collect()
}

fn rate(date: &str, y2: f64, y10: f64) -> TreasuryRate<f64> {
    TreasuryRate {
        date: date.to_string(),
        month1: None,
        month2: None,
        month3: None,
        month6: None,
        year1: None,
        year2: Some(y2),
        year3: None,
        year5: None,
        year7: None,
        year10: Some(y10),
        year20: None,
        year30: None,
    }
}

#[test]
fn window_samples_of_three_spare_steps_gives_three_samples() {
    let lookback = 6;
    let forward = 2;
    let t = table(3, lookback + forward + 3, true);
    let dataset = window_samples(&t, lookback, forward, 0.0, &mean);
    assert_eq!(dataset.samples.len(), 3);
    for sample in &dataset.samples {
        assert_eq!(sample.features.len(), lookback);
        for row in &sample.features {
            assert_eq!(row.len(), 26);
        }
    }
}

#[test]
fn feature_row_follows_the_fixed_layout() {
    let t = table(3, 10, true);
    let row = feature_row(&t, 4, 0.0);
    assert_eq!(row.len(), NUM_FEATURES);
    assert_eq!(&row[0..3], &[1004.0, 1104.0, 1204.0]);
    assert_eq!(&row[3..11], &[0.0; 8]);
    assert_eq!(&row[11..14], &[-1004.0, -1104.0, -1204.0]);
    assert_eq!(&row[14..22], &[0.0; 8]);
    assert_eq!(row[22], 0.25);
    assert_eq!(row[23], 4.5);
    assert_eq!(row[24], 4.75);
    assert_eq!(row[25], 7004.0);
}

#[test]
fn feature_row_without_benchmark_or_past_the_series_is_zero() {
    let mut t = table(2, 10, false);
    t.spreads.truncate(3);
    let row = feature_row(&t, 4, 0.0);
    assert_eq!(row[25], 0.0);
    assert_eq!(row[23], 0.0);
    assert_eq!(row[24], 4.75);
    let row = feature_row(&t, 10, 0.0);
    assert_eq!(row[0], 0.0);
    assert_eq!(row[11], 0.0);
    assert_eq!(row[22], 0.25);
}

#[test]
fn feature_row_keeps_its_width_with_more_sectors_than_slots() {
    let t = table(13, 5, true);
    let row = feature_row(&t, 1, 0.0);
    assert_eq!(row.len(), 26);
    assert_eq!(row[10], 1000.0 + 100.0 * 10.0 + 1.0);
    assert_eq!(row[11], -1001.0);
    assert_eq!(row[21], -(1000.0 + 100.0 * 10.0 + 1.0));
    assert_eq!(row[22], 0.25);
}

#[test]
fn windows_slide_by_one_step_and_targets_look_forward() {
    let lookback = 3;
    let forward = 2;
    let t = table(2, 8, true);
    let dataset = window_samples(&t, lookback, forward, 0.0, &mean);
    assert_eq!(dataset.samples.len(), 3);
    for (start, sample) in dataset.samples.iter().enumerate() {
        for (k, row) in sample.features.iter().enumerate() {
            assert_eq!(*row, feature_row(&t, start + k, 0.0));
        }
        let end = (start + lookback) as f64;
        let expected = (1000.0 + end + 1000.0 + end + 1.0 + 1100.0 + end + 1100.0 + end + 1.0) / 4.0;
        assert_eq!(sample.target, expected);
    }
}

#[test]
fn forward_target_hands_values_sector_by_sector() {
    let t = table(2, 8, false);
    let seen = std::cell::RefCell::new(Vec::new());
    let out = forward_target(&t, 5, 2, 0.0, &|w: &[f64]| {
        seen.borrow_mut().extend_from_slice(w);
        1.5
    });
    assert_eq!(out, 1.5);
    assert_eq!(seen.into_inner(), vec![1005.0, 1006.0, 1105.0, 1106.0]);
}

#[test]
fn forward_target_is_clipped_to_the_table_and_zero_when_empty() {
    let t = table(2, 8, false);
    assert_eq!(forward_target(&t, 7, 5, 0.0, &mean), (1007.0 + 1107.0) / 2.0);
    assert_eq!(forward_target(&t, 8, 5, 0.0, &mean), 0.0);
    assert_eq!(forward_target(&t, 3, 0, 0.0, &mean), 0.0);
    let none = table(0, 8, false);
    assert_eq!(forward_target(&none, 3, 2, 0.0, &mean), 0.0);
}

#[test]
fn window_samples_of_a_short_table_is_empty() {
    let t = table(2, 8, false);
    assert!(window_samples(&t, 6, 2, 0.0, &mean).samples.is_empty());
    assert!(window_samples(&t, 3, 9, 0.0, &mean).samples.is_empty());
    assert!(window_samples(&t, 8, 0, 0.0, &mean).samples.is_empty());
    assert_eq!(window_samples(&t, 7, 0, 0.0, &mean).samples.len(), 1);
    assert_eq!(window_samples(&t, 0, 0, 0.0, &mean).samples.len(), 8);
}

#[test]
fn engineer_features_lays_everything_on_one_axis() {
    let lookback = 4;
    let forward = 2;
    let long = 80usize;
    let histories: Vec<Vec<f64>> = vec![
        (0..long + 5).map(|i| i as f64).collect(),
        (0..long).map(|i| 1000.0 + i as f64).collect(),
    ];
    let bond: Vec<BondSpread<f64>> = (0..200)
        .map(|i| BondSpread {
            date: CalendarDate { year: 2025, month: 1, day: 1 },
            spread_10y_2y: i as f64,
            curve_slope: 500.0 + i as f64,
        })
        .collect();
    let bench: Vec<f64> = (0..long + 20).map(|i| 5000.0 + i as f64).collect();
    let first = |w: &[f64]| w[0];
    let table = engineer_features(
        &histories,
        &bond,
        Some(&bench),
        lookback,
        forward,
        0.0,
        1.0,
        &first,
        &|a: &[f64], b: &[f64]| a[0] + b[0],
        &mean,
    )
    .unwrap();
    let len = long - SHORT_VOL_WINDOW + 1;
    assert_eq!(table.len, len);
    assert_eq!(table.sector_vols.len(), 2);
    assert_eq!(table.sector_vols[0].len(), len);
    assert_eq!(table.sector_vols[0][0], 5.0);
    assert_eq!(table.sector_vols[1][0], 1000.0);
    assert_eq!(table.sector_vols[0][len - 1], (long + 5 - SHORT_VOL_WINDOW) as f64);
    assert_eq!(table.sector_returns[0].len(), len);
    assert_eq!(table.sector_returns[0][len - 1], (long + 4) as f64);
    assert_eq!(table.sector_returns[1][0], 1000.0 + (SHORT_VOL_WINDOW - 1) as f64);
    assert_eq!(table.avg_correlation, 5.0 + 1000.0);
    assert_eq!(table.spreads.len(), len);
    assert_eq!(table.spreads[len - 1], 199.0);
    assert_eq!(table.spreads[0], (200 - len) as f64);
    assert_eq!(table.slopes[0], 500.0 + (200 - len) as f64);
    assert_eq!(table.slopes[len - 1], 699.0);
    let bench_vol = table.benchmark_vol.unwrap();
    assert_eq!(bench_vol.len(), len);
    assert_eq!(bench_vol[len - 1], 5000.0 + (long + 20 - SHORT_VOL_WINDOW) as f64);
    assert_eq!(bench_vol[0], 5000.0 + 20.0);
}

#[test]
fn engineer_features_fills_the_steps_a_series_does_not_reach() {
    let histories: Vec<Vec<f64>> = vec![(0..90).map(|i| i as f64).collect()];
    let bond: Vec<BondSpread<f64>> = (0..10)
        .map(|i| BondSpread {
            date: CalendarDate { year: 2025, month: 1, day: 1 },
            spread_10y_2y: 1.0 + i as f64,
            curve_slope: 2.0,
        })
        .collect();
    let bench: Vec<f64> = (0..30).map(|i| 5000.0 + i as f64).collect();
    let first = |w: &[f64]| w[0];
    let table =
        engineer_features(&histories, &bond, Some(&bench), 4, 2, 0.0, 1.0, &first, &pearson, &mean)
            .unwrap();
    assert_eq!(table.len, 70);
    let mut spreads = vec![0.0; 60];
    spreads.extend((0..10).map(|i| 1.0 + i as f64));
    assert_eq!(table.spreads, spreads);
    let mut slopes = vec![0.0; 60];
    slopes.extend(vec![2.0; 10]);
    assert_eq!(table.slopes, slopes);
    let mut bench_vol = vec![0.0; 60];
    bench_vol.extend((0..10).map(|i| 5000.0 + i as f64));
    assert_eq!(table.benchmark_vol, Some(bench_vol));
    assert_eq!(table.avg_correlation, 0.0);
    let few: Vec<f64> = vec![1.0; 5];
    let sparse =
        engineer_features(&histories, &[], Some(&few), 4, 2, 0.0, 1.0, &first, &pearson, &mean)
            .unwrap();
    assert_eq!(sparse.spreads, vec![0.0; 70]);
    assert_eq!(sparse.benchmark_vol, Some(vec![0.0; 70]));
    let none = engineer_features(&histories, &bond, None, 4, 2, 0.0, 1.0, &first, &pearson, &mean)
        .unwrap();
    assert_eq!(none.benchmark_vol, None);
}

#[test]
fn engineer_features_needs_enough_history() {
    let first = |w: &[f64]| w[0];
    let bond: Vec<BondSpread<f64>> = vec![];
    let enough: Vec<Vec<f64>> = vec![vec![0.0; 4 + 2 + LONG_VOL_WINDOW], vec![0.0; 200]];
    assert!(engineer_features(&enough, &bond, None, 4, 2, 0.0, 1.0, &first, &pearson, &mean)
        .is_some());
    let short: Vec<Vec<f64>> = vec![vec![0.0; 4 + 2 + LONG_VOL_WINDOW - 1], vec![0.0; 200]];
    assert!(engineer_features(&short, &bond, None, 4, 2, 0.0, 1.0, &first, &pearson, &mean)
        .is_none());
    let none: Vec<Vec<f64>> = vec![];
    assert!(engineer_features(&none, &bond, None, 0, 0, 0.0, 1.0, &first, &pearson, &mean)
        .is_none());
    assert!(engineer_features(&enough, &bond, None, usize::MAX, 2, 0.0, 1.0, &first, &pearson, &mean)
        .is_none());
}

#[test]
fn build_dataset_counts_one_sample_per_window() {
    let lookback = 10;
    let forward = 3;
    let bars = lookback + forward + LONG_VOL_WINDOW + 1 + 7;
    let data = MarketData {
        sectors: vec![
            sector("XLK", &closes(bars + 30, 1)),
            sector("XLF", &closes(bars, 2)),
            sector("XLE", &closes(bars + 2, 3)),
        ],
        treasury_rates: (0..300).map(|i| rate("2025-01-01", 3.0, 304.0 - i as f64)).collect(),
        benchmark: Some(sector("SPY", &closes(bars + 10, 4))),
    };
    let dataset = build_dataset(
        &data,
        lookback,
        forward,
        0.0,
        1.0,
        log_return,
        annualized_deviation,
        difference,
        pearson,
        mean,
    );
    let shortest = bars - 1;
    let axis = shortest - SHORT_VOL_WINDOW + 1;
    assert_eq!(dataset.samples.len(), axis - forward - lookback);
    assert_eq!(dataset.len(), dataset.samples.len());
    for sample in &dataset.samples {
        assert_eq!(sample.features.len(), lookback);
        for row in &sample.features {
            assert_eq!(row.len(), 26);
            assert!(row[0] > 0.0 && row[1] > 0.0 && row[2] > 0.0);
            assert_eq!(&row[3..11], &[0.0; 8]);
            assert_eq!(&row[14..22], &[0.0; 8]);
            assert!(row[25] > 0.0);
        }
        assert!(sample.target > 0.0);
    }
    let last = dataset.samples.last().unwrap();
    let last_row = last.features.last().unwrap();
    let newest_return = {
        let c = closes(bars, 2);
        (c[bars - 2 - forward] / c[bars - 3 - forward]).ln()
    };
    assert_eq!(last_row[12], newest_return);
    assert_eq!(last_row[23], 3.0 + forward as f64);
    let corr = dataset.samples[0].features[0][22];
    for sample in &dataset.samples {
        for row in &sample.features {
            assert_eq!(row[22], corr);
        }
    }
}

#[test]
fn build_dataset_without_enough_history_is_empty() {
    let lookback = 10;
    let forward = 3;
    let bars = lookback + forward + LONG_VOL_WINDOW;
    let data = MarketData {
        sectors: vec![sector("XLK", &closes(bars + 30, 1)), sector("XLF", &closes(bars, 2))],
        treasury_rates: vec![],
        benchmark: None,
    };
    let dataset = build_dataset(
        &data,
        lookback,
        forward,
        0.0,
        1.0,
        log_return,
        annualized_deviation,
        difference,
        pearson,
        mean,
    );
    assert!(dataset.samples.is_empty());
    let nothing: MarketData<f64> =
        MarketData { sectors: vec![], treasury_rates: vec![], benchmark: None };
    let dataset = build_dataset(
        &nothing,
        0,
        0,
        0.0,
        1.0,
        log_return,
        annualized_deviation,
        difference,
        pearson,
        mean,
    );
    assert!(dataset.samples.is_empty());
}

#[test]
fn log_returns_have_one_item_less_than_bars() {
    let s = sector("XLK", &[100.0, 110.0, 99.0]);
    let r = s.log_returns(&log_return);
    assert_eq!(r, vec![(110.0f64 / 100.0).ln(), (99.0f64 / 110.0).ln()]);
    assert!(sector("XLK", &[100.0]).log_returns(&log_return).is_empty());
    assert!(sector("XLK", &[]).log_returns(&log_return).is_empty());
}

#[test]
fn dataset_get_copies_a_sample_or_gives_none() {
    let t = table(2, 8, true);
    let dataset: VolDataset<f64> = window_samples(&t, 3, 2, 0.0, &mean);
    assert_eq!(dataset.len(), 3);
    let second = dataset.get(1).unwrap();
    assert_eq!(second.features, dataset.samples[1].features);
    assert_eq!(second.target, dataset.samples[1].target);
    assert!(dataset.get(3).is_none());
}

#[test]
fn batch_flattens_sample_by_sample_and_row_by_row() {
    let items = vec![
        VolSample { features: vec![vec![1, 2, 3], vec![4, 5, 6]], target: 10 },
        VolSample { features: vec![vec![7, 8, 9], vec![10, 11, 12]], target: 20 },
    ];
    let batch = VolBatcher::new().batch(&items);
    assert_eq!(batch.inputs, (1..=12).collect::<Vec<i32>>());
    assert_eq!(batch.targets, vec![10, 20]);
    assert_eq!((batch.batch_size, batch.seq_len, batch.num_features), (2, 2, 3));
    for b in 0..2 {
        for s in 0..2 {
            for f in 0..3 {
                assert_eq!(batch.inputs[(b * 2 + s) * 3 + f], items[b].features[s][f]);
            }
        }
    }
}

#[test]
fn batch_of_nothing_has_no_shape() {
    let items: Vec<VolSample<i32>> = vec![];
    let batch = VolBatcher::new().batch(&items);
    assert!(batch.inputs.is_empty());
    assert!(batch.targets.is_empty());
    assert_eq!((batch.batch_size, batch.seq_len, batch.num_features), (0, 0, 0));
    let rowless = vec![VolSample { features: vec![], target: 1 }];
    let batch = VolBatcher::new().batch(&rowless);
    assert_eq!((batch.batch_size, batch.seq_len, batch.num_features), (1, 0, 0));
    assert_eq!(batch.targets, vec![1]);
}

#[test]
fn split_at_keeps_the_order_of_time() {
    let t = table(2, 12, true);
    let dataset: VolDataset<f64> = window_samples(&t, 3, 2, 0.0, &mean);
    assert_eq!(dataset.len(), 7);
    let (train, held_out) = dataset.split_at(5);
    assert_eq!(train.len(), 5);
    assert_eq!(held_out.len(), 2);
    for i in 0..5 {
        assert_eq!(train.samples[i].features, dataset.samples[i].features);
        assert_eq!(train.samples[i].target, dataset.samples[i].target);
    }
    for i in 0..2 {
        assert_eq!(held_out.samples[i].features, dataset.samples[5 + i].features);
        assert_eq!(held_out.samples[i].target, dataset.samples[5 + i].target);
    }
    let (all, none) = dataset.split_at(9);
    assert_eq!((all.len(), none.len()), (7, 0));
    let (none, all) = dataset.split_at(0);
    assert_eq!((none.len(), all.len()), (0, 7));
}

#[test]
fn latest_is_the_most_recent_window() {
    let t = table(2, 12, true);
    let dataset: VolDataset<f64> = window_samples(&t, 3, 2, 0.0, &mean);
    let latest = dataset.latest().unwrap();
    assert_eq!(latest.features, dataset.samples[6].features);
    assert_eq!(latest.features[2], feature_row(&t, 8, 0.0));
    assert_eq!(latest.target, dataset.samples[6].target);
    let empty: VolDataset<f64> = VolDataset { samples: vec![] };
    assert!(empty.latest().is_none());
}

#[test]
fn build_dataset_with_just_enough_history() {
    let lookback = 4;
    let forward = 2;
    let bars = lookback + forward + LONG_VOL_WINDOW + 1;
    let data = MarketData {
        sectors: vec![sector("XLK", &closes(bars, 7)), sector("XLF", &closes(bars + 5, 8))],
        treasury_rates: vec![],
        benchmark: None,
    };
    let dataset = build_dataset(
        &data,
        lookback,
        forward,
        0.0,
        1.0,
        log_return,
        annualized_deviation,
        difference,
        pearson,
        mean,
    );
    assert_eq!(dataset.samples.len(), LONG_VOL_WINDOW - SHORT_VOL_WINDOW + 1);
    let row = &dataset.samples[0].features[0];
    assert_eq!(row[23], 0.0);
    assert_eq!(row[24], 0.0);
    assert_eq!(row[25], 0.0);
    let expected_corr = {
        let a = sector("XLK", &closes(bars, 7)).log_returns(&log_return);
        let b = sector("XLF", &closes(bars + 5, 8)).log_returns(&log_return);
        pearson(&a, &b[5..])
    };
    assert_eq!(row[22], expected_corr);
    let first_vol = {
        let a = sector("XLK", &closes(bars, 7)).log_returns(&log_return);
        annualized_deviation(&a[..SHORT_VOL_WINDOW])
    };
    assert_eq!(row[0], first_vol);
}
