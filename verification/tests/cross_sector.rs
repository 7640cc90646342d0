use sector_vol::cross_sector::{
    average_cross_correlation, compute_correlation_matrix, correlation_grid, mean_above_diagonal,
    pearson_correlation, CorrelationMatrix,
};

fn pearson(a: &[f64], b: &[f64]) -> f64 {
    pearson_correlation(a, b, 0.0, coefficient)
}

fn coefficient(a: &[f64], b: &[f64]) -> f64 {
    let n = a.len();
    assert_eq!(n, b.len());
    assert!(n >= 2);
    let mean_a = a[..n].iter().sum::<f64>() / n as f64;
    let mean_b = b[..n].iter().sum::<f64>() / n as f64;
    let mut cov = 0.0;
    let mut var_a = 0.0;
    let mut var_b = 0.0;
    for i in 0..n {
        let da = a[i] - mean_a;
        let db = b[i] - mean_b;
        cov += da * db;
        var_a += da * da;
        var_b += db * db;
    }
    let denom = (var_a * var_b).sqrt();
    if denom < 1e-15 {
        0.0
    } else {
        cov / denom
    }
}

fn mean(w: &[f64]) -> f64 {
    w.iter().sum::<f64>() / w.len() as f64
}

#[test]
fn test_correlation_matrix_diagonal() {
    let symbols = vec!["A".to_string(), "B".to_string(), "C".to_string()];
    let returns = vec![
        vec![0.01, -0.02, 0.03, 0.01, -0.01],
        vec![0.02, -0.01, 0.02, 0.015, -0.005],
        vec![-0.01, 0.03, -0.02, 0.005, 0.01],
    ];
    let cm = compute_correlation_matrix(&symbols, &returns, 0.0, 1.0, pearson);
    for i in 0..3 {
        assert!((cm.matrix[i][i] - 1.0).abs() < 1e-10);
    }
}

#[test]
fn test_correlation_matrix_symmetric() {
    let symbols = vec!["A".to_string(), "B".to_string()];
    let returns = vec![vec![0.01, -0.02, 0.03, 0.01], vec![0.02, -0.01, 0.02, 0.015]];
    let cm = compute_correlation_matrix(&symbols, &returns, 0.0, 1.0, pearson);
    assert!((cm.matrix[0][1] - cm.matrix[1][0]).abs() < 1e-10);
}

#[test]
fn test_average_cross_correlation() {
    let cm = CorrelationMatrix {
        symbols: vec!["A".to_string(), "B".to_string(), "C".to_string()],
        matrix: vec![vec![1.0, 0.8, 0.6], vec![0.8, 1.0, 0.7], vec![0.6, 0.7, 1.0]],
    };
    let avg = average_cross_correlation(&cm, 0.0, mean);
    let expected = (0.8 + 0.6 + 0.7) / 3.0;
    assert!((avg - expected).abs() < 1e-10);
}

#[test]
fn correlation_matrix_is_exactly_symmetric_with_unit_diagonal() {
    let symbols: Vec<String> = ["A", "B", "C", "D"].iter().map(|s| s.to_string()).collect();
    let returns = vec![
        vec![0.5, 0.01, -0.02, 0.03, 0.01, -0.01],
        vec![0.02, -0.01, 0.02, 0.015, -0.005],
        vec![-0.01, 0.03, -0.02, 0.005, 0.01],
        vec![0.9, 0.9, 0.04, 0.01, -0.03, 0.002, 0.01],
    ];
    let cm = compute_correlation_matrix(&symbols, &returns, 0.0, 1.0, pearson);
    assert_eq!(cm.symbols, symbols);
    assert_eq!(cm.matrix.len(), 4);
    for i in 0..4 {
        assert_eq!(cm.matrix[i].len(), 4);
        assert_eq!(cm.matrix[i][i], 1.0);
        for j in 0..4 {
            assert_eq!(cm.matrix[i][j], cm.matrix[j][i]);
        }
    }
}

#[test]
fn correlation_matrix_compares_the_trailing_observations() {
    let symbols = vec!["A".to_string(), "B".to_string()];
    let returns = vec![vec![9.0, 9.0, 1.0, 2.0, 3.0], vec![2.0, 4.0, 6.0]];
    let cm = compute_correlation_matrix(&symbols, &returns, 0.0, 1.0, pearson);
    assert!((cm.matrix[0][1] - 1.0).abs() < 1e-10);
    let seen = compute_correlation_matrix(&symbols, &returns, 0.0, 1.0, |a: &[f64], b: &[f64]| {
        a[0] * 10.0 + b[0]
    });
    assert_eq!(seen.matrix[0][1], 12.0);
    assert_eq!(seen.matrix[1][0], 12.0);
}

#[test]
fn correlation_matrix_with_too_few_observations_is_all_neutral() {
    let symbols = vec!["A".to_string(), "B".to_string()];
    let returns = vec![vec![0.01, -0.02, 0.03], vec![0.02]];
    let cm = compute_correlation_matrix(&symbols, &returns, 0.0, 1.0, pearson);
    assert_eq!(cm.matrix, vec![vec![0.0, 0.0], vec![0.0, 0.0]]);
    let none: Vec<Vec<f64>> = vec![];
    let cm = compute_correlation_matrix(&symbols, &none, 0.0, 1.0, pearson);
    assert_eq!(cm.matrix, vec![vec![0.0, 0.0], vec![0.0, 0.0]]);
}

#[test]
fn correlation_matrix_of_one_symbol_is_one() {
    let symbols = vec!["A".to_string()];
    let returns = vec![vec![0.01, -0.02, 0.03]];
    let cm = compute_correlation_matrix(&symbols, &returns, 0.0, 1.0, pearson);
    assert_eq!(cm.matrix, vec![vec![1.0]]);
}

#[test]
fn correlation_grid_calls_each_pair_once_in_row_order() {
    let returns = vec![vec![1.0, 1.0], vec![2.0, 2.0], vec![3.0, 3.0]];
    let calls = std::cell::RefCell::new(Vec::new());
    let grid = correlation_grid(3, &returns, 0.0, 1.0, &|a: &[f64], b: &[f64]| {
        calls.borrow_mut().push((a[0], b[0]));
        a[0] * 10.0 + b[0]
    });
    assert_eq!(calls.into_inner(), vec![(1.0, 2.0), (1.0, 3.0), (2.0, 3.0)]);
    assert_eq!(
        grid,
        vec![vec![1.0, 12.0, 13.0], vec![12.0, 1.0, 23.0], vec![13.0, 23.0, 1.0]]
    );
}

#[test]
fn average_cross_correlation_of_fewer_than_two_symbols_is_zero() {
    let cm = CorrelationMatrix { symbols: vec!["A".to_string()], matrix: vec![vec![1.0]] };
    assert_eq!(average_cross_correlation(&cm, 0.0, mean), 0.0);
    let cm: CorrelationMatrix<f64> = CorrelationMatrix { symbols: vec![], matrix: vec![] };
    assert_eq!(average_cross_correlation(&cm, 0.0, mean), 0.0);
}

#[test]
fn mean_above_diagonal_takes_the_upper_triangle_row_by_row() {
    let grid = vec![
        vec![1, 2, 3, 4],
        vec![5, 6, 7, 8],
        vec![9, 10, 11, 12],
        vec![13, 14, 15, 16],
    ];
    let seen = std::cell::RefCell::new(Vec::new());
    let out = mean_above_diagonal(&grid, 4, 0, &|w: &[i32]| {
        seen.borrow_mut().extend_from_slice(w);
        w.len() as i32
    });
    assert_eq!(out, 6);
    assert_eq!(seen.into_inner(), vec![2, 3, 4, 7, 8, 12]);
    let seen = std::cell::RefCell::new(Vec::new());
    let out = mean_above_diagonal(&grid, 3, 0, &|w: &[i32]| {
        seen.borrow_mut().extend_from_slice(w);
        w.len() as i32
    });
    assert_eq!(out, 3);
    assert_eq!(seen.into_inner(), vec![2, 3, 7]);
    assert_eq!(mean_above_diagonal(&grid, 1, -1, &|_w: &[i32]| 5), -1);
}

#[test]
fn perfectly_related_series_correlate_fully() {
    let symbols = vec!["A".to_string(), "B".to_string(), "C".to_string()];
    let returns = vec![
        vec![1.0, 2.0, 3.0, 4.0, 5.0],
        vec![2.0, 4.0, 6.0, 8.0, 10.0],
        vec![10.0, 8.0, 6.0, 4.0, 2.0],
    ];
    let cm = compute_correlation_matrix(&symbols, &returns, 0.0, 1.0, pearson);
    assert!((cm.matrix[0][1] - 1.0).abs() < 1e-10);
    assert!((cm.matrix[0][2] + 1.0).abs() < 1e-10);
    assert!((cm.matrix[1][2] + 1.0).abs() < 1e-10);
    let avg = average_cross_correlation(&cm, 0.0, mean);
    assert!((avg + 1.0 / 3.0).abs() < 1e-10);
}

#[test]
fn test_pearson_perfect_positive() {
    let a = vec![1.0, 2.0, 3.0, 4.0, 5.0];
    let b = vec![2.0, 4.0, 6.0, 8.0, 10.0];
    let corr = pearson_correlation(&a, &b, 0.0, coefficient);
    assert!((corr - 1.0).abs() < 1e-10);
}

#[test]
fn test_pearson_perfect_negative() {
    let a = vec![1.0, 2.0, 3.0, 4.0, 5.0];
    let b = vec![10.0, 8.0, 6.0, 4.0, 2.0];
    let corr = pearson_correlation(&a, &b, 0.0, coefficient);
    assert!((corr + 1.0).abs() < 1e-10);
}

#[test]
fn pearson_of_fewer_than_two_points_is_neutral() {
    let never = |_a: &[f64], _b: &[f64]| -> f64 { panic!("not to be called") };
    assert_eq!(pearson_correlation(&[1.0], &[2.0, 3.0], 0.0, never), 0.0);
    assert_eq!(pearson_correlation(&[], &[], 0.0, never), 0.0);
    assert_eq!(pearson_correlation(&[1.0, 2.0, 3.0], &[], 0.0, never), 0.0);
}

#[test]
fn pearson_pairs_the_leading_items_of_the_longer_series() {
    let seen = std::cell::RefCell::new((Vec::new(), Vec::new()));
    let out = pearson_correlation(&[1, 2, 3, 4], &[7, 8], 0, |a: &[i32], b: &[i32]| {
        *seen.borrow_mut() = (a.to_vec(), b.to_vec());
        9
    });
    assert_eq!(out, 9);
    assert_eq!(seen.into_inner(), (vec![1, 2], vec![7, 8]));
}

#[test]
fn average_cross_correlation_reads_the_block_of_the_symbols() {
    let cm = CorrelationMatrix {
        symbols: vec!["A".to_string(), "B".to_string()],
        matrix: vec![vec![1.0, 0.4, 9.0], vec![0.4, 1.0, 9.0], vec![9.0, 9.0, 1.0]],
    };
    assert_eq!(average_cross_correlation(&cm, 0.0, mean), 0.4);
}
