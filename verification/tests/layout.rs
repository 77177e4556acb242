use matrix_kernels::{
    flatten_row_major, is_rectangular, row_major_to_vec, rows_from_column_major, to_column_major,
    transpose_row_major,
};

#[test]
fn flatten_writes_the_rows_one_after_the_other() {
    let a: Vec<Vec<f64>> = vec![vec![1.0, 2.0, 3.0], vec![4.0, 5.0, 6.0]];
    assert_eq!(flatten_row_major(&a), (2, 3, vec![1.0, 2.0, 3.0, 4.0, 5.0, 6.0]));
}

#[test]
fn flatten_of_a_single_entry() {
    let a: Vec<Vec<i64>> = vec![vec![42]];
    assert_eq!(flatten_row_major(&a), (1, 1, vec![42]));
}

#[test]
fn flatten_of_rows_without_entries_is_empty() {
    let a: Vec<Vec<i64>> = vec![vec![], vec![]];
    assert_eq!(flatten_row_major(&a), (2, 0, vec![]));
}

#[test]
fn flat_entry_stands_at_row_times_width_plus_column() {
    let a: Vec<Vec<i64>> = vec![vec![10, 11, 12, 13], vec![20, 21, 22, 23], vec![30, 31, 32, 33]];
    let (rows, cols, flat) = flatten_row_major(&a);
    for i in 0..rows {
        for j in 0..cols {
            assert_eq!(flat[i * cols + j], a[i][j]);
        }
    }
}

#[test]
fn row_major_to_vec_cuts_the_buffer_into_rows() {
    let flat: Vec<f64> = vec![1.0, 2.0, 3.0, 4.0, 5.0, 6.0];
    assert_eq!(
        row_major_to_vec(flat.clone(), 2, 3),
        vec![vec![1.0, 2.0, 3.0], vec![4.0, 5.0, 6.0]]
    );
    assert_eq!(
        row_major_to_vec(flat, 3, 2),
        vec![vec![1.0, 2.0], vec![3.0, 4.0], vec![5.0, 6.0]]
    );
}

#[test]
fn row_major_to_vec_of_nothing() {
    let none: Vec<Vec<i64>> = vec![];
    assert_eq!(row_major_to_vec(Vec::<i64>::new(), 0, 5), none);
    assert_eq!(row_major_to_vec(Vec::<i64>::new(), 2, 0), vec![Vec::<i64>::new(), Vec::new()]);
}

#[test]
fn unflatten_undoes_flatten() {
    let m: Vec<Vec<f64>> = vec![
        vec![0.5, -1.25, 3.0e10, 7.0],
        vec![-0.0, 2.5e-300, 9.0, 1.0],
        vec![f64::MAX, f64::MIN_POSITIVE, 4.0, -8.0],
    ];
    let (rows, cols, flat) = flatten_row_major(&m);
    let back = row_major_to_vec(flat, rows, cols);
    assert_eq!(back.len(), m.len());
    for i in 0..rows {
        for j in 0..cols {
            assert_eq!(back[i][j].to_bits(), m[i][j].to_bits());
        }
    }
}

#[test]
fn flatten_undoes_unflatten() {
    let flat: Vec<i64> = (0..12).collect();
    let (rows, cols, again) = flatten_row_major(&row_major_to_vec(flat.clone(), 3, 4));
    assert_eq!((rows, cols), (3, 4));
    assert_eq!(again, flat);
}

#[test]
fn transpose_of_two_by_three() {
    // [[1, 2, 3], [4, 5, 6]] becomes [[1, 4], [2, 5], [3, 6]]
    let flat: Vec<i64> = vec![1, 2, 3, 4, 5, 6];
    assert_eq!(transpose_row_major(&flat, 2, 3), vec![1, 4, 2, 5, 3, 6]);
}

#[test]
fn transpose_moves_each_entry_to_its_mirrored_place() {
    let (k, m) = (3usize, 5usize);
    let flat: Vec<i64> = (0..15).collect();
    let bt = transpose_row_major(&flat, k, m);
    assert_eq!(bt.len(), k * m);
    for i in 0..k {
        for j in 0..m {
            assert_eq!(bt[j * k + i], flat[i * m + j]);
        }
    }
}

#[test]
fn transpose_of_a_row_and_of_a_column_keeps_the_order() {
    let flat: Vec<i64> = vec![1, 2, 3, 4];
    assert_eq!(transpose_row_major(&flat, 1, 4), flat);
    assert_eq!(transpose_row_major(&flat, 4, 1), flat);
}

#[test]
fn transpose_of_nothing_is_nothing() {
    let none: Vec<f64> = vec![];
    assert_eq!(transpose_row_major(&none, 0, 3), none);
    assert_eq!(transpose_row_major(&none, 3, 0), none);
}

#[test]
fn transposing_twice_gives_the_buffer_back() {
    let flat: Vec<f64> = (0..28).map(|v| (v as f64) * 0.37 - 3.0).collect();
    let once = transpose_row_major(&flat, 4, 7);
    assert_ne!(once, flat);
    assert_eq!(transpose_row_major(&once, 7, 4), flat);
}

#[test]
fn column_major_of_two_by_three() {
    let a: Vec<Vec<i64>> = vec![vec![1, 2, 3], vec![4, 5, 6]];
    assert_eq!(to_column_major(&a, 2, 3), vec![1, 4, 2, 5, 3, 6]);
}

#[test]
fn column_major_entry_stands_at_column_times_height_plus_row() {
    let a: Vec<Vec<i64>> = vec![vec![10, 11, 12, 13], vec![20, 21, 22, 23], vec![30, 31, 32, 33]];
    let flat = to_column_major(&a, 3, 4);
    for i in 0..3 {
        for j in 0..4 {
            assert_eq!(flat[j * 3 + i], a[i][j]);
        }
    }
}

#[test]
fn rows_from_column_major_reads_down_the_columns() {
    let buffer: Vec<i64> = vec![1, 4, 2, 5, 3, 6];
    assert_eq!(rows_from_column_major(&buffer, 2, 3), vec![vec![1, 2, 3], vec![4, 5, 6]]);
    assert_eq!(rows_from_column_major(&buffer, 3, 2), vec![vec![1, 5], vec![4, 3], vec![2, 6]]);
}

#[test]
fn column_major_round_trip() {
    let a: Vec<Vec<f64>> = vec![vec![1.5, 2.5], vec![3.5, 4.5], vec![5.5, 6.5]];
    assert_eq!(rows_from_column_major(&to_column_major(&a, 3, 2), 3, 2), a);
    let buffer: Vec<f64> = vec![6.0, 5.0, 4.0, 3.0, 2.0, 1.0];
    assert_eq!(to_column_major(&rows_from_column_major(&buffer, 2, 3), 2, 3), buffer);
}

#[test]
fn column_major_is_row_major_of_the_transpose() {
    let a: Vec<Vec<i64>> = vec![vec![1, 2, 3], vec![4, 5, 6]];
    let (rows, cols, flat) = flatten_row_major(&a);
    assert_eq!(to_column_major(&a, rows, cols), transpose_row_major(&flat, rows, cols));
}

#[test]
fn is_rectangular_tells_ragged_rows_apart() {
    let none: Vec<Vec<i64>> = vec![];
    assert!(is_rectangular(&none));
    assert!(is_rectangular(&vec![vec![1, 2], vec![3, 4], vec![5, 6]]));
    assert!(is_rectangular(&vec![Vec::<i64>::new(), Vec::new()]));
    assert!(!is_rectangular(&vec![vec![1, 2], vec![3]]));
    assert!(!is_rectangular(&vec![vec![1], vec![2, 3]]));
    assert!(!is_rectangular(&vec![vec![1, 2], vec![3, 4], vec![]]));
}
