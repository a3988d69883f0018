use marching_squares::cell::{Axis, ContourPoint, Corner, Crossing};
use marching_squares::field::{ByteField, ValueField};
use marching_squares::marching::{ConfigError, MarchingSquares};

const TL: Corner = Corner::TopLeft;
const TR: Corner = Corner::TopRight;
const BR: Corner = Corner::BottomRight;
const BL: Corner = Corner::BottomLeft;

fn cross(from: Corner, to: Corner) -> ContourPoint {
    ContourPoint::Crossing(Crossing { from, to })
}

/// An integer that orders floats as `>` does: a sample that is not a number
/// exceeds nothing.
fn sample_key(value: f32) -> i64 {
    if value.is_nan() {
        return i64::MIN;
    }
    let bits = value.to_bits();
    let magnitude = (bits & 0x7fff_ffff) as i64;
    if bits >> 31 == 1 {
        -magnitude
    } else {
        magnitude
    }
}

fn center(size: f32, length: f32, i: usize, j: usize) -> (f32, f32) {
    (
        length * (1. - ((2 * j) as f32 + 1.) / size),
        length * (((2 * i) as f32 + 1.) / size - 1.),
    )
}

fn bytes(field: &ByteField) -> Vec<Vec<u8>> {
    (0..field.rows())
        .map(|i| (0..field.cols()).map(|j| field.get(i, j).unwrap()).collect())
        .collect()
}

fn from_rows(rows: &[Vec<i64>]) -> MarchingSquares {
    MarchingSquares::new(rows.len(), 0, |(i, j)| rows[i][j]).unwrap()
}

#[test]
fn identity_field_gives_a_vertical_line() {
    let identity = |point: (f32, f32)| point.0;
    let isovalue = 0.5f32;
    let squares = MarchingSquares::new(5, sample_key(isovalue), |(i, j)| {
        sample_key(identity(center(5., 40., i, j)))
    })
    .unwrap();
    assert_eq!(squares.partition_size(), 5);
    assert_eq!(squares.isovalue(), sample_key(0.5));

    let flags = bytes(squares.flag_matrix());
    assert_eq!(flags, vec![vec![1, 1, 0, 0, 0]; 5]);
    let codes = bytes(squares.code_matrix());
    assert_eq!(codes, vec![vec![15, 9, 0, 0]; 4]);

    let points = squares.interpol_matrix();
    assert_eq!(points.rows(), 4);
    assert_eq!(points.cols(), 4);
    for i in 0..4 {
        assert_eq!(points.get(i, 0).unwrap(), &vec![ContourPoint::Sentinel]);
        assert_eq!(points.get(i, 1).unwrap(), &vec![cross(TR, TL), cross(BR, BL)]);
        assert_eq!(points.get(i, 2).unwrap(), &vec![ContourPoint::Sentinel]);
        assert_eq!(points.get(i, 3).unwrap(), &vec![ContourPoint::Sentinel]);
    }

    let rows = [-32.0f32, -16.0, 0.0, 16.0, 32.0];
    for i in 0..4 {
        let cell = points.get(i, 1).unwrap();
        let mut located = Vec::new();
        for point in cell.iter() {
            let crossing = match point {
                ContourPoint::Crossing(crossing) => *crossing,
                ContourPoint::Sentinel => panic!("a crossing was expected"),
            };
            assert_eq!(crossing.axis(), Some(Axis::X));
            let (fi, fj) = crossing.from.node(i, 1);
            let (ti, tj) = crossing.to.node(i, 1);
            let from = center(5., 40., fi, fj);
            let to = center(5., 40., ti, tj);
            let x = from.0
                + (to.0 - from.0) * ((isovalue - identity(from)) / (identity(to) - identity(from)));
            located.push((x, to.1));
        }
        assert!((located[0].0 - 0.5).abs() < 1e-4);
        assert!((located[1].0 - 0.5).abs() < 1e-4);
        assert!((located[0].1 - rows[i]).abs() < 1e-4);
        assert!((located[1].1 - rows[i + 1]).abs() < 1e-4);
        assert_eq!(located[0].1, center(5., 40., i, 1).1);
        assert_eq!(located[1].1, center(5., 40., i + 1, 1).1);
    }
}

#[test]
fn identity_field_in_exact_units() {
    let squares = MarchingSquares::new(5, 1, |(i, j)| {
        let (x, _) = MarchingSquares::center_point(5, i, j);
        (16 * x) as i64
    })
    .unwrap();
    let values = squares.values_matrix();
    for i in 0..5 {
        assert_eq!(values.get(i, 0), Some(64));
        assert_eq!(values.get(i, 1), Some(32));
        assert_eq!(values.get(i, 2), Some(0));
        assert_eq!(values.get(i, 3), Some(-32));
        assert_eq!(values.get(i, 4), Some(-64));
    }
    assert_eq!(bytes(squares.code_matrix()), vec![vec![15, 9, 0, 0]; 4]);
}

#[test]
fn sample_equal_to_the_isovalue_lies_outside() {
    let values = ValueField::from_fn(2, 2, |(i, j)| if i == 0 && j == 0 { 8 } else { 7 }).unwrap();
    let flags = MarchingSquares::boolean_matrix(&values, 2, 7);
    assert_eq!(bytes(&flags), vec![vec![1, 0], vec![0, 0]]);
    let flags = MarchingSquares::boolean_matrix(&values, 2, 8);
    assert_eq!(bytes(&flags), vec![vec![0, 0], vec![0, 0]]);
    let flags = MarchingSquares::boolean_matrix(&values, 2, 6);
    assert_eq!(bytes(&flags), vec![vec![1, 1], vec![1, 1]]);
}

#[test]
fn borderline_cell_gets_the_code_of_the_strict_rule() {
    let squares =
        MarchingSquares::new(2, 0, |(i, j)| if i == 0 && j == 0 { 1 } else { 0 }).unwrap();
    assert_eq!(bytes(squares.code_matrix()), vec![vec![8]]);
    assert_eq!(
        squares.interpol_matrix().get(0, 0).unwrap(),
        &vec![cross(BL, TL), cross(TR, TL)]
    );
}

#[test]
fn classification_handles_the_extremes_of_the_sample_range() {
    let values = ValueField::from_fn(3, 3, |(i, j)| [i64::MIN, 0, i64::MAX][(i + j) % 3]).unwrap();
    let flags = MarchingSquares::boolean_matrix(&values, 3, i64::MAX);
    assert_eq!(bytes(&flags), vec![vec![0; 3]; 3]);
    let flags = MarchingSquares::boolean_matrix(&values, 3, i64::MIN);
    assert_eq!(bytes(&flags), vec![vec![0, 1, 1], vec![1, 1, 0], vec![1, 0, 1]]);
    let flags = MarchingSquares::boolean_matrix(&values, 3, i64::MAX - 1);
    assert_eq!(bytes(&flags), vec![vec![0, 0, 1], vec![0, 1, 0], vec![1, 0, 0]]);
}

#[test]
fn codes_pack_the_four_corners_of_each_cell() {
    let rows = vec![vec![1, 0, 1], vec![0, 0, 1], vec![1, 1, 1]];
    let squares = from_rows(&rows);
    assert_eq!(bytes(squares.flag_matrix()), vec![vec![1, 0, 1], vec![0, 0, 1], vec![1, 1, 1]]);
    assert_eq!(bytes(squares.code_matrix()), vec![vec![8, 6], vec![3, 7]]);
    let flags = MarchingSquares::boolean_matrix(squares.values_matrix(), 3, 0);
    let codes = MarchingSquares::index_matrix(3, &flags);
    assert_eq!(bytes(&codes), vec![vec![8, 6], vec![3, 7]]);
}

#[test]
fn every_code_arises_from_its_corner_flags() {
    for code in 0u8..16 {
        let rows = vec![
            vec![((code >> 3) & 1) as i64, ((code >> 2) & 1) as i64],
            vec![(code & 1) as i64, ((code >> 1) & 1) as i64],
        ];
        let squares = from_rows(&rows);
        assert_eq!(squares.code_matrix().get(0, 0), Some(code));
        let expected = marching_squares::topology::cell_points(code);
        assert_eq!(squares.interpol_matrix().get(0, 0).unwrap(), &expected);
    }
}

#[test]
fn saddle_cells_carry_four_points() {
    let squares = from_rows(&[vec![0, 1], vec![1, 0]]);
    assert_eq!(squares.code_matrix().get(0, 0), Some(5));
    assert_eq!(
        squares.interpol_matrix().get(0, 0).unwrap(),
        &vec![cross(TL, BL), cross(BR, BL), cross(TL, TR), cross(BR, TR)]
    );
    let squares = from_rows(&[vec![1, 0], vec![0, 1]]);
    assert_eq!(squares.code_matrix().get(0, 0), Some(10));
    assert_eq!(
        squares.interpol_matrix().get(0, 0).unwrap(),
        &vec![cross(BL, TL), cross(TR, TL), cross(BL, BR), cross(TR, BR)]
    );
}

#[test]
fn interpolation_matrix_follows_the_codes() {
    let mut codes = ByteField::zeros(2, 2);
    assert!(codes.set(0, 0, 1));
    assert!(codes.set(0, 1, 14));
    assert!(codes.set(1, 0, 15));
    assert!(codes.set(1, 1, 77));
    let points = MarchingSquares::interpolation_matrix(3, &codes);
    assert_eq!(points.rows(), 2);
    assert_eq!(points.cols(), 2);
    assert_eq!(points.get(0, 0).unwrap(), &vec![cross(TL, BL), cross(BR, BL)]);
    assert_eq!(points.get(0, 1).unwrap(), &vec![cross(BL, TL), cross(BL, BR)]);
    assert_eq!(points.get(1, 0).unwrap(), &vec![ContourPoint::Sentinel]);
    assert_eq!(points.get(1, 1).unwrap(), &Vec::<ContourPoint>::new());
}

#[test]
fn partition_below_two_is_refused() {
    for size in [0usize, 1] {
        let result = MarchingSquares::new(size, 0, |_| -> i64 {
            panic!("no sample may be taken")
        });
        assert!(matches!(result, Err(ConfigError::PartitionTooSmall)));
    }
}

#[test]
fn partition_that_cannot_be_allocated_is_refused() {
    for size in [usize::MAX, usize::MAX / 2, 1usize << (usize::BITS / 2)] {
        let result = MarchingSquares::new(size, 0, |_| -> i64 {
            panic!("no sample may be taken")
        });
        assert!(matches!(result, Err(ConfigError::PartitionTooLarge)));
    }
}

#[test]
fn smallest_grid_has_one_cell() {
    let squares = MarchingSquares::new(2, 10, |(i, j)| (i * 2 + j) as i64 * 10).unwrap();
    assert_eq!(squares.partition_size(), 2);
    assert_eq!(squares.isovalue(), 10);
    assert_eq!(squares.values_matrix().rows(), 2);
    assert_eq!(squares.flag_matrix().rows(), 2);
    assert_eq!(squares.code_matrix().rows(), 1);
    assert_eq!(squares.code_matrix().cols(), 1);
    assert_eq!(squares.interpol_matrix().rows(), 1);
    assert_eq!(bytes(squares.flag_matrix()), vec![vec![0, 0], vec![1, 1]]);
    assert_eq!(squares.code_matrix().get(0, 0), Some(3));
    assert_eq!(
        squares.interpol_matrix().get(0, 0).unwrap(),
        &vec![cross(TL, BL), cross(TR, BR)]
    );
}

#[test]
fn single_node_field_has_no_cell() {
    let values = ValueField::from_fn(1, 1, |_| 5).unwrap();
    let flags = MarchingSquares::boolean_matrix(&values, 1, 0);
    assert_eq!(bytes(&flags), vec![vec![1]]);
    let codes = MarchingSquares::index_matrix(1, &flags);
    assert_eq!(codes.rows(), 0);
    let points = MarchingSquares::interpolation_matrix(1, &codes);
    assert_eq!(points.rows(), 0);
}

#[test]
fn each_sample_is_taken_at_its_own_node() {
    let squares = MarchingSquares::new(4, 0, |(i, j)| (100 * i + j) as i64).unwrap();
    for i in 0..4 {
        for j in 0..4 {
            assert_eq!(squares.values_matrix().get(i, j), Some((100 * i + j) as i64));
        }
    }
}

#[test]
fn center_points_follow_the_formula() {
    assert_eq!(MarchingSquares::center_point(5, 0, 0), (4, -4));
    assert_eq!(MarchingSquares::center_point(5, 0, 4), (-4, -4));
    assert_eq!(MarchingSquares::center_point(5, 4, 0), (4, 4));
    assert_eq!(MarchingSquares::center_point(5, 2, 2), (0, 0));
    assert_eq!(MarchingSquares::center_point(5, 1, 3), (-2, -2));
    assert_eq!(MarchingSquares::center_point(2, 0, 0), (1, -1));
    assert_eq!(MarchingSquares::center_point(2, 1, 1), (-1, 1));
    for i in 0..5usize {
        for j in 0..5usize {
            let (x, y) = MarchingSquares::center_point(5, i, j);
            let exact = center(5., 40., i, j);
            assert!((40. * x as f32 / 5. - exact.0).abs() < 1e-4);
            assert!((40. * y as f32 / 5. - exact.1).abs() < 1e-4);
        }
    }
}

#[test]
fn center_points_never_overflow() {
    let (x, y) = MarchingSquares::center_point(usize::MAX, usize::MAX, usize::MAX);
    assert_eq!(x, -(usize::MAX as i128) - 1);
    assert_eq!(y, usize::MAX as i128 + 1);
    let (x, y) = MarchingSquares::center_point(0, 0, 0);
    assert_eq!((x, y), (-1, 1));
}

#[test]
fn neighbouring_centers_are_two_units_apart() {
    for size in [2usize, 5, 8] {
        for i in 0..size - 1 {
            for j in 0..size - 1 {
                let here = MarchingSquares::center_point(size, i, j);
                let right = MarchingSquares::center_point(size, i, j + 1);
                let below = MarchingSquares::center_point(size, i + 1, j);
                assert_eq!(right.0, here.0 - 2);
                assert_eq!(right.1, here.1);
                assert_eq!(below.1, here.1 + 2);
                assert_eq!(below.0, here.0);
            }
        }
    }
}

#[test]
fn classifying_the_flags_again_changes_nothing() {
    let rows = vec![vec![3, -1, 0, 7], vec![0, 0, 2, -5], vec![1, 1, -1, 0], vec![9, 0, 0, 4]];
    let expected = vec![vec![1, 0, 0, 1], vec![0, 0, 1, 0], vec![1, 1, 0, 0], vec![1, 0, 0, 1]];
    let values = ValueField::from_fn(4, 4, |(i, j)| rows[i][j]).unwrap();
    let flags = MarchingSquares::boolean_matrix(&values, 4, 0);
    assert_eq!(bytes(&flags), expected);
    let as_samples = ValueField::from_fn(4, 4, |(i, j)| flags.get(i, j).unwrap() as i64).unwrap();
    let again = MarchingSquares::boolean_matrix(&as_samples, 4, 0);
    assert_eq!(bytes(&again), expected);
}

#[test]
fn classifying_the_flags_again_holds_between_the_two_flag_samples() {
    let rows = vec![vec![30, 51, 50], vec![70, -8, 49], vec![50, 90, 100]];
    let expected = vec![vec![0, 1, 0], vec![1, 0, 0], vec![0, 1, 1]];
    let values = ValueField::from_fn(3, 3, |(i, j)| rows[i][j]).unwrap();
    let flags = MarchingSquares::boolean_matrix(&values, 3, 50);
    assert_eq!(bytes(&flags), expected);
    for (low, high) in [(50i64, 51i64), (-3, 900), (i64::MIN, i64::MAX), (0, 51), (50, 100)] {
        let stand = |(i, j): (usize, usize)| if flags.get(i, j).unwrap() == 0 { low } else { high };
        let as_samples = ValueField::from_fn(3, 3, stand).unwrap();
        let again = MarchingSquares::boolean_matrix(&as_samples, 3, 50);
        assert_eq!(bytes(&again), expected);
    }
}

#[test]
fn classifying_the_flags_again_at_another_isovalue_differs() {
    let values = ValueField::from_fn(2, 2, |(i, j)| [[0, 10], [10, 0]][i][j]).unwrap();
    let flags = MarchingSquares::boolean_matrix(&values, 2, 5);
    assert_eq!(bytes(&flags), vec![vec![0, 1], vec![1, 0]]);
    let as_samples = ValueField::from_fn(2, 2, |(i, j)| flags.get(i, j).unwrap() as i64).unwrap();
    let again = MarchingSquares::boolean_matrix(&as_samples, 2, 5);
    assert_eq!(bytes(&again), vec![vec![0, 0], vec![0, 0]]);
}

#[test]
fn flags_beyond_the_samples_are_zero() {
    let values = ValueField::from_fn(2, 3, |(i, j)| (10 * i + j) as i64).unwrap();
    let flags = MarchingSquares::boolean_matrix(&values, 4, 1);
    assert_eq!(
        bytes(&flags),
        vec![vec![0, 0, 1, 0], vec![1, 1, 1, 0], vec![0, 0, 0, 0], vec![0, 0, 0, 0]]
    );
    let none = ValueField::from_fn(0, 0, |_| 9).unwrap();
    assert_eq!(bytes(&MarchingSquares::boolean_matrix(&none, 2, 0)), vec![vec![0, 0]; 2]);
}

#[test]
fn codes_read_the_first_rows_and_columns_of_a_larger_flag_field() {
    let rows = vec![vec![1, 0, 1, 9], vec![0, 0, 1, 9], vec![1, 1, 1, 9], vec![9, 9, 9, 9]];
    let mut flags = ByteField::zeros(4, 4);
    for i in 0..4 {
        for j in 0..4 {
            assert!(flags.set(i, j, rows[i][j]));
        }
    }
    let codes = MarchingSquares::index_matrix(3, &flags);
    assert_eq!(bytes(&codes), vec![vec![8, 6], vec![3, 7]]);
    let codes = MarchingSquares::index_matrix(2, &flags);
    assert_eq!(bytes(&codes), vec![vec![8]]);
    assert_eq!(flags.get(3, 3), Some(9));
    assert_eq!(flags.get(0, 0), Some(1));
}

#[test]
fn points_read_the_first_rows_and_columns_of_a_larger_code_field() {
    let mut codes = ByteField::zeros(3, 4);
    assert!(codes.set(0, 0, 5));
    assert!(codes.set(0, 1, 10));
    assert!(codes.set(1, 0, 3));
    assert!(codes.set(1, 1, 12));
    assert!(codes.set(2, 3, 7));
    let points = MarchingSquares::interpolation_matrix(3, &codes);
    assert_eq!(points.rows(), 2);
    assert_eq!(points.cols(), 2);
    assert_eq!(
        points.get(0, 0).unwrap(),
        &vec![cross(TL, BL), cross(BR, BL), cross(TL, TR), cross(BR, TR)]
    );
    assert_eq!(
        points.get(0, 1).unwrap(),
        &vec![cross(BL, TL), cross(TR, TL), cross(BL, BR), cross(TR, BR)]
    );
    assert_eq!(points.get(1, 0).unwrap(), &vec![cross(TL, BL), cross(TR, BR)]);
    assert_eq!(points.get(1, 1).unwrap(), &vec![cross(BL, TL), cross(BR, TR)]);
}

#[test]
fn negated_field_turns_every_crossing_round() {
    let rows = vec![vec![3, -1, 4, 7], vec![-2, 6, 2, -5], vec![1, 1, -1, 8], vec![9, -3, -4, 4]];
    let squares = MarchingSquares::new(4, 0, |(i, j)| rows[i][j]).unwrap();
    let mirrored = MarchingSquares::new(4, 0, |(i, j)| -rows[i][j]).unwrap();
    let mut saddles = 0;
    for i in 0..3 {
        for j in 0..3 {
            let code = squares.code_matrix().get(i, j).unwrap();
            assert_eq!(mirrored.code_matrix().get(i, j), Some(15 - code));
            let points = squares.interpol_matrix().get(i, j).unwrap();
            let turned: Vec<ContourPoint> = points
                .iter()
                .map(|point| match point {
                    ContourPoint::Sentinel => ContourPoint::Sentinel,
                    ContourPoint::Crossing(c) => cross(c.to, c.from),
                })
                .collect();
            let other = mirrored.interpol_matrix().get(i, j).unwrap();
            if code == 5 || code == 10 {
                saddles += 1;
                assert_eq!(other, &vec![turned[0], turned[2], turned[1], turned[3]]);
            } else {
                assert_eq!(other, &turned);
            }
        }
    }
    assert_eq!(saddles, 2);
}

#[test]
fn flat_field_has_no_crossing() {
    for (level, isovalue) in [(3i64, 3i64), (3, 10), (3, 2), (0, 0), (-4, -5)] {
        let squares = MarchingSquares::new(6, isovalue, |_| level).unwrap();
        let inside = if level > isovalue { 1 } else { 0 };
        let code = if level > isovalue { 15 } else { 0 };
        assert_eq!(bytes(squares.flag_matrix()), vec![vec![inside; 6]; 6]);
        assert_eq!(bytes(squares.code_matrix()), vec![vec![code; 5]; 5]);
        for i in 0..5 {
            for j in 0..5 {
                assert_eq!(
                    squares.interpol_matrix().get(i, j).unwrap(),
                    &vec![ContourPoint::Sentinel]
                );
            }
        }
    }
}

#[test]
fn separating_edges_end_at_different_samples() {
    let rows = vec![vec![3, -1, 4], vec![-2, 6, 2], vec![1, 1, -1]];
    let squares = from_rows(&rows);
    for i in 0..2 {
        for j in 0..2 {
            for point in squares.interpol_matrix().get(i, j).unwrap() {
                if let ContourPoint::Crossing(crossing) = point {
                    let (fi, fj) = crossing.from.node(i, j);
                    let (ti, tj) = crossing.to.node(i, j);
                    assert!(rows[fi][fj] <= 0);
                    assert!(rows[ti][tj] > 0);
                }
            }
        }
    }
}
