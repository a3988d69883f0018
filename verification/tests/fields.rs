use marching_squares::cell::{ContourPoint, Corner, Crossing};
use marching_squares::field::{can_allocate, ByteField, SegmentField, ValueField, CELL_BYTES};

#[test]
fn sampled_field_holds_each_sample_at_its_own_index() {
    let field = ValueField::from_fn(3, 4, |(i, j)| (10 * i + j) as i64).unwrap();
    assert_eq!(field.rows(), 3);
    assert_eq!(field.cols(), 4);
    for i in 0..3 {
        for j in 0..4 {
            assert_eq!(field.get(i, j), Some((10 * i + j) as i64));
        }
    }
    assert_eq!(field.get(2, 3), Some(23));
    assert_eq!(field.get(0, 3), Some(3));
}

#[test]
fn reading_out_of_bounds_gives_nothing() {
    let field = ValueField::from_fn(2, 3, |_| 7).unwrap();
    assert_eq!(field.get(2, 0), None);
    assert_eq!(field.get(0, 3), None);
    assert_eq!(field.get(usize::MAX, usize::MAX), None);
    let bytes = ByteField::zeros(2, 3);
    assert_eq!(bytes.get(2, 0), None);
    assert_eq!(bytes.get(1, 3), None);
    let segments = SegmentField::empty(2, 2);
    assert!(segments.get(2, 1).is_none());
    assert!(segments.get(1, 2).is_none());
}

#[test]
fn field_that_cannot_be_allocated_is_refused_without_sampling() {
    let field = ValueField::from_fn(usize::MAX, usize::MAX, |_| -> i64 {
        panic!("no sample may be taken")
    });
    assert!(field.is_none());
    let field = ValueField::from_fn(usize::MAX, 2, |_| -> i64 {
        panic!("no sample may be taken")
    });
    assert!(field.is_none());
}

#[test]
fn allocation_limit_follows_the_cell_size() {
    assert!(can_allocate(0, 0));
    assert!(can_allocate(5, 5));
    assert!(can_allocate(1000, 1000));
    assert!(!can_allocate(usize::MAX, usize::MAX));
    assert!(!can_allocate(usize::MAX, 1));
    assert!(!can_allocate(isize::MAX as usize, 1));
    assert_eq!(CELL_BYTES, 24);
    assert!(std::mem::size_of::<Vec<ContourPoint>>() <= CELL_BYTES);
    assert!(std::mem::size_of::<i64>() <= CELL_BYTES);
    let limit = isize::MAX as usize / CELL_BYTES;
    assert!(can_allocate(limit, 1));
    assert!(can_allocate(1, limit));
    assert!(!can_allocate(limit + 1, 1));
    assert!(!can_allocate(2, limit / 2 + 1));
}

#[test]
fn empty_axis_counts_as_one_towards_the_shape() {
    assert!(can_allocate(0, isize::MAX as usize));
    assert!(can_allocate(isize::MAX as usize, 0));
    assert!(!can_allocate(0, isize::MAX as usize + 1));
    assert!(!can_allocate(usize::MAX, 0));
    assert!(!can_allocate(0, usize::MAX));
    let field = ByteField::zeros(0, isize::MAX as usize);
    assert_eq!(field.rows(), 0);
    assert_eq!(field.cols(), isize::MAX as usize);
    assert!(ValueField::from_fn(0, usize::MAX, |_| 0).is_none());
    assert!(ValueField::from_fn(0, isize::MAX as usize, |_| 0).is_some());
}

#[test]
fn byte_field_starts_at_zero_and_keeps_what_is_written() {
    let mut field = ByteField::zeros(2, 3);
    assert_eq!(field.rows(), 2);
    assert_eq!(field.cols(), 3);
    for i in 0..2 {
        for j in 0..3 {
            assert_eq!(field.get(i, j), Some(0));
        }
    }
    assert!(field.set(1, 2, 9));
    assert!(field.set(0, 0, 4));
    assert_eq!(field.get(1, 2), Some(9));
    assert_eq!(field.get(0, 0), Some(4));
    assert_eq!(field.get(0, 2), Some(0));
    assert_eq!(field.get(1, 0), Some(0));
    assert_eq!(field.get(0, 1), Some(0));
    assert_eq!(field.get(1, 1), Some(0));
}

#[test]
fn writing_out_of_bounds_changes_nothing() {
    let mut field = ByteField::zeros(2, 2);
    assert!(!field.set(2, 0, 1));
    assert!(!field.set(0, 2, 1));
    for i in 0..2 {
        for j in 0..2 {
            assert_eq!(field.get(i, j), Some(0));
        }
    }
    let mut segments = SegmentField::empty(1, 1);
    assert!(!segments.set(1, 0, vec![ContourPoint::Sentinel]));
    assert_eq!(segments.get(0, 0), Some(&Vec::new()));
}

#[test]
fn segment_field_starts_empty_and_keeps_what_is_written() {
    let mut field = SegmentField::empty(2, 2);
    assert_eq!(field.rows(), 2);
    assert_eq!(field.cols(), 2);
    for i in 0..2 {
        for j in 0..2 {
            assert_eq!(field.get(i, j), Some(&Vec::new()));
        }
    }
    let crossing = Crossing { from: Corner::TopLeft, to: Corner::BottomLeft };
    let points = vec![ContourPoint::Crossing(crossing), ContourPoint::Sentinel];
    assert!(field.set(0, 1, points.clone()));
    assert_eq!(field.get(0, 1), Some(&points));
    assert_eq!(field.get(1, 0), Some(&Vec::new()));
    assert_eq!(field.get(0, 0), Some(&Vec::new()));
    assert_eq!(field.get(1, 1), Some(&Vec::new()));
}

#[test]
fn fields_without_rows_or_columns_are_empty() {
    let field = ByteField::zeros(0, 0);
    assert_eq!(field.rows(), 0);
    assert_eq!(field.get(0, 0), None);
    let field = ByteField::zeros(3, 0);
    assert_eq!(field.rows(), 3);
    assert_eq!(field.cols(), 0);
    assert_eq!(field.get(0, 0), None);
}
