use columnar_core::array::{ArrayData, ArrowArray, ArrowDataType};
use columnar_core::dtype::DataType;
use columnar_core::join::{JoinError, JoinValidation};
use columnar_core::series::{Series, SeriesError};

/// A single-chunk 64-bit integer key column; `None` marks a null row.
fn int_keys(name: &str, rows: &[Option<i64>]) -> Series {
    let validity: Vec<bool> = rows.iter().map(|r| r.is_some()).collect();
    let values: Vec<i128> = rows.iter().map(|r| r.unwrap_or(0) as i128).collect();
    Series {
        name: name.to_owned(),
        dtype: DataType::Int64,
        chunks: vec![ArrowArray {
            dtype: ArrowDataType::Int64,
            validity,
            data: ArrayData::Prims(values),
        }],
    }
}

fn opaque_keys(name: &str, rows: &[i128]) -> Series {
    Series {
        name: name.to_owned(),
        dtype: DataType::Object,
        chunks: vec![ArrowArray {
            dtype: ArrowDataType::Opaque,
            validity: vec![true; rows.len()],
            data: ArrayData::Prims(rows.to_vec()),
        }],
    }
}

#[test]
fn series_stats() {
    let s = int_keys("k", &[Some(1), None, None]);
    assert_eq!(s.len(), 3);
    assert_eq!(s.null_count(), 2);
    assert_eq!(s.n_unique(), Ok(2));
    let t = int_keys("k", &[Some(1), Some(1), Some(2)]);
    assert_eq!(t.n_unique(), Ok(2));
    assert_eq!(t.null_count(), 0);
}

#[test]
fn n_unique_refused_on_opaque_columns() {
    let s = opaque_keys("o", &[1, 2]);
    assert_eq!(s.n_unique(), Err(SeriesError::DistinctUnsupported));
}

#[test]
fn probe_swap_tie_break() {
    // Equal lengths and `build_shortest_table` swap the probe role to the
    // right side: `<=` means ties swap.
    let left = int_keys("l", &[Some(1), Some(2), Some(3)]);
    let right = int_keys("r", &[Some(1), Some(1), Some(2)]);

    // OneToMany asks for left-side uniqueness; after the swap the probe is
    // the right column and the (swapped) mode checks nothing there.
    assert!(
        JoinValidation::OneToMany
            .validate_probe(&left, &right, true, false)
            .is_ok()
    );
    // ManyToOne becomes OneToMany after the swap and must now hold of the
    // duplicated right column: it fails.
    assert!(
        JoinValidation::ManyToOne
            .validate_probe(&left, &right, true, false)
            .is_err()
    );
    // Without the swap, ManyToOne leaves the probe (left) unchecked.
    assert!(
        JoinValidation::ManyToOne
            .validate_probe(&left, &right, false, false)
            .is_ok()
    );
    // OneToOne checks the probe on both assignments: the duplicated right
    // column fails after the swap, the unique left column passes without.
    assert!(
        JoinValidation::OneToOne
            .validate_probe(&left, &right, true, false)
            .is_err()
    );
    assert!(
        JoinValidation::OneToOne
            .validate_probe(&left, &right, false, false)
            .is_ok()
    );
}

#[test]
fn probe_null_collapse_arithmetic() {
    let other = int_keys("r", &[Some(7), Some(8), Some(9), Some(10)]);

    // [1, null, null]: distinct slots {1, null} = 2, len 3, nulls 2:
    // 2 - 1 == 3 - 2 holds, so the column passes OneToOne.
    let probe = int_keys("l", &[Some(1), None, None]);
    assert!(
        JoinValidation::OneToOne
            .validate_probe(&probe, &other, false, false)
            .is_ok()
    );
    // With nulls equal the collapse is off: 2 != 3 fails.
    assert!(
        JoinValidation::OneToOne
            .validate_probe(&probe, &other, false, true)
            .is_err()
    );

    // [1, 1, null]: distinct 2, len 3, nulls 1: 1 != 2 fails.
    let dup = int_keys("l", &[Some(1), Some(1), None]);
    assert!(
        JoinValidation::OneToOne
            .validate_probe(&dup, &other, false, false)
            .is_err()
    );

    // Zero nulls: plain distinct-count check.
    let unique = int_keys("l", &[Some(1), Some(2), Some(3)]);
    assert!(
        JoinValidation::OneToOne
            .validate_probe(&unique, &other, false, false)
            .is_ok()
    );
    let dups = int_keys("l", &[Some(1), Some(2), Some(2)]);
    assert!(
        JoinValidation::OneToOne
            .validate_probe(&dups, &other, false, false)
            .is_err()
    );

    // All nulls: distinct 1, len 2, nulls 2: 0 == 0 holds.
    let all_null = int_keys("l", &[None, None]);
    assert!(
        JoinValidation::OneToOne
            .validate_probe(&all_null, &other, false, false)
            .is_ok()
    );

    // The unchecked modes never look at the probe.
    assert!(
        JoinValidation::ManyToMany
            .validate_probe(&dup, &other, false, false)
            .is_ok()
    );

    match JoinValidation::OneToOne.validate_probe(&dup, &other, false, false) {
        Err(JoinError::KeysNotUnique { validation }) => {
            assert_eq!(validation, JoinValidation::OneToOne)
        },
        other => panic!("expected a validation error, got {:?}", other),
    }
}

#[test]
fn probe_refused_on_opaque_keys() {
    let probe = opaque_keys("l", &[1, 2, 3]);
    let other = int_keys("r", &[Some(7), Some(8), Some(9), Some(10)]);
    match JoinValidation::OneToOne.validate_probe(&probe, &other, false, false) {
        Err(JoinError::KeysNotComparable) => {},
        other => panic!("expected the opaque-key error, got {:?}", other),
    }
}

#[test]
fn distinct_over_other_flat_types() {
    let strs = Series {
        name: "s".to_owned(),
        dtype: DataType::Utf8,
        chunks: vec![ArrowArray {
            dtype: ArrowDataType::Utf8View,
            validity: vec![true, true, true, false],
            data: ArrayData::Strs(vec![
                "a".to_owned(),
                "b".to_owned(),
                "a".to_owned(),
                "".to_owned(),
            ]),
        }],
    };
    // Distinct slots: {"a", "b", null}.
    assert_eq!(strs.n_unique(), Ok(3));

    let bools = Series {
        name: "b".to_owned(),
        dtype: DataType::Boolean,
        chunks: vec![ArrowArray {
            dtype: ArrowDataType::Boolean,
            validity: vec![true, true, true],
            data: ArrayData::Bools(vec![true, false, true]),
        }],
    };
    assert_eq!(bools.n_unique(), Ok(2));

    let bins = Series {
        name: "y".to_owned(),
        dtype: DataType::Binary,
        chunks: vec![ArrowArray {
            dtype: ArrowDataType::BinaryView,
            validity: vec![true, true, true],
            data: ArrayData::Bins(vec![vec![1, 2], vec![1, 3], vec![1, 2]]),
        }],
    };
    assert_eq!(bins.n_unique(), Ok(2));

    // Every row of a null column falls into the single null class.
    let nulls = Series {
        name: "n".to_owned(),
        dtype: DataType::Null,
        chunks: vec![ArrowArray {
            dtype: ArrowDataType::Null,
            validity: vec![false, false],
            data: ArrayData::Unit,
        }],
    };
    assert_eq!(nulls.n_unique(), Ok(1));
}

#[test]
fn multi_chunk_stats() {
    let mut s = int_keys("k", &[Some(1), None]);
    s.chunks.push(ArrowArray {
        dtype: ArrowDataType::Int64,
        validity: vec![true, true, false],
        data: ArrayData::Prims(vec![1, 5, 0]),
    });
    assert_eq!(s.len(), 5);
    assert_eq!(s.null_count(), 2);
    // Distinct slots: {1, null, 5}.
    assert_eq!(s.n_unique(), Ok(3));
}
