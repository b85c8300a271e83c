use columnar_core::array::{ArrayData, ArrowArray, ArrowDataType, ArrowField, CompatLevel};
use columnar_core::dtype::{CategoricalPhysical, DataType, Field, TimeUnit};
use columnar_core::series::{conv_chunk, import_chunk, Series};

fn single(name: &str, dtype: DataType, chunk: ArrowArray) -> Series {
    Series { name: name.to_owned(), dtype, chunks: vec![chunk] }
}

#[test]
fn to_physical_leaves() {
    assert_eq!(DataType::Date.to_physical(), DataType::Int32);
    assert_eq!(
        DataType::Datetime(TimeUnit::Microseconds, Some("UTC".to_owned())).to_physical(),
        DataType::Int64
    );
    assert_eq!(DataType::Duration(TimeUnit::Milliseconds).to_physical(), DataType::Int64);
    assert_eq!(DataType::Time.to_physical(), DataType::Int64);
    assert_eq!(DataType::Decimal(38, 2).to_physical(), DataType::Int128);
    assert_eq!(
        DataType::Categorical(vec!["a".to_owned()], CategoricalPhysical::U16).to_physical(),
        DataType::UInt16
    );
    assert_eq!(
        DataType::Enum(vec!["a".to_owned()], CategoricalPhysical::U8).to_physical(),
        DataType::UInt8
    );
    assert_eq!(DataType::Int64.to_physical(), DataType::Int64);
    assert_eq!(DataType::Utf8.to_physical(), DataType::Utf8);
    assert_eq!(DataType::Object.to_physical(), DataType::Object);
}

#[test]
fn to_physical_idempotent_and_shape_preserving() {
    // A list of structs maps to a list of the struct's physical form.
    let nested = DataType::List(Box::new(DataType::Struct(vec![
        Field { name: "d".to_owned(), dtype: DataType::Date },
        Field { name: "c".to_owned(), dtype: DataType::Categorical(vec![], CategoricalPhysical::U32) },
    ])));
    let once = nested.to_physical();
    assert_eq!(
        once,
        DataType::List(Box::new(DataType::Struct(vec![
            Field { name: "d".to_owned(), dtype: DataType::Int32 },
            Field { name: "c".to_owned(), dtype: DataType::UInt32 },
        ])))
    );
    assert_eq!(once.to_physical(), once);

    let arr = DataType::Array(Box::new(DataType::Time), 4);
    assert_eq!(arr.to_physical(), DataType::Array(Box::new(DataType::Int64), 4));
    assert_eq!(arr.to_physical().to_physical(), arr.to_physical());
}

#[test]
fn dtype_to_arrow_mapping() {
    assert_eq!(DataType::Utf8.to_arrow(CompatLevel::newest()), ArrowDataType::Utf8View);
    assert_eq!(DataType::Utf8.to_arrow(CompatLevel::oldest()), ArrowDataType::LargeUtf8);
    assert_eq!(DataType::Binary.to_arrow(CompatLevel::oldest()), ArrowDataType::LargeBinary);
    assert_eq!(DataType::Date.to_arrow(CompatLevel::newest()), ArrowDataType::Date32);
    assert_eq!(
        DataType::Datetime(TimeUnit::Nanoseconds, Some("UTC".to_owned()))
            .to_arrow(CompatLevel::newest()),
        ArrowDataType::Timestamp(TimeUnit::Nanoseconds, Some("UTC".to_owned()))
    );
    assert_eq!(
        DataType::List(Box::new(DataType::Utf8)).to_arrow(CompatLevel::oldest()),
        ArrowDataType::LargeList(Box::new(ArrowDataType::LargeUtf8))
    );
}

#[test]
fn plain_leaf_chunks_pass_through() {
    let chunk = ArrowArray {
        dtype: ArrowDataType::Int64,
        validity: vec![true, false, true],
        data: ArrayData::Prims(vec![3, 0, 9]),
    };
    let s = single("ints", DataType::Int64, chunk);
    let out = s.to_arrow(0, CompatLevel::newest());
    assert_eq!(out, s.chunks[0]);
}

#[test]
fn string_chunks_downgrade_at_the_legacy_level() {
    let chunk = ArrowArray {
        dtype: ArrowDataType::Utf8View,
        validity: vec![true, true],
        data: ArrayData::Strs(vec!["ab".to_owned(), "cd".to_owned()]),
    };
    let s = single("strs", DataType::Utf8, chunk);

    let modern = s.to_arrow(0, CompatLevel::newest());
    assert_eq!(modern, s.chunks[0]);

    let legacy = s.to_arrow(0, CompatLevel::oldest());
    assert_eq!(legacy.dtype, ArrowDataType::LargeUtf8);
    assert_eq!(legacy.validity, vec![true, true]);
    assert_eq!(legacy.data, ArrayData::Strs(vec!["ab".to_owned(), "cd".to_owned()]));
}

#[test]
fn date_chunks_are_retagged() {
    let chunk = ArrowArray {
        dtype: ArrowDataType::Int32,
        validity: vec![true, true],
        data: ArrayData::Prims(vec![19000, 19001]),
    };
    let s = single("d", DataType::Date, chunk);
    let out = s.to_arrow(0, CompatLevel::newest());
    assert_eq!(out.dtype, ArrowDataType::Date32);
    assert_eq!(out.data, ArrayData::Prims(vec![19000, 19001]));
}

#[test]
fn decimal_chunks_carry_precision_and_scale() {
    let chunk = ArrowArray {
        dtype: ArrowDataType::Int128,
        validity: vec![true],
        data: ArrayData::Prims(vec![12345]),
    };
    let s = single("m", DataType::Decimal(38, 2), chunk);
    // Decimals use the modern representation at every compatibility level.
    let out = s.to_arrow(0, CompatLevel::oldest());
    assert_eq!(out.dtype, ArrowDataType::Decimal(38, 2));
    assert_eq!(out.data, ArrayData::Prims(vec![12345]));
}

#[test]
fn categorical_chunks_realize_their_categories() {
    let cats = vec!["red".to_owned(), "green".to_owned()];
    let chunk = ArrowArray {
        dtype: ArrowDataType::UInt32,
        validity: vec![true, true, false],
        data: ArrayData::Prims(vec![1, 0, 0]),
    };
    let s = single("c", DataType::Categorical(cats.clone(), CategoricalPhysical::U32), chunk);
    let out = s.to_arrow(0, CompatLevel::newest());
    assert_eq!(out.dtype, ArrowDataType::Dictionary(CategoricalPhysical::U32));
    assert_eq!(out.data, ArrayData::Dict { keys: vec![1, 0, 0], cats });
    assert_eq!(out.validity, vec![true, true, false]);
}

#[test]
fn list_of_null_passes_values_unchanged() {
    let values = ArrowArray {
        dtype: ArrowDataType::Null,
        validity: vec![false, false],
        data: ArrayData::Unit,
    };
    let chunk = ArrowArray {
        dtype: ArrowDataType::LargeList(Box::new(ArrowDataType::Null)),
        validity: vec![true],
        data: ArrayData::List { offsets: vec![0, 2], values: Box::new(values.clone()) },
    };
    let s = single("ln", DataType::List(Box::new(DataType::Null)), chunk);
    let out = s.to_arrow(0, CompatLevel::newest());
    match out.data {
        ArrayData::List { offsets, values: v } => {
            assert_eq!(offsets, vec![0, 2]);
            assert_eq!(*v, values);
        },
        other => panic!("expected a list payload, got {:?}", other),
    }
}

/// A struct column with fields `[a: Int32, b: List<Utf8>]`, materialized at
/// the modern level and read back: field order, per-row validity and
/// values all survive.
#[test]
fn struct_round_trip() {
    let dtype = DataType::Struct(vec![
        Field { name: "a".to_owned(), dtype: DataType::Int32 },
        Field { name: "b".to_owned(), dtype: DataType::List(Box::new(DataType::Utf8)) },
    ]);
    let a_child = ArrowArray {
        dtype: ArrowDataType::Int32,
        validity: vec![true, false, true],
        data: ArrayData::Prims(vec![10, 0, 30]),
    };
    let b_values = ArrowArray {
        dtype: ArrowDataType::Utf8View,
        validity: vec![true, true, false],
        data: ArrayData::Strs(vec!["x".to_owned(), "y".to_owned(), "".to_owned()]),
    };
    let b_child = ArrowArray {
        dtype: ArrowDataType::LargeList(Box::new(ArrowDataType::Utf8View)),
        validity: vec![true, true, true],
        data: ArrayData::List { offsets: vec![0, 2, 2, 3], values: Box::new(b_values) },
    };
    let chunk = ArrowArray {
        dtype: ArrowDataType::Struct(vec![
            ArrowField { name: "a".to_owned(), dtype: ArrowDataType::Int32 },
            ArrowField {
                name: "b".to_owned(),
                dtype: ArrowDataType::LargeList(Box::new(ArrowDataType::Utf8View)),
            },
        ]),
        validity: vec![true, true, false],
        data: ArrayData::StructData { len: 3, children: vec![a_child, b_child] },
    };
    let s = single("rows", dtype.clone(), chunk);

    let out = s.to_arrow(0, CompatLevel::newest());

    // The emitted type lists the fields in declared order.
    match &out.dtype {
        ArrowDataType::Struct(fs) => {
            assert_eq!(fs.len(), 2);
            assert_eq!(fs[0].name, "a");
            assert_eq!(fs[1].name, "b");
        },
        other => panic!("expected a struct type, got {:?}", other),
    }
    // The struct-level null bitmap survives independently of the children.
    assert_eq!(out.validity, vec![true, true, false]);
    match &out.data {
        ArrayData::StructData { len, children } => {
            assert_eq!(*len, 3);
            assert_eq!(children[0].validity, vec![true, false, true]);
            assert_eq!(children[0].data, ArrayData::Prims(vec![10, 0, 30]));
            match &children[1].data {
                ArrayData::List { offsets, values } => {
                    assert_eq!(offsets, &vec![0, 2, 2, 3]);
                    assert_eq!(
                        values.data,
                        ArrayData::Strs(vec!["x".to_owned(), "y".to_owned(), "".to_owned()])
                    );
                },
                other => panic!("expected a list payload, got {:?}", other),
            }
        },
        other => panic!("expected a struct payload, got {:?}", other),
    }

    // Reading the emitted array back restores the stored chunk exactly.
    let back = import_chunk(&dtype, &out);
    assert_eq!(back, s.chunks[0]);
}

#[test]
fn legacy_round_trip() {
    let chunk = ArrowArray {
        dtype: ArrowDataType::Utf8View,
        validity: vec![true, false],
        data: ArrayData::Strs(vec!["q".to_owned(), "".to_owned()]),
    };
    let out = conv_chunk(&DataType::Utf8, &chunk, CompatLevel::oldest());
    assert_eq!(out.dtype, ArrowDataType::LargeUtf8);
    let back = import_chunk(&DataType::Utf8, &out);
    assert_eq!(back, chunk);
}

/// Materializing chunk `i` directly and deriving it through the
/// slice-and-convert path give the same array, chunk by chunk.
#[test]
fn object_chunks_are_slice_invariant() {
    let c0 = ArrowArray {
        dtype: ArrowDataType::Opaque,
        validity: vec![true, true],
        data: ArrayData::Prims(vec![100, 101]),
    };
    let c1 = ArrowArray {
        dtype: ArrowDataType::Opaque,
        validity: vec![false, true, true],
        data: ArrayData::Prims(vec![0, 103, 104]),
    };
    let c2 = ArrowArray {
        dtype: ArrowDataType::Opaque,
        validity: vec![true],
        data: ArrayData::Prims(vec![105]),
    };
    let multi = Series {
        name: "objs".to_owned(),
        dtype: DataType::Object,
        chunks: vec![c0.clone(), c1.clone(), c2.clone()],
    };
    for (i, c) in [c0, c1, c2].into_iter().enumerate() {
        // The multi-chunk path goes through the row-range slice; a
        // single-chunk column of the same rows converts directly.
        let direct = Series {
            name: "objs".to_owned(),
            dtype: DataType::Object,
            chunks: vec![c],
        }
        .to_arrow(0, CompatLevel::newest());
        let sliced = multi.to_arrow(i, CompatLevel::newest());
        assert_eq!(direct, sliced);
        assert_eq!(sliced.dtype, ArrowDataType::Opaque);
    }
}

#[test]
fn array_ref_borrows_the_chunk() {
    let chunk = ArrowArray {
        dtype: ArrowDataType::Boolean,
        validity: vec![true],
        data: ArrayData::Bools(vec![true]),
    };
    let s = single("b", DataType::Boolean, chunk.clone());
    assert_eq!(s.array_ref(0), &chunk);
    assert_eq!(s.array_ref(0).len(), 1);
}

#[test]
fn constructor_keeps_its_parts() {
    let chunk = ArrowArray {
        dtype: ArrowDataType::Int8,
        validity: vec![true, true],
        data: ArrayData::Prims(vec![1, 2]),
    };
    let s = Series::from_chunks_and_dtype("k".to_owned(), vec![chunk], DataType::Int8);
    assert_eq!(s.name, "k");
    assert_eq!(s.dtype, DataType::Int8);
    assert_eq!(s.len(), 2);
}
