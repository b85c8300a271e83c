//! The interchange array model: the canonical physical representation a
//! chunk is materialized into, and the mapping from a logical type to the
//! interchange type it is emitted as (`DataType::to_arrow`).
use vstd::prelude::*;

use crate::dtype::{
    dty, lemma_view_fields, view_fields, view_strs, CategoricalPhysical, DTy, DataType, TimeUnit,
};

verus! {

/// Version tag selecting the interchange representation: `0` is the legacy
/// narrow form, `1` and above the modern one. Supplied per conversion
/// call, never stored.
#[derive(Clone, Copy, PartialEq, Eq, Structural, Debug)]
pub struct CompatLevel(pub u16);

impl CompatLevel {
    pub fn newest() -> (r: CompatLevel)
        ensures
            r.0 == 1,
    {
        CompatLevel(1)
    }

    pub fn oldest() -> (r: CompatLevel)
        ensures
            r.0 == 0,
    {
        CompatLevel(0)
    }
}

/// One named member of an interchange struct type.
#[derive(Debug, PartialEq, Eq)]
pub struct ArrowField {
    pub name: String,
    pub dtype: ArrowDataType,
}

/// The interchange type of an emitted array.
#[derive(Debug, PartialEq, Eq)]
pub enum ArrowDataType {
    Null,
    Boolean,
    Int8,
    Int16,
    Int32,
    Int64,
    Int128,
    UInt8,
    UInt16,
    UInt32,
    UInt64,
    Float32,
    Float64,
    /// Modern string form.
    Utf8View,
    /// Legacy string form with wide offsets.
    LargeUtf8,
    /// Modern binary form.
    BinaryView,
    /// Legacy binary form with wide offsets.
    LargeBinary,
    Date32,
    Timestamp(TimeUnit, Option<String>),
    Duration(TimeUnit),
    Time64(TimeUnit),
    Decimal(usize, usize),
    /// Realized categorical: codes of the given width plus the category
    /// strings.
    Dictionary(CategoricalPhysical),
    Struct(Vec<ArrowField>),
    LargeList(Box<ArrowDataType>),
    FixedSizeList(Box<ArrowDataType>, usize),
    /// Opaque boxed values, carried through without interpretation.
    Opaque,
}

/// Mathematical mirror of `ArrowField`.
pub struct AFieldTy {
    pub name: Seq<char>,
    pub dtype: ADTy,
}

/// Mathematical mirror of `ArrowDataType`. For `LargeList` and
/// `FixedSizeList` the child sequence always has exactly one element.
pub enum ADTy {
    Null,
    Boolean,
    Int8,
    Int16,
    Int32,
    Int64,
    Int128,
    UInt8,
    UInt16,
    UInt32,
    UInt64,
    Float32,
    Float64,
    Utf8View,
    LargeUtf8,
    BinaryView,
    LargeBinary,
    Date32,
    Timestamp(TimeUnit, Option<Seq<char>>),
    Duration(TimeUnit),
    Time64(TimeUnit),
    Decimal(nat, nat),
    Dictionary(CategoricalPhysical),
    Struct(Seq<AFieldTy>),
    LargeList(Seq<ADTy>),
    FixedSizeList(Seq<ADTy>, nat),
    Opaque,
}

/// View of one interchange field.
pub open spec fn afield_ty(f: ArrowField) -> AFieldTy
    decreases f,
{
    AFieldTy { name: f.name@, dtype: adty(f.dtype) }
}

/// Views of an interchange field list.
pub open spec fn view_afields(fs: Seq<ArrowField>) -> Seq<AFieldTy>
    decreases fs,
{
    if fs.len() == 0 {
        Seq::empty()
    } else {
        seq![afield_ty(fs[0])] + view_afields(fs.drop_first())
    }
}

/// View of an interchange type.
pub open spec fn adty(d: ArrowDataType) -> ADTy
    decreases d,
{
    match d {
        ArrowDataType::Null => ADTy::Null,
        ArrowDataType::Boolean => ADTy::Boolean,
        ArrowDataType::Int8 => ADTy::Int8,
        ArrowDataType::Int16 => ADTy::Int16,
        ArrowDataType::Int32 => ADTy::Int32,
        ArrowDataType::Int64 => ADTy::Int64,
        ArrowDataType::Int128 => ADTy::Int128,
        ArrowDataType::UInt8 => ADTy::UInt8,
        ArrowDataType::UInt16 => ADTy::UInt16,
        ArrowDataType::UInt32 => ADTy::UInt32,
        ArrowDataType::UInt64 => ADTy::UInt64,
        ArrowDataType::Float32 => ADTy::Float32,
        ArrowDataType::Float64 => ADTy::Float64,
        ArrowDataType::Utf8View => ADTy::Utf8View,
        ArrowDataType::LargeUtf8 => ADTy::LargeUtf8,
        ArrowDataType::BinaryView => ADTy::BinaryView,
        ArrowDataType::LargeBinary => ADTy::LargeBinary,
        ArrowDataType::Date32 => ADTy::Date32,
        ArrowDataType::Timestamp(tu, tz) => ADTy::Timestamp(
            tu,
            match tz {
                Some(z) => Some(z@),
                None => None,
            },
        ),
        ArrowDataType::Duration(tu) => ADTy::Duration(tu),
        ArrowDataType::Time64(tu) => ADTy::Time64(tu),
        ArrowDataType::Decimal(p, s) => ADTy::Decimal(p as nat, s as nat),
        ArrowDataType::Dictionary(p) => ADTy::Dictionary(p),
        ArrowDataType::Struct(fs) => ADTy::Struct(view_afields(fs@)),
        ArrowDataType::LargeList(inner) => ADTy::LargeList(seq![adty(*inner)]),
        ArrowDataType::FixedSizeList(inner, w) => ADTy::FixedSizeList(
            seq![adty(*inner)],
            w as nat,
        ),
        ArrowDataType::Opaque => ADTy::Opaque,
    }
}

impl View for ArrowField {
    type V = AFieldTy;

    open spec fn view(&self) -> AFieldTy {
        afield_ty(*self)
    }
}

impl View for ArrowDataType {
    type V = ADTy;

    open spec fn view(&self) -> ADTy {
        adty(*self)
    }
}

/// Views of an interchange field list, element by element.
pub proof fn lemma_view_afields(fs: Seq<ArrowField>)
    ensures
        view_afields(fs).len() == fs.len(),
        forall|i: int| 0 <= i < fs.len() ==> view_afields(fs)[i] == afield_ty(fs[i]),
    decreases fs,
{
    if fs.len() > 0 {
        lemma_view_afields(fs.drop_first());
    }
}

/// The interchange type a logical type is emitted as, at the given
/// compatibility level. Children are mapped from their logical form;
/// decimals always use the modern representation.
pub open spec fn arrow_dtype_of(d: DTy, compat: u16) -> ADTy
    decreases d,
{
    match d {
        DTy::Null => ADTy::Null,
        DTy::Boolean => ADTy::Boolean,
        DTy::Int8 => ADTy::Int8,
        DTy::Int16 => ADTy::Int16,
        DTy::Int32 => ADTy::Int32,
        DTy::Int64 => ADTy::Int64,
        DTy::Int128 => ADTy::Int128,
        DTy::UInt8 => ADTy::UInt8,
        DTy::UInt16 => ADTy::UInt16,
        DTy::UInt32 => ADTy::UInt32,
        DTy::UInt64 => ADTy::UInt64,
        DTy::Float32 => ADTy::Float32,
        DTy::Float64 => ADTy::Float64,
        DTy::Utf8 => if compat >= 1 {
            ADTy::Utf8View
        } else {
            ADTy::LargeUtf8
        },
        DTy::Binary => if compat >= 1 {
            ADTy::BinaryView
        } else {
            ADTy::LargeBinary
        },
        DTy::Date => ADTy::Date32,
        DTy::Datetime(tu, tz) => ADTy::Timestamp(tu, tz),
        DTy::Duration(tu) => ADTy::Duration(tu),
        DTy::Time => ADTy::Time64(TimeUnit::Nanoseconds),
        DTy::Decimal(p, s) => ADTy::Decimal(p, s),
        DTy::Categorical(_, p) => ADTy::Dictionary(p),
        DTy::Enum(_, p) => ADTy::Dictionary(p),
        DTy::Struct(fs) => ADTy::Struct(arrow_fields_of(fs, compat)),
        DTy::List(inner) => ADTy::LargeList(arrow_list_of(inner, compat)),
        DTy::Array(inner, w) => ADTy::FixedSizeList(arrow_list_of(inner, compat), w),
        DTy::Object => ADTy::Opaque,
    }
}

/// `arrow_dtype_of`, mapped over a field list.
pub open spec fn arrow_fields_of(fs: Seq<crate::dtype::FieldTy>, compat: u16) -> Seq<AFieldTy>
    decreases fs,
{
    if fs.len() == 0 {
        Seq::empty()
    } else {
        seq![AFieldTy { name: fs[0].name, dtype: arrow_dtype_of(fs[0].dtype, compat) }]
            + arrow_fields_of(fs.drop_first(), compat)
    }
}

/// `arrow_dtype_of`, mapped over a child list.
pub open spec fn arrow_list_of(ds: Seq<DTy>, compat: u16) -> Seq<ADTy>
    decreases ds,
{
    if ds.len() == 0 {
        Seq::empty()
    } else {
        seq![arrow_dtype_of(ds[0], compat)] + arrow_list_of(ds.drop_first(), compat)
    }
}

/// `arrow_fields_of`, element by element.
pub proof fn lemma_arrow_fields_of(fs: Seq<crate::dtype::FieldTy>, compat: u16)
    ensures
        arrow_fields_of(fs, compat).len() == fs.len(),
        forall|i: int|
            0 <= i < fs.len() ==> arrow_fields_of(fs, compat)[i] == (AFieldTy {
                name: fs[i].name,
                dtype: arrow_dtype_of(fs[i].dtype, compat),
            }),
    decreases fs,
{
    if fs.len() > 0 {
        lemma_arrow_fields_of(fs.drop_first(), compat);
    }
}

/// `arrow_list_of`, element by element.
pub proof fn lemma_arrow_list_of(ds: Seq<DTy>, compat: u16)
    ensures
        arrow_list_of(ds, compat).len() == ds.len(),
        forall|i: int| 0 <= i < ds.len() ==> arrow_list_of(ds, compat)[i] == arrow_dtype_of(
            ds[i],
            compat,
        ),
    decreases ds,
{
    if ds.len() > 0 {
        lemma_arrow_list_of(ds.drop_first(), compat);
    }
}

impl DataType {
    /// The interchange type this logical type is emitted as at the given
    /// compatibility level.
    #[verifier::loop_isolation(false)]
    pub fn to_arrow(&self, compat_level: CompatLevel) -> (r: ArrowDataType)
        ensures
            r@ == arrow_dtype_of(self@, compat_level.0),
        decreases self,
    {
        match self {
            DataType::Null => ArrowDataType::Null,
            DataType::Boolean => ArrowDataType::Boolean,
            DataType::Int8 => ArrowDataType::Int8,
            DataType::Int16 => ArrowDataType::Int16,
            DataType::Int32 => ArrowDataType::Int32,
            DataType::Int64 => ArrowDataType::Int64,
            DataType::Int128 => ArrowDataType::Int128,
            DataType::UInt8 => ArrowDataType::UInt8,
            DataType::UInt16 => ArrowDataType::UInt16,
            DataType::UInt32 => ArrowDataType::UInt32,
            DataType::UInt64 => ArrowDataType::UInt64,
            DataType::Float32 => ArrowDataType::Float32,
            DataType::Float64 => ArrowDataType::Float64,
            DataType::Utf8 => {
                if compat_level.0 >= 1 {
                    ArrowDataType::Utf8View
                } else {
                    ArrowDataType::LargeUtf8
                }
            },
            DataType::Binary => {
                if compat_level.0 >= 1 {
                    ArrowDataType::BinaryView
                } else {
                    ArrowDataType::LargeBinary
                }
            },
            DataType::Date => ArrowDataType::Date32,
            DataType::Datetime(tu, tz) => ArrowDataType::Timestamp(
                *tu,
                match tz {
                    Some(z) => Some(z.clone()),
                    None => None,
                },
            ),
            DataType::Duration(tu) => ArrowDataType::Duration(*tu),
            DataType::Time => ArrowDataType::Time64(TimeUnit::Nanoseconds),
            DataType::Decimal(p, s) => ArrowDataType::Decimal(*p, *s),
            DataType::Categorical(_, p) => ArrowDataType::Dictionary(*p),
            DataType::Enum(_, p) => ArrowDataType::Dictionary(*p),
            DataType::Struct(fields) => {
                let mut out: Vec<ArrowField> = Vec::new();
                let mut i: usize = 0;
                while i < fields.len()
                    invariant
                        i <= fields.len(),
                        out@.len() == i,
                        forall|j: int|
                            0 <= j < i ==> #[trigger] out@[j].name@ == fields@[j].name@ && adty(
                                out@[j].dtype,
                            ) == arrow_dtype_of(dty(fields@[j].dtype), compat_level.0),
                    decreases fields.len() - i,
                {
                    let f = &fields[i];
                    out.push(ArrowField { name: f.name.clone(), dtype: f.dtype.to_arrow(compat_level) });
                    i += 1;
                }
                proof {
                    lemma_view_afields(out@);
                    lemma_view_fields(fields@);
                    lemma_arrow_fields_of(view_fields(fields@), compat_level.0);
                    assert(view_afields(out@) =~= arrow_fields_of(
                        view_fields(fields@),
                        compat_level.0,
                    ));
                }
                ArrowDataType::Struct(out)
            },
            DataType::List(inner) => {
                let p = inner.to_arrow(compat_level);
                proof {
                    lemma_arrow_list_of(seq![dty(**inner)], compat_level.0);
                    assert(seq![adty(p)] =~= arrow_list_of(seq![dty(**inner)], compat_level.0));
                }
                ArrowDataType::LargeList(Box::new(p))
            },
            DataType::Array(inner, w) => {
                let p = inner.to_arrow(compat_level);
                proof {
                    lemma_arrow_list_of(seq![dty(**inner)], compat_level.0);
                    assert(seq![adty(p)] =~= arrow_list_of(seq![dty(**inner)], compat_level.0));
                }
                ArrowDataType::FixedSizeList(Box::new(p), *w)
            },
            DataType::Object => ArrowDataType::Opaque,
        }
    }
}

/// Copy a vector of plain values.
pub fn clone_prims<T: Copy>(v: &Vec<T>) -> (r: Vec<T>)
    ensures
        r@ == v@,
{
    let mut out: Vec<T> = Vec::new();
    let mut i: usize = 0;
    while i < v.len()
        invariant
            i <= v.len(),
            out@.len() == i,
            forall|j: int| 0 <= j < i ==> out@[j] == v@[j],
        decreases v.len() - i,
    {
        out.push(v[i]);
        i += 1;
    }
    proof {
        assert(out@ =~= v@);
    }
    out
}

/// The views of a sequence of binary rows.
pub open spec fn view_bins(bs: Seq<Vec<u8>>) -> Seq<Seq<u8>> {
    bs.map_values(|b: Vec<u8>| b@)
}

/// Copy a vector of binary rows, keeping each row's bytes.
pub fn clone_bins(v: &Vec<Vec<u8>>) -> (r: Vec<Vec<u8>>)
    ensures
        view_bins(r@) == view_bins(v@),
{
    let mut out: Vec<Vec<u8>> = Vec::new();
    let mut i: usize = 0;
    while i < v.len()
        invariant
            i <= v.len(),
            out@.len() == i,
            forall|j: int| 0 <= j < i ==> #[trigger] out@[j]@ == v@[j]@,
        decreases v.len() - i,
    {
        out.push(clone_prims(&v[i]));
        i += 1;
    }
    proof {
        assert(view_bins(out@) =~= view_bins(v@));
    }
    out
}

impl Clone for ArrowField {
    fn clone(&self) -> (r: Self)
        ensures
            r@ == self@,
        decreases self,
    {
        ArrowField { name: self.name.clone(), dtype: self.dtype.clone() }
    }
}

impl Clone for ArrowDataType {
    /// A deep copy with the same view.
    #[verifier::loop_isolation(false)]
    fn clone(&self) -> (r: Self)
        ensures
            r@ == self@,
        decreases self,
    {
        match self {
            ArrowDataType::Null => ArrowDataType::Null,
            ArrowDataType::Boolean => ArrowDataType::Boolean,
            ArrowDataType::Int8 => ArrowDataType::Int8,
            ArrowDataType::Int16 => ArrowDataType::Int16,
            ArrowDataType::Int32 => ArrowDataType::Int32,
            ArrowDataType::Int64 => ArrowDataType::Int64,
            ArrowDataType::Int128 => ArrowDataType::Int128,
            ArrowDataType::UInt8 => ArrowDataType::UInt8,
            ArrowDataType::UInt16 => ArrowDataType::UInt16,
            ArrowDataType::UInt32 => ArrowDataType::UInt32,
            ArrowDataType::UInt64 => ArrowDataType::UInt64,
            ArrowDataType::Float32 => ArrowDataType::Float32,
            ArrowDataType::Float64 => ArrowDataType::Float64,
            ArrowDataType::Utf8View => ArrowDataType::Utf8View,
            ArrowDataType::LargeUtf8 => ArrowDataType::LargeUtf8,
            ArrowDataType::BinaryView => ArrowDataType::BinaryView,
            ArrowDataType::LargeBinary => ArrowDataType::LargeBinary,
            ArrowDataType::Date32 => ArrowDataType::Date32,
            ArrowDataType::Timestamp(tu, tz) => ArrowDataType::Timestamp(
                *tu,
                match tz {
                    Some(z) => Some(z.clone()),
                    None => None,
                },
            ),
            ArrowDataType::Duration(tu) => ArrowDataType::Duration(*tu),
            ArrowDataType::Time64(tu) => ArrowDataType::Time64(*tu),
            ArrowDataType::Decimal(p, s) => ArrowDataType::Decimal(*p, *s),
            ArrowDataType::Dictionary(p) => ArrowDataType::Dictionary(*p),
            ArrowDataType::Struct(fields) => {
                let mut out: Vec<ArrowField> = Vec::new();
                let mut i: usize = 0;
                while i < fields.len()
                    invariant
                        i <= fields.len(),
                        out@.len() == i,
                        forall|j: int| 0 <= j < i ==> #[trigger] out@[j]@ == fields@[j]@,
                    decreases fields.len() - i,
                {
                    out.push(fields[i].clone());
                    i += 1;
                }
                proof {
                    lemma_view_afields(out@);
                    lemma_view_afields(fields@);
                    assert forall|j: int| 0 <= j < fields@.len() implies view_afields(out@)[j]
                        == view_afields(fields@)[j] by {
                        assert(out@[j]@ == fields@[j]@);
                    }
                    assert(view_afields(out@) =~= view_afields(fields@));
                }
                ArrowDataType::Struct(out)
            },
            ArrowDataType::LargeList(inner) => ArrowDataType::LargeList(
                Box::new((**inner).clone()),
            ),
            ArrowDataType::FixedSizeList(inner, w) => ArrowDataType::FixedSizeList(
                Box::new((**inner).clone()),
                *w,
            ),
            ArrowDataType::Opaque => ArrowDataType::Opaque,
        }
    }
}

/// One materialized (or stored) physical array.
#[derive(Debug, PartialEq, Eq)]
pub struct ArrowArray {
    /// The interchange type tag: the interpretation of `data`.
    pub dtype: ArrowDataType,
    /// The null bitmap: `true` marks a valid row. Always as long as the
    /// array.
    pub validity: Vec<bool>,
    pub data: ArrayData,
}

/// The per-row payload of an array.
#[derive(Debug, PartialEq, Eq)]
pub enum ArrayData {
    /// No payload: arrays of the null type.
    Unit,
    /// Integer-like rows: every integer width, dates, times, decimals, and
    /// float bit patterns, widened into one carrier.
    Prims(Vec<i128>),
    Bools(Vec<bool>),
    Strs(Vec<String>),
    Bins(Vec<Vec<u8>>),
    /// Variable-length lists: `offsets[i]..offsets[i + 1]` indexes the flat
    /// `values` child.
    List { offsets: Vec<usize>, values: Box<ArrowArray> },
    /// Fixed-width lists: row `i` is `values[i * width..(i + 1) * width]`.
    Fixed { len: usize, values: Box<ArrowArray> },
    StructData { len: usize, children: Vec<ArrowArray> },
    /// Realized categorical rows: codes plus the category strings.
    Dict { keys: Vec<i128>, cats: Vec<String> },
}

/// Mathematical mirror of `ArrowArray`.
pub struct ArrV {
    pub dtype: ADTy,
    pub validity: Seq<bool>,
    pub data: ADataV,
}

/// Mathematical mirror of `ArrayData`. Child arrays sit in sequences of
/// exactly one element where the payload has a single child.
pub enum ADataV {
    Unit,
    Prims(Seq<i128>),
    Bools(Seq<bool>),
    Strs(Seq<Seq<char>>),
    Bins(Seq<Seq<u8>>),
    List { offsets: Seq<usize>, values: Seq<ArrV> },
    Fixed { len: nat, values: Seq<ArrV> },
    StructArr { len: nat, children: Seq<ArrV> },
    Dict { keys: Seq<i128>, cats: Seq<Seq<char>> },
}

/// View of one array.
pub open spec fn arrv(a: ArrowArray) -> ArrV
    decreases a,
{
    ArrV { dtype: adty(a.dtype), validity: a.validity@, data: adata(a.data) }
}

/// View of an array payload.
pub open spec fn adata(d: ArrayData) -> ADataV
    decreases d,
{
    match d {
        ArrayData::Unit => ADataV::Unit,
        ArrayData::Prims(v) => ADataV::Prims(v@),
        ArrayData::Bools(v) => ADataV::Bools(v@),
        ArrayData::Strs(v) => ADataV::Strs(view_strs(v@)),
        ArrayData::Bins(v) => ADataV::Bins(view_bins(v@)),
        ArrayData::List { offsets, values } => ADataV::List {
            offsets: offsets@,
            values: seq![arrv(*values)],
        },
        ArrayData::Fixed { len, values } => ADataV::Fixed {
            len: len as nat,
            values: seq![arrv(*values)],
        },
        ArrayData::StructData { len, children } => ADataV::StructArr {
            len: len as nat,
            children: view_children(children@),
        },
        ArrayData::Dict { keys, cats } => ADataV::Dict { keys: keys@, cats: view_strs(cats@) },
    }
}

/// Views of a child-array list.
pub open spec fn view_children(cs: Seq<ArrowArray>) -> Seq<ArrV>
    decreases cs,
{
    if cs.len() == 0 {
        Seq::empty()
    } else {
        seq![arrv(cs[0])] + view_children(cs.drop_first())
    }
}

impl View for ArrowArray {
    type V = ArrV;

    open spec fn view(&self) -> ArrV {
        arrv(*self)
    }
}

/// Views of a child-array list, element by element.
pub proof fn lemma_view_children(cs: Seq<ArrowArray>)
    ensures
        view_children(cs).len() == cs.len(),
        forall|i: int| 0 <= i < cs.len() ==> view_children(cs)[i] == arrv(cs[i]),
    decreases cs,
{
    if cs.len() > 0 {
        lemma_view_children(cs.drop_first());
    }
}

/// Number of rows of an array.
pub open spec fn alen(a: ArrV) -> nat {
    match a.data {
        ADataV::Unit => a.validity.len(),
        ADataV::Prims(v) => v.len(),
        ADataV::Bools(v) => v.len(),
        ADataV::Strs(v) => v.len(),
        ADataV::Bins(v) => v.len(),
        ADataV::List { offsets, .. } => if offsets.len() >= 1 {
            (offsets.len() - 1) as nat
        } else {
            0
        },
        ADataV::Fixed { len, .. } => len,
        ADataV::StructArr { len, .. } => len,
        ADataV::Dict { keys, .. } => keys.len(),
    }
}

impl ArrowArray {
    /// Number of rows.
    pub fn len(&self) -> (r: usize)
        ensures
            r == alen(self@),
    {
        match &self.data {
            ArrayData::Unit => self.validity.len(),
            ArrayData::Prims(v) => v.len(),
            ArrayData::Bools(v) => v.len(),
            ArrayData::Strs(v) => v.len(),
            ArrayData::Bins(v) => v.len(),
            ArrayData::List { offsets, .. } => {
                if offsets.len() >= 1 {
                    offsets.len() - 1
                } else {
                    0
                }
            },
            ArrayData::Fixed { len, .. } => *len,
            ArrayData::StructData { len, .. } => *len,
            ArrayData::Dict { keys, .. } => keys.len(),
        }
    }
}

impl Clone for ArrowArray {
    /// A deep copy with the same view.
    #[verifier::loop_isolation(false)]
    fn clone(&self) -> (r: Self)
        ensures
            r@ == self@,
        decreases self,
    {
        let data = match &self.data {
            ArrayData::Unit => ArrayData::Unit,
            ArrayData::Prims(v) => ArrayData::Prims(clone_prims(v)),
            ArrayData::Bools(v) => ArrayData::Bools(clone_prims(v)),
            ArrayData::Strs(v) => ArrayData::Strs(crate::dtype::clone_strings(v)),
            ArrayData::Bins(v) => ArrayData::Bins(clone_bins(v)),
            ArrayData::List { offsets, values } => ArrayData::List {
                offsets: clone_prims(offsets),
                values: Box::new((**values).clone()),
            },
            ArrayData::Fixed { len, values } => ArrayData::Fixed {
                len: *len,
                values: Box::new((**values).clone()),
            },
            ArrayData::StructData { len, children } => {
                let mut out: Vec<ArrowArray> = Vec::new();
                let mut i: usize = 0;
                while i < children.len()
                    invariant
                        i <= children.len(),
                        out@.len() == i,
                        forall|j: int| 0 <= j < i ==> #[trigger] out@[j]@ == children@[j]@,
                    decreases children.len() - i,
                {
                    out.push(children[i].clone());
                    i += 1;
                }
                proof {
                    lemma_view_children(out@);
                    lemma_view_children(children@);
                    assert forall|j: int| 0 <= j < children@.len() implies view_children(out@)[j]
                        == view_children(children@)[j] by {
                        assert(out@[j]@ == children@[j]@);
                    }
                    assert(view_children(out@) =~= view_children(children@));
                }
                ArrayData::StructData { len: *len, children: out }
            },
            ArrayData::Dict { keys, cats } => ArrayData::Dict {
                keys: clone_prims(keys),
                cats: crate::dtype::clone_strings(cats),
            },
        };
        ArrowArray { dtype: self.dtype.clone(), validity: clone_prims(&self.validity), data }
    }
}

} // verus!
