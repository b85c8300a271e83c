//! The type duality model: a column's logical type (`DataType`) versus the
//! flat physical layout it is stored in (`DataType::to_physical`).
//!
//! `DataType` is a closed, recursive tagged union. Every variant is always
//! declared; an engine build that lacks an optional capability rejects the
//! value at its boundary instead of removing the variant.
use vstd::prelude::*;

verus! {

/// Resolution of a datetime, duration or time-of-day column.
#[derive(Clone, Copy, PartialEq, Eq, Structural, Hash, Debug)]
pub enum TimeUnit {
    Nanoseconds,
    Microseconds,
    Milliseconds,
}

/// Width of the unsigned integer codes backing a categorical column.
#[derive(Clone, Copy, PartialEq, Eq, Structural, Hash, Debug)]
pub enum CategoricalPhysical {
    U8,
    U16,
    U32,
}

/// One named member of a struct column.
#[derive(Debug, PartialEq, Eq)]
pub struct Field {
    pub name: String,
    pub dtype: DataType,
}

/// A column's logical type: what the query sees.
///
/// Scalar leaves come first; `Struct`, `List` and `Array` nest recursively.
/// `Categorical` and `Enum` carry their dictionary (the category strings)
/// and the width of the stored codes; `Object` holds opaque boxed values.
#[derive(Debug, PartialEq, Eq)]
pub enum DataType {
    Null,
    Boolean,
    Int8,
    Int16,
    Int32,
    Int64,
    Int128,
    UInt8,
    UInt16,
    UInt32,
    UInt64,
    Float32,
    Float64,
    Utf8,
    Binary,
    Date,
    Datetime(TimeUnit, Option<String>),
    Duration(TimeUnit),
    Time,
    Decimal(usize, usize),
    Categorical(Vec<String>, CategoricalPhysical),
    Enum(Vec<String>, CategoricalPhysical),
    Struct(Vec<Field>),
    List(Box<DataType>),
    Array(Box<DataType>, usize),
    Object,
}

/// Mathematical mirror of `Field`.
pub struct FieldTy {
    pub name: Seq<char>,
    pub dtype: DTy,
}

/// Mathematical mirror of `DataType`. Nested children sit in sequences;
/// for `List` and `Array` the sequence always has exactly one element.
pub enum DTy {
    Null,
    Boolean,
    Int8,
    Int16,
    Int32,
    Int64,
    Int128,
    UInt8,
    UInt16,
    UInt32,
    UInt64,
    Float32,
    Float64,
    Utf8,
    Binary,
    Date,
    Datetime(TimeUnit, Option<Seq<char>>),
    Duration(TimeUnit),
    Time,
    Decimal(nat, nat),
    Categorical(Seq<Seq<char>>, CategoricalPhysical),
    Enum(Seq<Seq<char>>, CategoricalPhysical),
    Struct(Seq<FieldTy>),
    List(Seq<DTy>),
    Array(Seq<DTy>, nat),
    Object,
}

/// The views of a sequence of category or field-name strings.
pub open spec fn view_strs(ss: Seq<String>) -> Seq<Seq<char>> {
    ss.map_values(|s: String| s@)
}

/// View of one field.
pub open spec fn field_ty(f: Field) -> FieldTy
    decreases f,
{
    FieldTy { name: f.name@, dtype: dty(f.dtype) }
}

/// Views of a field list.
pub open spec fn view_fields(fs: Seq<Field>) -> Seq<FieldTy>
    decreases fs,
{
    if fs.len() == 0 {
        Seq::empty()
    } else {
        seq![field_ty(fs[0])] + view_fields(fs.drop_first())
    }
}

/// View of a logical type.
pub open spec fn dty(d: DataType) -> DTy
    decreases d,
{
    match d {
        DataType::Null => DTy::Null,
        DataType::Boolean => DTy::Boolean,
        DataType::Int8 => DTy::Int8,
        DataType::Int16 => DTy::Int16,
        DataType::Int32 => DTy::Int32,
        DataType::Int64 => DTy::Int64,
        DataType::Int128 => DTy::Int128,
        DataType::UInt8 => DTy::UInt8,
        DataType::UInt16 => DTy::UInt16,
        DataType::UInt32 => DTy::UInt32,
        DataType::UInt64 => DTy::UInt64,
        DataType::Float32 => DTy::Float32,
        DataType::Float64 => DTy::Float64,
        DataType::Utf8 => DTy::Utf8,
        DataType::Binary => DTy::Binary,
        DataType::Date => DTy::Date,
        DataType::Datetime(tu, tz) => DTy::Datetime(
            tu,
            match tz {
                Some(z) => Some(z@),
                None => None,
            },
        ),
        DataType::Duration(tu) => DTy::Duration(tu),
        DataType::Time => DTy::Time,
        DataType::Decimal(p, s) => DTy::Decimal(p as nat, s as nat),
        DataType::Categorical(cats, p) => DTy::Categorical(view_strs(cats@), p),
        DataType::Enum(cats, p) => DTy::Enum(view_strs(cats@), p),
        DataType::Struct(fs) => DTy::Struct(view_fields(fs@)),
        DataType::List(inner) => DTy::List(seq![dty(*inner)]),
        DataType::Array(inner, w) => DTy::Array(seq![dty(*inner)], w as nat),
        DataType::Object => DTy::Object,
    }
}

impl View for Field {
    type V = FieldTy;

    open spec fn view(&self) -> FieldTy {
        field_ty(*self)
    }
}

impl View for DataType {
    type V = DTy;

    open spec fn view(&self) -> DTy {
        dty(*self)
    }
}

/// Views of a field list, element by element.
pub proof fn lemma_view_fields(fs: Seq<Field>)
    ensures
        view_fields(fs).len() == fs.len(),
        forall|i: int| 0 <= i < fs.len() ==> view_fields(fs)[i] == field_ty(fs[i]),
    decreases fs,
{
    if fs.len() > 0 {
        lemma_view_fields(fs.drop_first());
    }
}

/// The unsigned integer type storing codes of the given width.
pub open spec fn code_dty(p: CategoricalPhysical) -> DTy {
    match p {
        CategoricalPhysical::U8 => DTy::UInt8,
        CategoricalPhysical::U16 => DTy::UInt16,
        CategoricalPhysical::U32 => DTy::UInt32,
    }
}

/// The physical storage type of a logical type: logical leaves collapse to
/// their flat representation, nested types map their children and keep
/// their shape.
pub open spec fn phys(d: DTy) -> DTy
    decreases d,
{
    match d {
        DTy::Date => DTy::Int32,
        DTy::Datetime(_, _) => DTy::Int64,
        DTy::Duration(_) => DTy::Int64,
        DTy::Time => DTy::Int64,
        DTy::Decimal(_, _) => DTy::Int128,
        DTy::Categorical(_, p) => code_dty(p),
        DTy::Enum(_, p) => code_dty(p),
        DTy::Struct(fs) => DTy::Struct(phys_fields(fs)),
        DTy::List(inner) => DTy::List(phys_list(inner)),
        DTy::Array(inner, w) => DTy::Array(phys_list(inner), w),
        _ => d,
    }
}

/// `phys`, mapped over a field list.
pub open spec fn phys_fields(fs: Seq<FieldTy>) -> Seq<FieldTy>
    decreases fs,
{
    if fs.len() == 0 {
        Seq::empty()
    } else {
        seq![FieldTy { name: fs[0].name, dtype: phys(fs[0].dtype) }] + phys_fields(
            fs.drop_first(),
        )
    }
}

/// `phys`, mapped over a child list.
pub open spec fn phys_list(ds: Seq<DTy>) -> Seq<DTy>
    decreases ds,
{
    if ds.len() == 0 {
        Seq::empty()
    } else {
        seq![phys(ds[0])] + phys_list(ds.drop_first())
    }
}

/// `phys_fields`, element by element.
pub proof fn lemma_phys_fields(fs: Seq<FieldTy>)
    ensures
        phys_fields(fs).len() == fs.len(),
        forall|i: int|
            0 <= i < fs.len() ==> phys_fields(fs)[i] == (FieldTy {
                name: fs[i].name,
                dtype: phys(fs[i].dtype),
            }),
    decreases fs,
{
    if fs.len() > 0 {
        lemma_phys_fields(fs.drop_first());
    }
}

/// `phys_list`, element by element.
pub proof fn lemma_phys_list(ds: Seq<DTy>)
    ensures
        phys_list(ds).len() == ds.len(),
        forall|i: int| 0 <= i < ds.len() ==> phys_list(ds)[i] == phys(ds[i]),
    decreases ds,
{
    if ds.len() > 0 {
        lemma_phys_list(ds.drop_first());
    }
}

/// The physical mapping is idempotent: a physical type is its own storage
/// type.
pub proof fn lemma_phys_idempotent(d: DTy)
    ensures
        phys(phys(d)) == phys(d),
    decreases d,
{
    match d {
        DTy::Struct(fs) => {
            lemma_phys_fields_idempotent(fs);
        },
        DTy::List(inner) => {
            lemma_phys_list_idempotent(inner);
        },
        DTy::Array(inner, _) => {
            lemma_phys_list_idempotent(inner);
        },
        _ => {},
    }
}

proof fn lemma_phys_fields_idempotent(fs: Seq<FieldTy>)
    ensures
        phys_fields(phys_fields(fs)) == phys_fields(fs),
    decreases fs,
{
    lemma_phys_fields(fs);
    lemma_phys_fields(phys_fields(fs));
    assert forall|i: int| 0 <= i < fs.len() implies phys_fields(phys_fields(fs))[i]
        == phys_fields(fs)[i] by {
        lemma_phys_idempotent(fs[i].dtype);
    }
    assert(phys_fields(phys_fields(fs)) =~= phys_fields(fs));
}

proof fn lemma_phys_list_idempotent(ds: Seq<DTy>)
    ensures
        phys_list(phys_list(ds)) == phys_list(ds),
    decreases ds,
{
    lemma_phys_list(ds);
    lemma_phys_list(phys_list(ds));
    assert forall|i: int| 0 <= i < ds.len() implies phys_list(phys_list(ds))[i] == phys_list(ds)[i]
        by {
        lemma_phys_idempotent(ds[i]);
    }
    assert(phys_list(phys_list(ds)) =~= phys_list(ds));
}

/// The physical mapping preserves the nesting shape: a struct stays a
/// struct with the same field names, a list stays a list, a fixed-size
/// array keeps its width.
pub proof fn lemma_phys_preserves_shape(d: DTy)
    ensures
        d matches DTy::Struct(fs) ==> phys(d) matches DTy::Struct(gs) && gs.len() == fs.len()
            && forall|i: int| 0 <= i < fs.len() ==> #[trigger] gs[i].name == fs[i].name,
        d matches DTy::List(inner) ==> phys(d) matches DTy::List(pin) && pin.len() == inner.len(),
        d matches DTy::Array(inner, w) ==> phys(d) matches DTy::Array(pin, w2) && w2 == w
            && pin.len() == inner.len(),
{
    match d {
        DTy::Struct(fs) => {
            lemma_phys_fields(fs);
        },
        DTy::List(inner) => {
            lemma_phys_list(inner);
        },
        DTy::Array(inner, _) => {
            lemma_phys_list(inner);
        },
        _ => {},
    }
}

impl DataType {
    /// The physical storage type: pure, total, and idempotent; children of
    /// nested types map recursively, the shape stays.
    #[verifier::loop_isolation(false)]
    pub fn to_physical(&self) -> (r: DataType)
        ensures
            r@ == phys(self@),
        decreases self,
    {
        match self {
            DataType::Null => DataType::Null,
            DataType::Boolean => DataType::Boolean,
            DataType::Int8 => DataType::Int8,
            DataType::Int16 => DataType::Int16,
            DataType::Int32 => DataType::Int32,
            DataType::Int64 => DataType::Int64,
            DataType::Int128 => DataType::Int128,
            DataType::UInt8 => DataType::UInt8,
            DataType::UInt16 => DataType::UInt16,
            DataType::UInt32 => DataType::UInt32,
            DataType::UInt64 => DataType::UInt64,
            DataType::Float32 => DataType::Float32,
            DataType::Float64 => DataType::Float64,
            DataType::Utf8 => DataType::Utf8,
            DataType::Binary => DataType::Binary,
            DataType::Date => DataType::Int32,
            DataType::Datetime(_, _) => DataType::Int64,
            DataType::Duration(_) => DataType::Int64,
            DataType::Time => DataType::Int64,
            DataType::Decimal(_, _) => DataType::Int128,
            DataType::Categorical(_, p) => p.code_dtype(),
            DataType::Enum(_, p) => p.code_dtype(),
            DataType::Struct(fields) => {
                let mut out: Vec<Field> = Vec::new();
                let mut i: usize = 0;
                while i < fields.len()
                    invariant
                        i <= fields.len(),
                        out@.len() == i,
                        forall|j: int|
                            0 <= j < i ==> #[trigger] out@[j].name@ == fields@[j].name@ && dty(
                                out@[j].dtype,
                            ) == phys(dty(fields@[j].dtype)),
                    decreases fields.len() - i,
                {
                    let f = &fields[i];
                    out.push(Field { name: f.name.clone(), dtype: f.dtype.to_physical() });
                    i += 1;
                }
                proof {
                    lemma_view_fields(out@);
                    lemma_view_fields(fields@);
                    lemma_phys_fields(view_fields(fields@));
                    assert(view_fields(out@) =~= phys_fields(view_fields(fields@)));
                }
                DataType::Struct(out)
            },
            DataType::List(inner) => {
                let p = inner.to_physical();
                proof {
                    lemma_phys_list(seq![dty(**inner)]);
                    assert(seq![dty(p)] =~= phys_list(seq![dty(**inner)]));
                }
                DataType::List(Box::new(p))
            },
            DataType::Array(inner, w) => {
                let p = inner.to_physical();
                proof {
                    lemma_phys_list(seq![dty(**inner)]);
                    assert(seq![dty(p)] =~= phys_list(seq![dty(**inner)]));
                }
                DataType::Array(Box::new(p), *w)
            },
            DataType::Object => DataType::Object,
        }
    }
}

impl CategoricalPhysical {
    /// The unsigned integer type storing codes of this width.
    pub fn code_dtype(&self) -> (r: DataType)
        ensures
            r@ == code_dty(*self),
    {
        match self {
            CategoricalPhysical::U8 => DataType::UInt8,
            CategoricalPhysical::U16 => DataType::UInt16,
            CategoricalPhysical::U32 => DataType::UInt32,
        }
    }
}

/// Copy a string list, keeping each string's characters.
pub fn clone_strings(v: &Vec<String>) -> (r: Vec<String>)
    ensures
        view_strs(r@) == view_strs(v@),
{
    let mut out: Vec<String> = Vec::new();
    let mut i: usize = 0;
    while i < v.len()
        invariant
            i <= v.len(),
            out@.len() == i,
            forall|j: int| 0 <= j < i ==> #[trigger] out@[j]@ == v@[j]@,
        decreases v.len() - i,
    {
        out.push(v[i].clone());
        i += 1;
    }
    proof {
        assert(view_strs(out@) =~= view_strs(v@));
    }
    out
}

impl Clone for Field {
    fn clone(&self) -> (r: Self)
        ensures
            r@ == self@,
        decreases self,
    {
        Field { name: self.name.clone(), dtype: self.dtype.clone() }
    }
}

impl Clone for DataType {
    /// A deep copy with the same view.
    #[verifier::loop_isolation(false)]
    fn clone(&self) -> (r: Self)
        ensures
            r@ == self@,
        decreases self,
    {
        match self {
            DataType::Null => DataType::Null,
            DataType::Boolean => DataType::Boolean,
            DataType::Int8 => DataType::Int8,
            DataType::Int16 => DataType::Int16,
            DataType::Int32 => DataType::Int32,
            DataType::Int64 => DataType::Int64,
            DataType::Int128 => DataType::Int128,
            DataType::UInt8 => DataType::UInt8,
            DataType::UInt16 => DataType::UInt16,
            DataType::UInt32 => DataType::UInt32,
            DataType::UInt64 => DataType::UInt64,
            DataType::Float32 => DataType::Float32,
            DataType::Float64 => DataType::Float64,
            DataType::Utf8 => DataType::Utf8,
            DataType::Binary => DataType::Binary,
            DataType::Date => DataType::Date,
            DataType::Datetime(tu, tz) => DataType::Datetime(
                *tu,
                match tz {
                    Some(z) => Some(z.clone()),
                    None => None,
                },
            ),
            DataType::Duration(tu) => DataType::Duration(*tu),
            DataType::Time => DataType::Time,
            DataType::Decimal(p, s) => DataType::Decimal(*p, *s),
            DataType::Categorical(cats, p) => DataType::Categorical(clone_strings(cats), *p),
            DataType::Enum(cats, p) => DataType::Enum(clone_strings(cats), *p),
            DataType::Struct(fields) => {
                let mut out: Vec<Field> = Vec::new();
                let mut i: usize = 0;
                while i < fields.len()
                    invariant
                        i <= fields.len(),
                        out@.len() == i,
                        forall|j: int| 0 <= j < i ==> #[trigger] out@[j]@ == fields@[j]@,
                    decreases fields.len() - i,
                {
                    out.push(fields[i].clone());
                    i += 1;
                }
                proof {
                    lemma_view_fields(out@);
                    lemma_view_fields(fields@);
                    assert forall|j: int| 0 <= j < fields@.len() implies view_fields(out@)[j]
                        == view_fields(fields@)[j] by {
                        assert(out@[j]@ == fields@[j]@);
                    }
                    assert(view_fields(out@) =~= view_fields(fields@));
                }
                DataType::Struct(out)
            },
            DataType::List(inner) => DataType::List(Box::new((**inner).clone())),
            DataType::Array(inner, w) => DataType::Array(Box::new((**inner).clone()), *w),
            DataType::Object => DataType::Object,
        }
    }
}

} // verus!
