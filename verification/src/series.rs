//! A named, chunked column and its materializer: each chunk is stored in
//! the flat physical layout of the column's logical type, and
//! `Series::to_arrow` re-expresses one chunk as a canonical interchange
//! array, recursing through nested types.
use vstd::prelude::*;

use crate::array::{
    alen, arrow_dtype_of, arrv, clone_bins, clone_prims, lemma_view_children, view_children, ADTy,
    ADataV, ArrV, ArrayData, ArrowArray, ArrowDataType, CompatLevel,
};
use crate::dtype::{
    clone_strings, dty, field_ty, lemma_view_fields, phys, view_fields, DTy, DataType, FieldTy,
};

verus! {

/// A named, chunked column: physical-array chunks plus one logical type
/// shared by all chunks.
#[derive(Debug)]
pub struct Series {
    pub name: String,
    pub dtype: DataType,
    pub chunks: Vec<ArrowArray>,
}

/// Whether one stored chunk is laid out as the physical form of the given
/// logical type: the chunk's type tag is the interchange form of
/// `phys(dt)`, its null bitmap covers every row, and nested children are
/// themselves laid out physically.
pub open spec fn wf_chunk(dt: DTy, a: ArrV) -> bool
    decreases dt,
{
    &&& a.dtype == arrow_dtype_of(phys(dt), 1)
    &&& a.validity.len() == alen(a)
    &&& match dt {
        DTy::Null => a.data is Unit,
        DTy::Boolean => a.data is Bools,
        DTy::Utf8 => a.data is Strs,
        DTy::Binary => a.data is Bins,
        DTy::Struct(fs) => a.data matches ADataV::StructArr { len, children }
            && wf_struct_children(fs, children),
        DTy::List(inner) => inner.len() == 1 && (a.data matches ADataV::List { offsets, values }
            && offsets.len() >= 1 && values.len() == 1 && wf_chunk(inner[0], values[0])),
        DTy::Array(inner, w) => inner.len() == 1 && (a.data matches ADataV::Fixed { len, values }
            && values.len() == 1 && wf_chunk(inner[0], values[0])),
        _ => a.data is Prims,
    }
}

/// `wf_chunk` of each struct child against its field's type.
pub open spec fn wf_struct_children(fs: Seq<FieldTy>, cs: Seq<ArrV>) -> bool
    decreases fs,
{
    if fs.len() != cs.len() {
        false
    } else if fs.len() == 0 {
        true
    } else {
        wf_chunk(fs[0].dtype, cs[0]) && wf_struct_children(fs.drop_first(), cs.drop_first())
    }
}

/// `wf_struct_children`, element by element.
pub proof fn lemma_wf_struct_children(fs: Seq<FieldTy>, cs: Seq<ArrV>)
    requires
        wf_struct_children(fs, cs),
    ensures
        cs.len() == fs.len(),
        forall|i: int| 0 <= i < fs.len() ==> wf_chunk(fs[i].dtype, #[trigger] cs[i]),
    decreases fs,
{
    if fs.len() > 0 {
        lemma_wf_struct_children(fs.drop_first(), cs.drop_first());
        assert forall|i: int| 0 <= i < fs.len() implies wf_chunk(fs[i].dtype, #[trigger] cs[i]) by {
            if i > 0 {
                assert(cs[i] == cs.drop_first()[i - 1]);
                assert(fs[i] == fs.drop_first()[i - 1]);
            }
        }
    }
}

/// The canonical interchange array for one stored chunk: logical wrappers
/// are re-expressed recursively, buffers and null bitmaps pass through
/// unchanged.
pub open spec fn conv(dt: DTy, a: ArrV, compat: u16) -> ArrV
    decreases dt,
{
    match dt {
        DTy::Struct(fs) => match a.data {
            ADataV::StructArr { len, children } => ArrV {
                dtype: arrow_dtype_of(dt, compat),
                validity: a.validity,
                data: ADataV::StructArr { len, children: conv_fields(fs, children, compat) },
            },
            _ => a,
        },
        DTy::List(inner) => match a.data {
            ADataV::List { offsets, values } => {
                let nv = if inner.len() == 1 && !(inner[0] is Null) {
                    seq![conv(inner[0], values[0], compat)]
                } else {
                    values
                };
                ArrV {
                    dtype: arrow_dtype_of(dt, compat),
                    validity: a.validity,
                    data: ADataV::List { offsets, values: nv },
                }
            },
            _ => a,
        },
        DTy::Array(inner, w) => match a.data {
            ADataV::Fixed { len, values } => {
                let nv = if inner.len() == 1 && !(inner[0] is Null) {
                    seq![conv(inner[0], values[0], compat)]
                } else {
                    values
                };
                ArrV {
                    dtype: arrow_dtype_of(dt, compat),
                    validity: a.validity,
                    data: ADataV::Fixed { len, values: nv },
                }
            },
            _ => a,
        },
        DTy::Categorical(cats, p) => match a.data {
            ADataV::Prims(keys) => ArrV {
                dtype: ADTy::Dictionary(p),
                validity: a.validity,
                data: ADataV::Dict { keys, cats },
            },
            _ => a,
        },
        DTy::Enum(cats, p) => match a.data {
            ADataV::Prims(keys) => ArrV {
                dtype: ADTy::Dictionary(p),
                validity: a.validity,
                data: ADataV::Dict { keys, cats },
            },
            _ => a,
        },
        DTy::Date | DTy::Datetime(_, _) | DTy::Duration(_) | DTy::Time | DTy::Decimal(_, _) => ArrV {
            dtype: arrow_dtype_of(dt, compat),
            validity: a.validity,
            data: a.data,
        },
        DTy::Object => ArrV { dtype: ADTy::Opaque, validity: a.validity, data: a.data },
        DTy::Utf8 => if compat >= 1 {
            a
        } else {
            ArrV { dtype: ADTy::LargeUtf8, validity: a.validity, data: a.data }
        },
        DTy::Binary => if compat >= 1 {
            a
        } else {
            ArrV { dtype: ADTy::LargeBinary, validity: a.validity, data: a.data }
        },
        _ => a,
    }
}

/// `conv` of each struct child against its field's type, in field order.
pub open spec fn conv_fields(fs: Seq<FieldTy>, cs: Seq<ArrV>, compat: u16) -> Seq<ArrV>
    decreases fs,
{
    if fs.len() == 0 || cs.len() == 0 {
        Seq::empty()
    } else {
        seq![conv(fs[0].dtype, cs[0], compat)] + conv_fields(fs.drop_first(), cs.drop_first(), compat)
    }
}

/// `conv_fields`, element by element.
pub proof fn lemma_conv_fields(fs: Seq<FieldTy>, cs: Seq<ArrV>, compat: u16)
    requires
        fs.len() == cs.len(),
    ensures
        conv_fields(fs, cs, compat).len() == fs.len(),
        forall|i: int| 0 <= i < fs.len() ==> conv_fields(fs, cs, compat)[i] == conv(
            fs[i].dtype,
            cs[i],
            compat,
        ),
    decreases fs,
{
    if fs.len() > 0 {
        lemma_conv_fields(fs.drop_first(), cs.drop_first(), compat);
    }
}

/// Only the null logical type views as the null mirror.
pub proof fn lemma_dty_null(d: DataType)
    ensures
        dty(d) is Null <==> d is Null,
{
    match d {
        DataType::Null => {},
        _ => {},
    }
}

/// Materialize one stored chunk of the given logical type, recursing
/// through nested children.
#[verifier::loop_isolation(false)]
pub fn conv_chunk(dt: &DataType, a: &ArrowArray, compat_level: CompatLevel) -> (r: ArrowArray)
    requires
        wf_chunk(dt@, a@),
    ensures
        r@ == conv(dt@, a@, compat_level.0),
    decreases dt,
{
    match dt {
        DataType::Struct(fields) => {
            match &a.data {
                ArrayData::StructData { len, children } => {
                    proof {
                        lemma_view_fields(fields@);
                        lemma_view_children(children@);
                        lemma_wf_struct_children(view_fields(fields@), view_children(children@));
                    }
                    let mut out: Vec<ArrowArray> = Vec::new();
                    let mut i: usize = 0;
                    while i < children.len()
                        invariant
                            i <= children.len(),
                            out@.len() == i,
                            forall|j: int|
                                0 <= j < i ==> #[trigger] out@[j]@ == conv(
                                    dty(fields@[j].dtype),
                                    arrv(children@[j]),
                                    compat_level.0,
                                ),
                        decreases children.len() - i,
                    {
                        proof {
                            assert(view_fields(fields@)[i as int] == field_ty(fields@[i as int]));
                            assert(view_children(children@)[i as int] == arrv(
                                children@[i as int],
                            ));
                            assert(wf_chunk(
                                view_fields(fields@)[i as int].dtype,
                                view_children(children@)[i as int],
                            ));
                        }
                        out.push(conv_chunk(&fields[i].dtype, &children[i], compat_level));
                        i += 1;
                    }
                    proof {
                        lemma_view_children(out@);
                        lemma_conv_fields(
                            view_fields(fields@),
                            view_children(children@),
                            compat_level.0,
                        );
                        assert forall|j: int| 0 <= j < children@.len() implies view_children(
                            out@,
                        )[j] == conv_fields(
                            view_fields(fields@),
                            view_children(children@),
                            compat_level.0,
                        )[j] by {
                            assert(out@[j]@ == conv(
                                dty(fields@[j].dtype),
                                arrv(children@[j]),
                                compat_level.0,
                            ));
                            assert(view_fields(fields@)[j] == field_ty(fields@[j]));
                            assert(view_children(children@)[j] == arrv(children@[j]));
                        }
                        assert(view_children(out@) =~= conv_fields(
                            view_fields(fields@),
                            view_children(children@),
                            compat_level.0,
                        ));
                    }
                    ArrowArray {
                        dtype: dt.to_arrow(compat_level),
                        validity: clone_prims(&a.validity),
                        data: ArrayData::StructData { len: *len, children: out },
                    }
                },
                _ => vstd::pervasive::unreached(),
            }
        },
        DataType::List(inner) => {
            match &a.data {
                ArrayData::List { offsets, values } => {
                    let new_values: ArrowArray = if matches!(**inner, DataType::Null) {
                        (**values).clone()
                    } else {
                        proof {
                            lemma_dty_null(**inner);
                        }
                        conv_chunk(inner, values, compat_level)
                    };
                    ArrowArray {
                        dtype: dt.to_arrow(compat_level),
                        validity: clone_prims(&a.validity),
                        data: ArrayData::List {
                            offsets: clone_prims(offsets),
                            values: Box::new(new_values),
                        },
                    }
                },
                _ => vstd::pervasive::unreached(),
            }
        },
        DataType::Array(inner, w) => {
            match &a.data {
                ArrayData::Fixed { len, values } => {
                    let new_values: ArrowArray = if matches!(**inner, DataType::Null) {
                        (**values).clone()
                    } else {
                        proof {
                            lemma_dty_null(**inner);
                        }
                        conv_chunk(inner, values, compat_level)
                    };
                    ArrowArray {
                        dtype: dt.to_arrow(compat_level),
                        validity: clone_prims(&a.validity),
                        data: ArrayData::Fixed { len: *len, values: Box::new(new_values) },
                    }
                },
                _ => vstd::pervasive::unreached(),
            }
        },
        DataType::Categorical(cats, p) => {
            match &a.data {
                ArrayData::Prims(keys) => ArrowArray {
                    dtype: ArrowDataType::Dictionary(*p),
                    validity: clone_prims(&a.validity),
                    data: ArrayData::Dict { keys: clone_prims(keys), cats: clone_strings(cats) },
                },
                _ => vstd::pervasive::unreached(),
            }
        },
        DataType::Enum(cats, p) => {
            match &a.data {
                ArrayData::Prims(keys) => ArrowArray {
                    dtype: ArrowDataType::Dictionary(*p),
                    validity: clone_prims(&a.validity),
                    data: ArrayData::Dict { keys: clone_prims(keys), cats: clone_strings(cats) },
                },
                _ => vstd::pervasive::unreached(),
            }
        },
        DataType::Date | DataType::Datetime(_, _) | DataType::Duration(_) | DataType::Time
            | DataType::Decimal(_, _) => {
            match &a.data {
                ArrayData::Prims(v) => ArrowArray {
                    dtype: dt.to_arrow(compat_level),
                    validity: clone_prims(&a.validity),
                    data: ArrayData::Prims(clone_prims(v)),
                },
                _ => vstd::pervasive::unreached(),
            }
        },
        DataType::Object => {
            match &a.data {
                ArrayData::Prims(v) => ArrowArray {
                    dtype: ArrowDataType::Opaque,
                    validity: clone_prims(&a.validity),
                    data: ArrayData::Prims(clone_prims(v)),
                },
                _ => vstd::pervasive::unreached(),
            }
        },
        DataType::Utf8 => {
            if compat_level.0 >= 1 {
                a.clone()
            } else {
                match &a.data {
                    ArrayData::Strs(v) => ArrowArray {
                        dtype: ArrowDataType::LargeUtf8,
                        validity: clone_prims(&a.validity),
                        data: ArrayData::Strs(clone_strings(v)),
                    },
                    _ => vstd::pervasive::unreached(),
                }
            }
        },
        DataType::Binary => {
            if compat_level.0 >= 1 {
                a.clone()
            } else {
                match &a.data {
                    ArrayData::Bins(v) => ArrowArray {
                        dtype: ArrowDataType::LargeBinary,
                        validity: clone_prims(&a.validity),
                        data: ArrayData::Bins(clone_bins(v)),
                    },
                    _ => vstd::pervasive::unreached(),
                }
            }
        },
        _ => a.clone(),
    }
}

impl Series {
    /// The views of this column's chunks.
    pub open spec fn chunk_views(&self) -> Seq<ArrV> {
        view_children(self.chunks@)
    }

    /// The column invariant: every chunk is laid out as the physical form
    /// of the column's logical type, and the total row count fits the
    /// machine.
    pub open spec fn wf(&self) -> bool {
        &&& forall|i: int|
            0 <= i < self.chunk_views().len() ==> wf_chunk(
                self.dtype@,
                #[trigger] self.chunk_views()[i],
            )
        &&& total_len(self.chunk_views()) <= usize::MAX
    }

    /// Internal-style constructor: the caller vouches that every chunk is
    /// laid out as `to_physical` of the type requires; the invariant is
    /// established here once and never re-checked during recursion.
    pub fn from_chunks_and_dtype(name: String, chunks: Vec<ArrowArray>, dtype: DataType) -> (r:
        Series)
        requires
            forall|i: int|
                0 <= i < view_children(chunks@).len() ==> wf_chunk(
                    dtype@,
                    #[trigger] view_children(chunks@)[i],
                ),
            total_len(view_children(chunks@)) <= usize::MAX,
        ensures
            r.name == name,
            r.dtype == dtype,
            r.chunks == chunks,
            r.wf(),
    {
        Series { name, dtype, chunks }
    }

    /// A borrow of the stored physical array of one chunk.
    pub fn array_ref(&self, chunk_idx: usize) -> (r: &ArrowArray)
        requires
            chunk_idx < self.chunks@.len(),
        ensures
            *r == self.chunks@[chunk_idx as int],
    {
        &self.chunks[chunk_idx]
    }
}

/// Rows before chunk `k`: the sum of the lengths of the chunks ahead of it.
pub open spec fn offset_of(cs: Seq<ArrV>, k: int) -> nat
    decreases k,
{
    if k <= 0 || cs.len() == 0 {
        0
    } else {
        alen(cs[0]) + offset_of(cs.drop_first(), k - 1)
    }
}

/// Total rows over all chunks.
pub open spec fn total_len(cs: Seq<ArrV>) -> nat {
    offset_of(cs, cs.len() as int)
}

/// The flat payload of one opaque-value chunk.
pub open spec fn tokens_of(a: ArrV) -> Seq<i128> {
    match a.data {
        ADataV::Prims(v) => v,
        _ => Seq::empty(),
    }
}

/// All chunk payloads, laid end to end.
pub open spec fn concat_tokens(cs: Seq<ArrV>) -> Seq<i128>
    decreases cs,
{
    if cs.len() == 0 {
        Seq::empty()
    } else {
        tokens_of(cs[0]) + concat_tokens(cs.drop_first())
    }
}

/// All chunk null bitmaps, laid end to end.
pub open spec fn concat_validity(cs: Seq<ArrV>) -> Seq<bool>
    decreases cs,
{
    if cs.len() == 0 {
        Seq::empty()
    } else {
        cs[0].validity + concat_validity(cs.drop_first())
    }
}

/// Every chunk holds a flat payload covered by its bitmap.
pub open spec fn flat_object_chunks(cs: Seq<ArrV>) -> bool {
    forall|j: int|
        0 <= j < cs.len() ==> (#[trigger] cs[j].data) is Prims && cs[j].validity.len() == alen(
            cs[j],
        )
}

pub proof fn lemma_offset_step(cs: Seq<ArrV>, k: int)
    requires
        0 <= k < cs.len(),
    ensures
        offset_of(cs, k + 1) == offset_of(cs, k) + alen(cs[k]),
    decreases k,
{
    if k > 0 {
        lemma_offset_step(cs.drop_first(), k - 1);
        assert(cs.drop_first()[k - 1] == cs[k]);
        assert(offset_of(cs, k + 1) == alen(cs[0]) + offset_of(cs.drop_first(), k));
        assert(offset_of(cs, k) == alen(cs[0]) + offset_of(cs.drop_first(), k - 1));
    } else {
        assert(offset_of(cs.drop_first(), 0) == 0);
        assert(offset_of(cs, 1) == alen(cs[0]) + offset_of(cs.drop_first(), 0));
    }
}

/// Concatenation over a single chunk is that chunk's payload and bitmap.
pub proof fn lemma_concat_singleton(cs: Seq<ArrV>)
    requires
        cs.len() == 1,
    ensures
        concat_tokens(cs) == tokens_of(cs[0]),
        concat_validity(cs) == cs[0].validity,
        total_len(cs) == alen(cs[0]),
{
    assert(cs.drop_first().len() == 0);
    assert(concat_tokens(cs.drop_first()) == Seq::<i128>::empty());
    assert(concat_validity(cs.drop_first()) == Seq::<bool>::empty());
    assert(tokens_of(cs[0]) + Seq::<i128>::empty() =~= tokens_of(cs[0]));
    assert(cs[0].validity + Seq::<bool>::empty() =~= cs[0].validity);
    assert(offset_of(cs.drop_first(), 0) == 0);
}

pub proof fn lemma_offset_le(cs: Seq<ArrV>, j: int, k: int)
    requires
        0 <= j <= k <= cs.len(),
    ensures
        offset_of(cs, j) <= offset_of(cs, k),
    decreases k - j,
{
    if j < k {
        lemma_offset_step(cs, k - 1);
        lemma_offset_le(cs, j, k - 1);
    }
}

pub proof fn lemma_concat_lens(cs: Seq<ArrV>)
    requires
        flat_object_chunks(cs),
    ensures
        concat_tokens(cs).len() == total_len(cs),
        concat_validity(cs).len() == total_len(cs),
    decreases cs,
{
    if cs.len() > 0 {
        assert(flat_object_chunks(cs.drop_first())) by {
            assert forall|j: int|
                0 <= j < cs.drop_first().len() implies (#[trigger] cs.drop_first()[j].data)
                is Prims && cs.drop_first()[j].validity.len() == alen(cs.drop_first()[j]) by {
                assert(cs.drop_first()[j] == cs[j + 1]);
            }
        }
        lemma_concat_lens(cs.drop_first());
        lemma_offset_step(cs, cs.len() - 1);
        assert(total_len(cs) == alen(cs[0]) + total_len(cs.drop_first())) by {
            lemma_total_len_unfold(cs);
        }
    }
}

/// The window of the concatenated payload that belongs to chunk `k` is
/// exactly that chunk's payload and bitmap.
pub proof fn lemma_object_window(cs: Seq<ArrV>, k: int)
    requires
        flat_object_chunks(cs),
        0 <= k < cs.len(),
    ensures
        offset_of(cs, k) + alen(cs[k]) <= total_len(cs),
        concat_tokens(cs).subrange(
            offset_of(cs, k) as int,
            (offset_of(cs, k) + alen(cs[k])) as int,
        ) == tokens_of(cs[k]),
        concat_validity(cs).subrange(
            offset_of(cs, k) as int,
            (offset_of(cs, k) + alen(cs[k])) as int,
        ) == cs[k].validity,
    decreases k,
{
    lemma_concat_lens(cs);
    lemma_offset_step(cs, k);
    lemma_offset_le(cs, k + 1, cs.len() as int);
    assert(flat_object_chunks(cs.drop_first())) by {
        assert forall|j: int|
            0 <= j < cs.drop_first().len() implies (#[trigger] cs.drop_first()[j].data) is Prims
            && cs.drop_first()[j].validity.len() == alen(cs.drop_first()[j]) by {
            assert(cs.drop_first()[j] == cs[j + 1]);
        }
    }
    if k == 0 {
        assert(concat_tokens(cs).subrange(0, alen(cs[0]) as int) =~= tokens_of(cs[0]));
        assert(concat_validity(cs).subrange(0, alen(cs[0]) as int) =~= cs[0].validity);
    } else {
        lemma_object_window(cs.drop_first(), k - 1);
        lemma_concat_lens(cs.drop_first());
        assert(cs.drop_first()[k - 1] == cs[k]);
        let o = offset_of(cs, k) as int;
        let o2 = offset_of(cs.drop_first(), k - 1) as int;
        assert(o == alen(cs[0]) + o2);
        assert(concat_tokens(cs).subrange(o, o + alen(cs[k])) =~= concat_tokens(
            cs.drop_first(),
        ).subrange(o2, o2 + alen(cs[k])));
        assert(concat_validity(cs).subrange(o, o + alen(cs[k])) =~= concat_validity(
            cs.drop_first(),
        ).subrange(o2, o2 + alen(cs[k])));
    }
}

/// Copy rows `start..end` of a flat buffer.
pub fn copy_range<T: Copy>(v: &Vec<T>, start: usize, end: usize) -> (r: Vec<T>)
    requires
        start <= end <= v@.len(),
    ensures
        r@ == v@.subrange(start as int, end as int),
{
    let mut out: Vec<T> = Vec::new();
    let mut i: usize = start;
    while i < end
        invariant
            start <= i <= end <= v@.len(),
            out@.len() == i - start,
            forall|j: int| 0 <= j < out@.len() ==> out@[j] == v@[start + j],
        decreases end - i,
    {
        out.push(v[i]);
        i += 1;
    }
    proof {
        assert(out@ =~= v@.subrange(start as int, end as int));
    }
    out
}

/// Append a flat buffer to another.
pub fn extend_prims<T: Copy>(dst: &mut Vec<T>, src: &Vec<T>)
    ensures
        final(dst)@ == old(dst)@ + src@,
{
    let mut i: usize = 0;
    while i < src.len()
        invariant
            i <= src.len(),
            dst@ == old(dst)@ + src@.take(i as int),
        decreases src.len() - i,
    {
        dst.push(src[i]);
        proof {
            assert(old(dst)@ + src@.take(i + 1) =~= (old(dst)@ + src@.take(i as int)).push(
                src@[i as int],
            ));
        }
        i += 1;
    }
    proof {
        assert(src@.take(src@.len() as int) =~= src@);
    }
}

impl Series {
    /// Total number of rows over all chunks.
    pub fn len(&self) -> (r: usize)
        requires
            self.wf(),
        ensures
            r == total_len(self.chunk_views()),
    {
        proof {
            lemma_view_children(self.chunks@);
        }
        let ghost views = self.chunk_views();
        let mut acc: usize = 0;
        let mut k: usize = 0;
        while k < self.chunks.len()
            invariant
                self.wf(),
                views == self.chunk_views(),
                k <= self.chunks@.len(),
                views.len() == self.chunks@.len(),
                forall|i: int| 0 <= i < views.len() ==> views[i] == arrv(self.chunks@[i]),
                acc == offset_of(views, k as int),
            decreases self.chunks@.len() - k,
        {
            proof {
                lemma_offset_step(views, k as int);
                lemma_offset_le(views, k as int + 1, views.len() as int);
            }
            acc = acc + self.chunks[k].len();
            k += 1;
        }
        acc
    }
}

/// Convert a whole opaque-value column into one interchange array: every
/// chunk's payload and bitmap, laid end to end.
#[verifier::loop_isolation(false)]
fn object_series_to_arrow_array(s: &Series) -> (r: ArrowArray)
    requires
        s.wf(),
        s.dtype@ is Object,
    ensures
        r@ == (ArrV {
            dtype: ADTy::Opaque,
            validity: concat_validity(s.chunk_views()),
            data: ADataV::Prims(concat_tokens(s.chunk_views())),
        }),
{
    proof {
        lemma_view_children(s.chunks@);
    }
    let ghost views = s.chunk_views();
    let mut toks: Vec<i128> = Vec::new();
    let mut vals: Vec<bool> = Vec::new();
    proof {
        assert(views.skip(0) =~= views);
        assert(toks@ + concat_tokens(views) =~= concat_tokens(views));
        assert(vals@ + concat_validity(views) =~= concat_validity(views));
    }
    let mut k: usize = 0;
    while k < s.chunks.len()
        invariant
            k <= s.chunks@.len(),
            toks@ + concat_tokens(views.skip(k as int)) == concat_tokens(views),
            vals@ + concat_validity(views.skip(k as int)) == concat_validity(views),
        decreases s.chunks@.len() - k,
    {
        let c = &s.chunks[k];
        proof {
            assert(views[k as int] == arrv(s.chunks@[k as int]));
            assert(wf_chunk(s.dtype@, views[k as int]));
            assert(views.skip(k as int)[0] == views[k as int]);
            assert(views.skip(k as int).drop_first() =~= views.skip(k as int + 1));
        }
        match &c.data {
            ArrayData::Prims(v) => {
                let ghost old_toks = toks@;
                extend_prims(&mut toks, v);
                proof {
                    assert(tokens_of(views[k as int]) == v@);
                    assert((old_toks + v@) + concat_tokens(views.skip(k as int + 1)) =~= old_toks
                        + (v@ + concat_tokens(views.skip(k as int + 1))));
                }
            },
            _ => vstd::pervasive::unreached(),
        }
        let ghost old_vals = vals@;
        extend_prims(&mut vals, &c.validity);
        proof {
            assert(views[k as int].validity == c.validity@);
            assert((old_vals + c.validity@) + concat_validity(views.skip(k as int + 1)) =~= old_vals
                + (c.validity@ + concat_validity(views.skip(k as int + 1))));
        }
        k += 1;
    }
    proof {
        assert(views.skip(views.len() as int) =~= Seq::<ArrV>::empty());
        assert(toks@ + Seq::<i128>::empty() =~= toks@);
        assert(vals@ + Seq::<bool>::empty() =~= vals@);
    }
    ArrowArray { dtype: ArrowDataType::Opaque, validity: vals, data: ArrayData::Prims(toks) }
}

impl Series {
    /// Cut the column down to the rows `offset..offset + length`,
    /// regathered into a single chunk.
    #[verifier::loop_isolation(false)]
    fn slice(&self, offset: usize, length: usize) -> (r: Series)
        requires
            self.wf(),
            self.dtype@ is Object,
            offset + length <= total_len(self.chunk_views()),
        ensures
            r.wf(),
            r.dtype@ is Object,
            r.chunk_views() =~= seq![
                ArrV {
                    dtype: ADTy::Opaque,
                    validity: concat_validity(self.chunk_views()).subrange(
                        offset as int,
                        offset + length,
                    ),
                    data: ADataV::Prims(
                        concat_tokens(self.chunk_views()).subrange(offset as int, offset + length),
                    ),
                },
            ],
    {
        proof {
            lemma_view_children(self.chunks@);
            assert(flat_object_chunks(self.chunk_views())) by {
                assert forall|j: int|
                    0 <= j < self.chunk_views().len() implies (#[trigger] self.chunk_views()[j].data)
                    is Prims && self.chunk_views()[j].validity.len() == alen(
                    self.chunk_views()[j],
                ) by {
                    assert(wf_chunk(self.dtype@, self.chunk_views()[j]));
                }
            }
            lemma_concat_lens(self.chunk_views());
        }
        let full = object_series_to_arrow_array(self);
        match full.data {
            ArrayData::Prims(toks) => {
                let t = copy_range(&toks, offset, offset + length);
                let v = copy_range(&full.validity, offset, offset + length);
                let chunk = ArrowArray {
                    dtype: ArrowDataType::Opaque,
                    validity: v,
                    data: ArrayData::Prims(t),
                };
                let chunks = vec![chunk];
                proof {
                    lemma_view_children(chunks@);
                    assert(view_children(chunks@) =~= seq![arrv(chunks@[0])]);
                    assert(wf_chunk(DTy::Object, arrv(chunks@[0])));
                    lemma_concat_singleton(seq![arrv(chunks@[0])]);
                }
                Series { name: self.name.clone(), dtype: DataType::Object, chunks }
            },
            _ => vstd::pervasive::unreached(),
        }
    }

    /// Total nulls over all chunks.
    #[verifier::loop_isolation(false)]
    pub fn null_count(&self) -> (r: usize)
        requires
            self.wf(),
        ensures
            r == series_null_count(self.chunk_views()),
    {
        proof {
            lemma_view_children(self.chunks@);
            assert(all_covered(self.chunk_views())) by {
                assert forall|j: int|
                    0 <= j < self.chunk_views().len() implies #[trigger] self.chunk_views()[j].validity.len()
                    == alen(self.chunk_views()[j]) by {
                    assert(wf_chunk(self.dtype@, self.chunk_views()[j]));
                }
            }
            lemma_series_null_count_le(self.chunk_views());
        }
        let ghost views = self.chunk_views();
        let mut acc: usize = 0;
        proof {
            assert(views.skip(0) =~= views);
        }
        let mut k: usize = 0;
        while k < self.chunks.len()
            invariant
                k <= self.chunks@.len(),
                acc + series_null_count(views.skip(k as int)) == series_null_count(views),
                series_null_count(views) <= total_len(views) <= usize::MAX,
            decreases self.chunks@.len() - k,
        {
            proof {
                assert(views.skip(k as int)[0] == views[k as int]);
                assert(views.skip(k as int).drop_first() =~= views.skip(k as int + 1));
                assert(views[k as int] == arrv(self.chunks@[k as int]));
                assert(wf_chunk(self.dtype@, views[k as int]));
                lemma_count_false_le(views[k as int].validity);
            }
            acc = acc + count_false_vec(&self.chunks[k].validity);
            k += 1;
        }
        proof {
            assert(views.skip(views.len() as int) =~= Seq::<ArrV>::empty());
        }
        acc
    }

    /// Materialize one chunk as its canonical interchange array.
    ///
    /// For every logical type this is exactly the chunk's conversion; for
    /// opaque-value columns with several chunks, the column is first cut
    /// down to the chunk's row range (the lengths of the chunks ahead of
    /// it give the offset) and the cut is converted, which yields the very
    /// same array.
    #[verifier::loop_isolation(false)]
    pub fn to_arrow(&self, chunk_idx: usize, compat_level: CompatLevel) -> (r: ArrowArray)
        requires
            self.wf(),
            chunk_idx < self.chunks@.len(),
        ensures
            r@ == conv(self.dtype@, self.chunk_views()[chunk_idx as int], compat_level.0),
    {
        proof {
            lemma_view_children(self.chunks@);
        }
        let ghost views = self.chunk_views();
        if matches!(self.dtype, DataType::Object) {
            proof {
                assert(flat_object_chunks(views)) by {
                    assert forall|j: int|
                        0 <= j < views.len() implies (#[trigger] views[j].data) is Prims
                        && views[j].validity.len() == alen(views[j]) by {
                        assert(wf_chunk(self.dtype@, views[j]));
                    }
                }
                lemma_concat_lens(views);
            }
            if self.chunks.len() == 1 && chunk_idx == 0 {
                let r = object_series_to_arrow_array(self);
                proof {
                    lemma_concat_singleton(views);
                    assert(wf_chunk(self.dtype@, views[0]));
                }
                r
            } else {
                let mut start: usize = 0;
                let mut j: usize = 0;
                while j < chunk_idx
                    invariant
                        j <= chunk_idx,
                        start == offset_of(views, j as int),
                    decreases chunk_idx - j,
                {
                    proof {
                        lemma_offset_step(views, j as int);
                        lemma_offset_le(views, j as int + 1, views.len() as int);
                    }
                    start = start + self.chunks[j].len();
                    j += 1;
                }
                let length = self.chunks[chunk_idx].len();
                proof {
                    lemma_offset_step(views, chunk_idx as int);
                    lemma_offset_le(views, chunk_idx as int + 1, views.len() as int);
                    lemma_object_window(views, chunk_idx as int);
                }
                let s2 = self.slice(start, length);
                let r = object_series_to_arrow_array(&s2);
                proof {
                    let win = s2.chunk_views()[0];
                    lemma_concat_singleton(s2.chunk_views());
                    assert(wf_chunk(self.dtype@, views[chunk_idx as int]));
                }
                r
            }
        } else {
            proof {
                assert(wf_chunk(self.dtype@, views[chunk_idx as int]));
            }
            conv_chunk(&self.dtype, &self.chunks[chunk_idx], compat_level)
        }
    }
}

/// Nulls in one bitmap.
pub open spec fn count_false(s: Seq<bool>) -> nat
    decreases s,
{
    if s.len() == 0 {
        0
    } else {
        (if !s[0] {
            1nat
        } else {
            0nat
        }) + count_false(s.drop_first())
    }
}

/// Nulls over all chunks.
pub open spec fn series_null_count(cs: Seq<ArrV>) -> nat
    decreases cs,
{
    if cs.len() == 0 {
        0
    } else {
        count_false(cs[0].validity) + series_null_count(cs.drop_first())
    }
}

/// Every chunk's bitmap covers its rows.
pub open spec fn all_covered(cs: Seq<ArrV>) -> bool {
    forall|j: int| 0 <= j < cs.len() ==> (#[trigger] cs[j].validity).len() == alen(cs[j])
}

pub proof fn lemma_count_false_le(s: Seq<bool>)
    ensures
        count_false(s) <= s.len(),
    decreases s,
{
    if s.len() > 0 {
        lemma_count_false_le(s.drop_first());
    }
}

pub proof fn lemma_series_null_count_le(cs: Seq<ArrV>)
    requires
        all_covered(cs),
    ensures
        series_null_count(cs) <= total_len(cs),
    decreases cs,
{
    if cs.len() > 0 {
        assert(all_covered(cs.drop_first())) by {
            assert forall|j: int|
                0 <= j < cs.drop_first().len() implies (#[trigger] cs.drop_first()[j].validity).len()
                == alen(cs.drop_first()[j]) by {
                assert(cs.drop_first()[j] == cs[j + 1]);
            }
        }
        lemma_series_null_count_le(cs.drop_first());
        lemma_count_false_le(cs[0].validity);
        lemma_total_len_unfold(cs);
    }
}

/// Peeling the first chunk off the running total.
pub proof fn lemma_total_len_unfold(cs: Seq<ArrV>)
    requires
        cs.len() > 0,
    ensures
        total_len(cs) == alen(cs[0]) + total_len(cs.drop_first()),
{
}

/// Count the nulls of one bitmap.
#[verifier::loop_isolation(false)]
pub fn count_false_vec(v: &Vec<bool>) -> (r: usize)
    ensures
        r == count_false(v@),
{
    proof {
        assert(v@.skip(0) =~= v@);
        lemma_count_false_le(v@);
    }
    let mut acc: usize = 0;
    let mut j: usize = 0;
    while j < v.len()
        invariant
            j <= v@.len(),
            acc + count_false(v@.skip(j as int)) == count_false(v@),
        decreases v@.len() - j,
    {
        proof {
            assert(v@.skip(j as int)[0] == v@[j as int]);
            assert(v@.skip(j as int).drop_first() =~= v@.skip(j as int + 1));
            lemma_count_false_le(v@.skip(j as int + 1));
        }
        if !v[j] {
            acc = acc + 1;
        }
        j += 1;
    }
    proof {
        assert(v@.skip(v@.len() as int) =~= Seq::<bool>::empty());
    }
    acc
}

/// One key row as the validation engine compares it: every null, whatever
/// its type, is the single null class.
pub enum RowV {
    Null,
    Bool(bool),
    Int(i128),
    Str(Seq<char>),
    Bin(Seq<u8>),
}

/// One key row, carried while counting distinct values.
#[derive(Debug)]
pub enum RowVal {
    Null,
    Bool(bool),
    Int(i128),
    Str(String),
    Bin(Vec<u8>),
}

impl View for RowVal {
    type V = RowV;

    open spec fn view(&self) -> RowV {
        match self {
            RowVal::Null => RowV::Null,
            RowVal::Bool(b) => RowV::Bool(*b),
            RowVal::Int(v) => RowV::Int(*v),
            RowVal::Str(s) => RowV::Str(s@),
            RowVal::Bin(b) => RowV::Bin(b@),
        }
    }
}

/// Row `i` of a flat chunk.
pub open spec fn row_of(a: ArrV, i: int) -> RowV {
    if 0 <= i < alen(a) && !a.validity[i] {
        RowV::Null
    } else {
        match a.data {
            ADataV::Bools(v) => RowV::Bool(v[i]),
            ADataV::Prims(v) => RowV::Int(v[i]),
            ADataV::Strs(v) => RowV::Str(v[i]),
            ADataV::Bins(v) => RowV::Bin(v[i]),
            _ => RowV::Null,
        }
    }
}

/// All rows of one chunk.
pub open spec fn rows_of_chunk(a: ArrV) -> Seq<RowV> {
    Seq::new(alen(a), |i: int| row_of(a, i))
}

/// All rows of a column, chunk after chunk.
pub open spec fn series_rows(cs: Seq<ArrV>) -> Seq<RowV>
    decreases cs,
{
    if cs.len() == 0 {
        Seq::empty()
    } else {
        rows_of_chunk(cs[0]) + series_rows(cs.drop_first())
    }
}

pub proof fn lemma_series_rows_len(cs: Seq<ArrV>)
    ensures
        series_rows(cs).len() == total_len(cs),
    decreases cs,
{
    if cs.len() > 0 {
        lemma_series_rows_len(cs.drop_first());
        lemma_total_len_unfold(cs);
    }
}

/// The logical types whose columns support a distinct-value count: the
/// flat leaves. Nested and opaque columns do not.
pub open spec fn supports_distinct(dt: DTy) -> bool {
    match dt {
        DTy::Struct(_) | DTy::List(_) | DTy::Array(_, _) | DTy::Object => false,
        _ => true,
    }
}

/// A column operation was asked of a type that cannot support it.
#[derive(Clone, Copy, PartialEq, Eq, Structural, Debug)]
pub enum SeriesError {
    /// The column's type supports no distinct-value count.
    DistinctUnsupported,
}

/// The views of gathered rows.
pub open spec fn view_rows(rs: Seq<RowVal>) -> Seq<RowV> {
    rs.map_values(|r: RowVal| r@)
}

/// Appending one row to a gathered sequence adds exactly it to the set.
proof fn lemma_push_to_set(s: Seq<RowV>, x: RowV)
    ensures
        s.push(x).to_set() == s.to_set().insert(x),
{
    broadcast use vstd::set::group_set_axioms;

    assert forall|y: RowV| s.push(x).to_set().contains(y) implies s.to_set().insert(x).contains(
        y,
    ) by {
        let w = choose|w: int| 0 <= w < s.push(x).len() && s.push(x)[w] == y;
        if w < s.len() {
            assert(s[w] == y);
        }
    }
    assert forall|y: RowV| s.to_set().insert(x).contains(y) implies s.push(x).to_set().contains(
        y,
    ) by {
        if s.to_set().contains(y) {
            let w = choose|w: int| 0 <= w < s.len() && s[w] == y;
            assert(s.push(x)[w] == y);
        } else {
            assert(s.push(x)[s.len() as int] == x);
        }
    }
    assert(s.push(x).to_set() =~= s.to_set().insert(x));
}

/// Whether two binary rows hold the same bytes.
fn eq_bytes(a: &Vec<u8>, b: &Vec<u8>) -> (r: bool)
    ensures
        r == (a@ == b@),
{
    if a.len() != b.len() {
        return false;
    }
    let mut i: usize = 0;
    while i < a.len()
        invariant
            i <= a@.len(),
            a@.len() == b@.len(),
            forall|j: int| 0 <= j < i ==> a@[j] == b@[j],
        decreases a@.len() - i,
    {
        if a[i] != b[i] {
            return false;
        }
        i += 1;
    }
    proof {
        assert(a@ =~= b@);
    }
    true
}

/// Whether two rows are the same key value.
fn row_eq(a: &RowVal, b: &RowVal) -> (r: bool)
    ensures
        r == (a@ == b@),
{
    match (a, b) {
        (RowVal::Null, RowVal::Null) => true,
        (RowVal::Bool(x), RowVal::Bool(y)) => x == y,
        (RowVal::Int(x), RowVal::Int(y)) => x == y,
        (RowVal::Str(x), RowVal::Str(y)) => x.eq(y),
        (RowVal::Bin(x), RowVal::Bin(y)) => eq_bytes(x, y),
        _ => false,
    }
}

/// Whether a row value was already gathered.
fn contains_row(seen: &Vec<RowVal>, x: &RowVal) -> (r: bool)
    ensures
        r == view_rows(seen@).contains(x@),
{
    let mut i: usize = 0;
    while i < seen.len()
        invariant
            i <= seen@.len(),
            forall|j: int| 0 <= j < i ==> view_rows(seen@)[j] != x@,
        decreases seen@.len() - i,
    {
        proof {
            assert(view_rows(seen@)[i as int] == seen@[i as int]@);
        }
        if row_eq(&seen[i], x) {
            return true;
        }
        i += 1;
    }
    proof {
        assert(!view_rows(seen@).contains(x@)) by {
            assert(view_rows(seen@).len() == seen@.len());
        }
    }
    false
}

/// Row `i` of a flat chunk, gathered as a value.
fn chunk_row(a: &ArrowArray, i: usize) -> (r: RowVal)
    requires
        i < alen(a@),
        a@.validity.len() == alen(a@),
        a@.data is Prims || a@.data is Bools || a@.data is Strs || a@.data is Bins || a@.data
            is Unit,
    ensures
        r@ == row_of(a@, i as int),
{
    if !validity_at(a, i) {
        RowVal::Null
    } else {
        match &a.data {
            ArrayData::Bools(v) => RowVal::Bool(v[i]),
            ArrayData::Prims(v) => RowVal::Int(v[i]),
            ArrayData::Strs(v) => RowVal::Str(v[i].clone()),
            ArrayData::Bins(v) => RowVal::Bin(clone_prims(&v[i])),
            ArrayData::Unit => RowVal::Null,
            _ => vstd::pervasive::unreached(),
        }
    }
}

/// Whether row `i` is valid (not null).
fn validity_at(a: &ArrowArray, i: usize) -> (r: bool)
    requires
        i < a@.validity.len(),
    ensures
        r == a@.validity[i as int],
{
    a.validity[i]
}

impl Series {
    /// Gather every row of a flat column.
    #[verifier::loop_isolation(false)]
    fn collect_rows(&self) -> (r: Vec<RowVal>)
        requires
            self.wf(),
            supports_distinct(self.dtype@),
        ensures
            view_rows(r@) == series_rows(self.chunk_views()),
    {
        proof {
            lemma_view_children(self.chunks@);
        }
        let ghost views = self.chunk_views();
        let mut out: Vec<RowVal> = Vec::new();
        proof {
            assert(views.skip(0) =~= views);
            assert(view_rows(out@) =~= Seq::<RowV>::empty());
            assert(Seq::<RowV>::empty() + series_rows(views) =~= series_rows(views));
        }
        let mut k: usize = 0;
        while k < self.chunks.len()
            invariant
                k <= self.chunks@.len(),
                view_rows(out@) + series_rows(views.skip(k as int)) == series_rows(views),
            decreases self.chunks@.len() - k,
        {
            let c = &self.chunks[k];
            proof {
                assert(views[k as int] == arrv(self.chunks@[k as int]));
                assert(wf_chunk(self.dtype@, views[k as int]));
                assert(views.skip(k as int)[0] == views[k as int]);
                assert(views.skip(k as int).drop_first() =~= views.skip(k as int + 1));
            }
            let n = c.len();
            let ghost done = view_rows(out@);
            let mut i: usize = 0;
            while i < n
                invariant
                    i <= n,
                    n == alen(arrv(*c)),
                    view_rows(out@) == done + rows_of_chunk(arrv(*c)).take(i as int),
                decreases n - i,
            {
                let rv = chunk_row(c, i);
                out.push(rv);
                proof {
                    assert(view_rows(out@) =~= (done + rows_of_chunk(arrv(*c)).take(i as int)).push(
                        rv@,
                    ));
                    assert(done + rows_of_chunk(arrv(*c)).take(i as int + 1) =~= (done
                        + rows_of_chunk(arrv(*c)).take(i as int)).push(row_of(arrv(*c), i as int)));
                }
                i += 1;
            }
            proof {
                assert(rows_of_chunk(arrv(*c)).take(n as int) =~= rows_of_chunk(arrv(*c)));
                assert((done + rows_of_chunk(views[k as int])) + series_rows(
                    views.skip(k as int + 1),
                ) =~= done + (rows_of_chunk(views[k as int]) + series_rows(views.skip(k as int + 1))));
            }
            k += 1;
        }
        proof {
            assert(views.skip(views.len() as int) =~= Seq::<ArrV>::empty());
            assert(view_rows(out@) + Seq::<RowV>::empty() =~= view_rows(out@));
        }
        out
    }

    /// The number of distinct key values of a flat column, all nulls
    /// counting as one value. Nested and opaque columns are refused.
    #[verifier::loop_isolation(false)]
    pub fn n_unique(&self) -> (r: Result<usize, SeriesError>)
        requires
            self.wf(),
        ensures
            match r {
                Ok(n) => supports_distinct(self.dtype@) && n == series_rows(
                    self.chunk_views(),
                ).to_set().len(),
                Err(e) => !supports_distinct(self.dtype@) && e == SeriesError::DistinctUnsupported,
            },
    {
        match &self.dtype {
            DataType::Struct(_) | DataType::List(_) | DataType::Array(_, _) | DataType::Object => {
                return Err(SeriesError::DistinctUnsupported);
            },
            _ => {},
        }
        let rows = self.collect_rows();
        let ghost all = view_rows(rows@);
        let mut seen: Vec<RowVal> = Vec::new();
        proof {
            broadcast use vstd::seq_lib::seq_to_set_is_finite;
            broadcast use vstd::set::group_set_axioms;

            assert(view_rows(seen@) =~= Seq::<RowV>::empty());
            assert(all.take(0).to_set() =~= Set::<RowV>::empty());
            assert(view_rows(seen@).to_set() =~= Set::<RowV>::empty());
        }
        let mut i: usize = 0;
        while i < rows.len()
            invariant
                i <= rows@.len(),
                view_rows(seen@).no_duplicates(),
                view_rows(seen@).to_set() == all.take(i as int).to_set(),
                seen@.len() <= i,
            decreases rows@.len() - i,
        {
            proof {
                assert(all[i as int] == rows@[i as int]@);
            }
            let rv = &rows[i];
            let dup = contains_row(&seen, rv);
            proof {
                broadcast use vstd::seq_lib::seq_to_set_is_finite;
                broadcast use vstd::set::group_set_axioms;

                assert(all.take(i as int + 1) =~= all.take(i as int).push(all[i as int]));
                lemma_push_to_set(all.take(i as int), all[i as int]);
            }
            if !dup {
                let ghost old_seen = view_rows(seen@);
                seen.push(rows[i].clone_row());
                proof {
                    assert(view_rows(seen@) =~= old_seen.push(rv@));
                    assert(view_rows(seen@).no_duplicates()) by {
                        assert(forall|j: int|
                            0 <= j < old_seen.len() ==> old_seen.push(rv@)[j] == old_seen[j]);
                        assert(old_seen.push(rv@)[old_seen.len() as int] == rv@);
                        assert(!old_seen.contains(rv@));
                    }
                    lemma_push_to_set(old_seen, rv@);
                    assert(view_rows(seen@).to_set() == old_seen.push(rv@).to_set());
                }
            } else {
                proof {
                    broadcast use vstd::set::group_set_axioms;

                    assert(all.take(i as int).to_set().insert(rv@) =~= all.take(i as int).to_set());
                }
            }
            i += 1;
        }
        proof {
            assert(all.take(rows@.len() as int) =~= all);
            view_rows(seen@).unique_seq_to_set();
        }
        Ok(seen.len())
    }
}

impl RowVal {
    /// A copy with the same view.
    fn clone_row(&self) -> (r: RowVal)
        ensures
            r@ == self@,
    {
        match self {
            RowVal::Null => RowVal::Null,
            RowVal::Bool(b) => RowVal::Bool(*b),
            RowVal::Int(v) => RowVal::Int(*v),
            RowVal::Str(s) => RowVal::Str(s.clone()),
            RowVal::Bin(b) => RowVal::Bin(clone_prims(b)),
        }
    }
}

/// Read an interchange array back into the stored physical layout of the
/// given logical type: the inverse of `conv`. Arrays whose shape does not
/// belong to the type pass through unchanged.
pub open spec fn imp(dt: DTy, b: ArrV) -> ArrV
    decreases dt,
{
    match dt {
        DTy::Struct(fs) => match b.data {
            ADataV::StructArr { len, children } => ArrV {
                dtype: arrow_dtype_of(phys(dt), 1),
                validity: b.validity,
                data: ADataV::StructArr { len, children: imp_fields(fs, children) },
            },
            _ => b,
        },
        DTy::List(inner) => match b.data {
            ADataV::List { offsets, values } => {
                let nv = if inner.len() == 1 && !(inner[0] is Null) {
                    seq![imp(inner[0], values[0])]
                } else {
                    values
                };
                ArrV {
                    dtype: arrow_dtype_of(phys(dt), 1),
                    validity: b.validity,
                    data: ADataV::List { offsets, values: nv },
                }
            },
            _ => b,
        },
        DTy::Array(inner, w) => match b.data {
            ADataV::Fixed { len, values } => {
                let nv = if inner.len() == 1 && !(inner[0] is Null) {
                    seq![imp(inner[0], values[0])]
                } else {
                    values
                };
                ArrV {
                    dtype: arrow_dtype_of(phys(dt), 1),
                    validity: b.validity,
                    data: ADataV::Fixed { len, values: nv },
                }
            },
            _ => b,
        },
        DTy::Categorical(_, p) => match b.data {
            ADataV::Dict { keys, cats } => ArrV {
                dtype: arrow_dtype_of(phys(dt), 1),
                validity: b.validity,
                data: ADataV::Prims(keys),
            },
            _ => b,
        },
        DTy::Enum(_, p) => match b.data {
            ADataV::Dict { keys, cats } => ArrV {
                dtype: arrow_dtype_of(phys(dt), 1),
                validity: b.validity,
                data: ADataV::Prims(keys),
            },
            _ => b,
        },
        DTy::Date | DTy::Datetime(_, _) | DTy::Duration(_) | DTy::Time | DTy::Decimal(_, _)
            | DTy::Object | DTy::Utf8 | DTy::Binary => ArrV {
            dtype: arrow_dtype_of(phys(dt), 1),
            validity: b.validity,
            data: b.data,
        },
        _ => b,
    }
}

/// `imp` of each struct child against its field's type.
pub open spec fn imp_fields(fs: Seq<FieldTy>, cs: Seq<ArrV>) -> Seq<ArrV>
    decreases fs,
{
    if fs.len() == 0 || cs.len() == 0 {
        Seq::empty()
    } else {
        seq![imp(fs[0].dtype, cs[0])] + imp_fields(fs.drop_first(), cs.drop_first())
    }
}

/// `imp_fields`, element by element.
pub proof fn lemma_imp_fields(fs: Seq<FieldTy>, cs: Seq<ArrV>)
    requires
        fs.len() == cs.len(),
    ensures
        imp_fields(fs, cs).len() == fs.len(),
        forall|i: int| 0 <= i < fs.len() ==> imp_fields(fs, cs)[i] == imp(fs[i].dtype, cs[i]),
    decreases fs,
{
    if fs.len() > 0 {
        lemma_imp_fields(fs.drop_first(), cs.drop_first());
    }
}

/// Round trip: reading a materialized chunk back into the stored layout of
/// its own logical type restores the chunk exactly, whatever the
/// compatibility level. Field order, per-row validity and values all
/// survive.
pub proof fn lemma_round_trip(dt: DTy, a: ArrV, compat: u16)
    requires
        wf_chunk(dt, a),
    ensures
        imp(dt, conv(dt, a, compat)) == a,
    decreases dt,
{
    match dt {
        DTy::Struct(fs) => {
            match a.data {
                ADataV::StructArr { len, children } => {
                    lemma_wf_struct_children(fs, children);
                    lemma_round_trip_fields(fs, children, compat);
                    lemma_conv_fields(fs, children, compat);
                    lemma_imp_fields(fs, conv_fields(fs, children, compat));
                    assert(imp_fields(fs, conv_fields(fs, children, compat)) =~= children);
                },
                _ => {},
            }
        },
        DTy::List(inner) => {
            match a.data {
                ADataV::List { offsets, values } => {
                    if !(inner[0] is Null) {
                        lemma_round_trip(inner[0], values[0], compat);
                        assert(seq![imp(inner[0], conv(inner[0], values[0], compat))] =~= values);
                    } else {
                        assert(wf_chunk(inner[0], values[0]));
                        assert(values[0].dtype == arrow_dtype_of(phys(inner[0]), 1));
                    }
                },
                _ => {},
            }
        },
        DTy::Array(inner, w) => {
            match a.data {
                ADataV::Fixed { len, values } => {
                    if !(inner[0] is Null) {
                        lemma_round_trip(inner[0], values[0], compat);
                        assert(seq![imp(inner[0], conv(inner[0], values[0], compat))] =~= values);
                    }
                },
                _ => {},
            }
        },
        _ => {},
    }
}

proof fn lemma_round_trip_fields(fs: Seq<FieldTy>, cs: Seq<ArrV>, compat: u16)
    requires
        wf_struct_children(fs, cs),
    ensures
        forall|i: int| 0 <= i < fs.len() ==> imp(fs[i].dtype, #[trigger] conv_fields(fs, cs, compat)[i])
            == cs[i],
    decreases fs,
{
    lemma_wf_struct_children(fs, cs);
    lemma_conv_fields(fs, cs, compat);
    assert forall|i: int| 0 <= i < fs.len() implies imp(
        fs[i].dtype,
        #[trigger] conv_fields(fs, cs, compat)[i],
    ) == cs[i] by {
        lemma_round_trip(fs[i].dtype, cs[i], compat);
    }
}

/// Read an interchange array back into the stored physical layout of the
/// given logical type. Arrays whose shape does not belong to the type are
/// returned unchanged.
#[verifier::loop_isolation(false)]
pub fn import_chunk(dt: &DataType, b: &ArrowArray) -> (r: ArrowArray)
    ensures
        r@ == imp(dt@, b@),
    decreases dt,
{
    match dt {
        DataType::Struct(fields) => {
            match &b.data {
                ArrayData::StructData { len, children } => {
                    proof {
                        lemma_view_fields(fields@);
                        lemma_view_children(children@);
                    }
                    let n = if fields.len() < children.len() {
                        fields.len()
                    } else {
                        children.len()
                    };
                    let mut out: Vec<ArrowArray> = Vec::new();
                    let mut i: usize = 0;
                    while i < n
                        invariant
                            i <= n,
                            out@.len() == i,
                            forall|j: int|
                                0 <= j < i ==> #[trigger] out@[j]@ == imp(
                                    dty(fields@[j].dtype),
                                    arrv(children@[j]),
                                ),
                        decreases n - i,
                    {
                        out.push(import_chunk(&fields[i].dtype, &children[i]));
                        i += 1;
                    }
                    proof {
                        lemma_view_children(out@);
                        lemma_imp_fields_zip(view_fields(fields@), view_children(children@));
                        assert forall|j: int| 0 <= j < n implies view_children(out@)[j]
                            == imp_fields(view_fields(fields@), view_children(children@))[j] by {
                            assert(out@[j]@ == imp(dty(fields@[j].dtype), arrv(children@[j])));
                        }
                        assert(view_children(out@) =~= imp_fields(
                            view_fields(fields@),
                            view_children(children@),
                        ));
                    }
                    ArrowArray {
                        dtype: dt.to_physical().to_arrow(CompatLevel::newest()),
                        validity: clone_prims(&b.validity),
                        data: ArrayData::StructData { len: *len, children: out },
                    }
                },
                _ => b.clone(),
            }
        },
        DataType::List(inner) => {
            match &b.data {
                ArrayData::List { offsets, values } => {
                    let new_values: ArrowArray = if matches!(**inner, DataType::Null) {
                        (**values).clone()
                    } else {
                        proof {
                            lemma_dty_null(**inner);
                        }
                        import_chunk(inner, values)
                    };
                    ArrowArray {
                        dtype: dt.to_physical().to_arrow(CompatLevel::newest()),
                        validity: clone_prims(&b.validity),
                        data: ArrayData::List {
                            offsets: clone_prims(offsets),
                            values: Box::new(new_values),
                        },
                    }
                },
                _ => b.clone(),
            }
        },
        DataType::Array(inner, w) => {
            match &b.data {
                ArrayData::Fixed { len, values } => {
                    let new_values: ArrowArray = if matches!(**inner, DataType::Null) {
                        (**values).clone()
                    } else {
                        proof {
                            lemma_dty_null(**inner);
                        }
                        import_chunk(inner, values)
                    };
                    ArrowArray {
                        dtype: dt.to_physical().to_arrow(CompatLevel::newest()),
                        validity: clone_prims(&b.validity),
                        data: ArrayData::Fixed { len: *len, values: Box::new(new_values) },
                    }
                },
                _ => b.clone(),
            }
        },
        DataType::Categorical(_, _) | DataType::Enum(_, _) => {
            match &b.data {
                ArrayData::Dict { keys, cats } => ArrowArray {
                    dtype: dt.to_physical().to_arrow(CompatLevel::newest()),
                    validity: clone_prims(&b.validity),
                    data: ArrayData::Prims(clone_prims(keys)),
                },
                _ => b.clone(),
            }
        },
        DataType::Date | DataType::Datetime(_, _) | DataType::Duration(_) | DataType::Time
            | DataType::Decimal(_, _) | DataType::Object | DataType::Utf8 | DataType::Binary => {
            let copy = b.clone();
            ArrowArray {
                dtype: dt.to_physical().to_arrow(CompatLevel::newest()),
                validity: copy.validity,
                data: copy.data,
            }
        },
        _ => b.clone(),
    }
}

/// `imp_fields` over the shorter of the two lists, element by element.
proof fn lemma_imp_fields_zip(fs: Seq<FieldTy>, cs: Seq<ArrV>)
    ensures
        imp_fields(fs, cs).len() == if fs.len() < cs.len() {
            fs.len()
        } else {
            cs.len()
        },
        forall|i: int| 0 <= i < imp_fields(fs, cs).len() ==> imp_fields(fs, cs)[i] == imp(
            fs[i].dtype,
            cs[i],
        ),
    decreases fs,
{
    if fs.len() > 0 && cs.len() > 0 {
        lemma_imp_fields_zip(fs.drop_first(), cs.drop_first());
    }
}

/// The emitted array's type tag is exactly the interchange form of the
/// column's logical type at the requested level.
pub proof fn lemma_conv_emits_interchange_type(dt: DTy, a: ArrV, compat: u16)
    requires
        wf_chunk(dt, a),
    ensures
        conv(dt, a, compat).dtype == arrow_dtype_of(dt, compat),
{
}

/// Materialization re-expresses, it never reshapes: the emitted array has
/// the chunk's row count and its null bitmap, unchanged.
pub proof fn lemma_conv_preserves_rows(dt: DTy, a: ArrV, compat: u16)
    requires
        wf_chunk(dt, a),
    ensures
        conv(dt, a, compat).validity == a.validity,
        alen(conv(dt, a, compat)) == alen(a),
{
}

} // verus!
