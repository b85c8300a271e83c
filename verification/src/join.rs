//! Semantic contract of relational join operations: the join kind taxonomy,
//! the argument bundle handed from the planner to the execution kernel, the
//! column-coalescing and row-order policies, and the key-cardinality
//! validation engine.
use vstd::prelude::*;
use vstd::std_specs::cmp::PartialEqSpec;

use crate::array::alen;
use crate::series::{
    all_covered, lemma_series_null_count_le, lemma_series_rows_len, series_null_count, series_rows,
    supports_distinct, total_len, wf_chunk, Series, SeriesError,
};

verus! {

/// Strategy for resolving an as-of join match.
#[derive(Clone, Copy, PartialEq, Eq, Structural, Hash, Debug)]
pub enum AsofStrategy {
    Backward,
    Forward,
    Nearest,
}

/// Options carried by an as-of join.
#[derive(Clone, Copy, PartialEq, Eq, Structural, Hash, Debug)]
pub struct AsOfOptions {
    pub strategy: AsofStrategy,
    /// Whether an exact key match is accepted, or only a strict one.
    pub allow_eq: bool,
    /// Whether the engine checks that the as-of key columns are sorted.
    pub check_sortedness: bool,
}

/// Comparison operator of one side of an inequality join condition.
#[derive(Clone, Copy, PartialEq, Eq, Structural, Hash, Debug)]
pub enum InequalityOperator {
    Lt,
    LtEq,
    Gt,
    GtEq,
}

/// Options carried by an inequality join.
#[derive(Clone, Copy, PartialEq, Eq, Structural, Hash, Debug)]
pub struct IEJoinOptions {
    pub operator1: InequalityOperator,
    pub operator2: Option<InequalityOperator>,
}

/// The closed taxonomy of join kinds.
///
/// Every kind is always declared; an engine build that lacks the optional
/// kinds rejects them at the planning boundary instead of removing the
/// variant.
#[derive(Hash, Debug)]
pub enum JoinType {
    Inner,
    Left,
    Right,
    Full,
    AsOf(Box<AsOfOptions>),
    Semi,
    Anti,
    IEJoin,
    Cross,
}

/// Policy deciding whether the left and right key columns of a join are
/// merged into one output column.
#[derive(Clone, Copy, PartialEq, Eq, Structural, Hash, Debug)]
pub enum JoinCoalesce {
    /// Defer to the join kind's own default.
    JoinSpecific,
    CoalesceColumns,
    KeepColumns,
}

/// Which input side's row order the join output must preserve.
#[derive(Clone, Copy, PartialEq, Eq, Structural, Hash, Debug)]
pub enum MaintainOrderJoin {
    NoOrder,
    Left,
    Right,
    LeftRight,
    RightLeft,
}

/// Key-cardinality contract of a join, stated from the canonical
/// left/right perspective.
#[derive(Clone, Copy, PartialEq, Eq, Structural, Hash, Debug)]
pub enum JoinValidation {
    /// No uniqueness checks.
    ManyToMany,
    /// Join keys must be unique in the right dataset.
    ManyToOne,
    /// Join keys must be unique in the left dataset.
    OneToMany,
    /// Join keys must be unique in both datasets.
    OneToOne,
}

/// A recoverable configuration or validation error, carrying the offending
/// mode and kind as values.
#[derive(Clone, Debug)]
pub enum JoinError {
    /// The validation mode is not supported in combination with this join
    /// kind.
    InvalidValidation { validation: JoinValidation, join_type: JoinType },
    /// The join keys did not fulfill the configured validation mode.
    KeysNotUnique { validation: JoinValidation },
    /// The key column's type does not support a distinct-value count.
    KeysNotComparable,
}

/// Immutable bundle describing one join's semantics, built by the planner
/// and consumed by validation and execution.
#[derive(Clone, Hash, Debug)]
pub struct JoinArgs {
    pub how: JoinType,
    pub validation: JoinValidation,
    pub suffix: Option<String>,
    pub slice: Option<(i64, usize)>,
    pub nulls_equal: bool,
    pub coalesce: JoinCoalesce,
    pub maintain_order: MaintainOrderJoin,
}

impl JoinType {
    /// The kinds whose condition is plain key equality.
    pub fn is_equi(&self) -> (r: bool)
        ensures
            r == (self is Inner || self is Left || self is Right || self is Full),
    {
        matches!(self, JoinType::Inner | JoinType::Left | JoinType::Right | JoinType::Full)
    }

    pub fn is_semi_anti(&self) -> (r: bool)
        ensures
            r == (self is Semi || self is Anti),
    {
        matches!(self, JoinType::Semi | JoinType::Anti)
    }

    pub fn is_semi(&self) -> (r: bool)
        ensures
            r == (self is Semi),
    {
        matches!(self, JoinType::Semi)
    }

    pub fn is_anti(&self) -> (r: bool)
        ensures
            r == (self is Anti),
    {
        matches!(self, JoinType::Anti)
    }

    pub fn is_asof(&self) -> (r: bool)
        ensures
            r == (self is AsOf),
    {
        matches!(self, JoinType::AsOf(_))
    }

    pub fn is_cross(&self) -> (r: bool)
        ensures
            r == (self is Cross),
    {
        matches!(self, JoinType::Cross)
    }

    pub fn is_ie(&self) -> (r: bool)
        ensures
            r == (self is IEJoin),
    {
        matches!(self, JoinType::IEJoin)
    }

    /// Short upper-case name of the kind, as the planner prints it.
    pub fn describe(&self) -> (r: &'static str)
        ensures
            self is Inner ==> r@ == "INNER"@,
            self is Left ==> r@ == "LEFT"@,
            self is Right ==> r@ == "RIGHT"@,
            self is Full ==> r@ == "FULL"@,
            self is AsOf ==> r@ == "ASOF"@,
            self is Semi ==> r@ == "SEMI"@,
            self is Anti ==> r@ == "ANTI"@,
            self is IEJoin ==> r@ == "IEJOIN"@,
            self is Cross ==> r@ == "CROSS"@,
    {
        match self {
            JoinType::Inner => "INNER",
            JoinType::Left => "LEFT",
            JoinType::Right => "RIGHT",
            JoinType::Full => "FULL",
            JoinType::AsOf(_) => "ASOF",
            JoinType::Semi => "SEMI",
            JoinType::Anti => "ANTI",
            JoinType::IEJoin => "IEJOIN",
            JoinType::Cross => "CROSS",
        }
    }
}

impl Clone for JoinType {
    fn clone(&self) -> (r: Self)
        ensures
            r == *self,
    {
        match self {
            JoinType::Inner => JoinType::Inner,
            JoinType::Left => JoinType::Left,
            JoinType::Right => JoinType::Right,
            JoinType::Full => JoinType::Full,
            JoinType::AsOf(o) => JoinType::AsOf(Box::new(**o)),
            JoinType::Semi => JoinType::Semi,
            JoinType::Anti => JoinType::Anti,
            JoinType::IEJoin => JoinType::IEJoin,
            JoinType::Cross => JoinType::Cross,
        }
    }
}

impl Default for JoinType {
    fn default() -> (r: Self)
        ensures
            r == JoinType::Inner,
    {
        JoinType::Inner
    }
}

impl PartialEq for JoinType {
    fn eq(&self, other: &Self) -> (r: bool) {
        match (self, other) {
            (JoinType::Inner, JoinType::Inner) => true,
            (JoinType::Left, JoinType::Left) => true,
            (JoinType::Right, JoinType::Right) => true,
            (JoinType::Full, JoinType::Full) => true,
            (JoinType::AsOf(a), JoinType::AsOf(b)) => **a == **b,
            (JoinType::Semi, JoinType::Semi) => true,
            (JoinType::Anti, JoinType::Anti) => true,
            (JoinType::IEJoin, JoinType::IEJoin) => true,
            (JoinType::Cross, JoinType::Cross) => true,
            _ => false,
        }
    }
}

impl vstd::std_specs::cmp::PartialEqSpecImpl for JoinType {
    open spec fn obeys_eq_spec() -> bool {
        true
    }

    open spec fn eq_spec(&self, other: &Self) -> bool {
        *self == *other
    }
}

impl Eq for JoinType {
}

/// The coalescing decision table: which (policy, kind) pairs merge the key
/// columns.
pub open spec fn spec_coalesce(c: JoinCoalesce, j: JoinType) -> bool {
    match j {
        JoinType::Left | JoinType::Inner | JoinType::Right => c == JoinCoalesce::JoinSpecific
            || c == JoinCoalesce::CoalesceColumns,
        JoinType::Full => c == JoinCoalesce::CoalesceColumns,
        JoinType::AsOf(_) => c == JoinCoalesce::JoinSpecific || c == JoinCoalesce::CoalesceColumns,
        JoinType::IEJoin => false,
        JoinType::Cross => false,
        JoinType::Semi | JoinType::Anti => false,
    }
}

impl JoinCoalesce {
    /// Whether this policy merges the key columns for the given join kind.
    pub fn coalesce(&self, join_type: &JoinType) -> (r: bool)
        ensures
            r == spec_coalesce(*self, *join_type),
    {
        match join_type {
            JoinType::Left | JoinType::Inner | JoinType::Right => {
                matches!(self, JoinCoalesce::JoinSpecific | JoinCoalesce::CoalesceColumns)
            },
            JoinType::Full => {
                matches!(self, JoinCoalesce::CoalesceColumns)
            },
            JoinType::AsOf(_) => matches!(
                self,
                JoinCoalesce::JoinSpecific | JoinCoalesce::CoalesceColumns
            ),
            JoinType::IEJoin => false,
            JoinType::Cross => false,
            JoinType::Semi | JoinType::Anti => false,
        }
    }
}

impl Default for JoinCoalesce {
    fn default() -> (r: Self)
        ensures
            r == JoinCoalesce::JoinSpecific,
    {
        JoinCoalesce::JoinSpecific
    }
}

/// Order-preservation after an internal build/probe swap: Left and Right
/// trade places, combined guarantees reverse, None stays put.
pub open spec fn spec_flip(m: MaintainOrderJoin) -> MaintainOrderJoin {
    match m {
        MaintainOrderJoin::NoOrder => MaintainOrderJoin::NoOrder,
        MaintainOrderJoin::Left => MaintainOrderJoin::Right,
        MaintainOrderJoin::Right => MaintainOrderJoin::Left,
        MaintainOrderJoin::LeftRight => MaintainOrderJoin::RightLeft,
        MaintainOrderJoin::RightLeft => MaintainOrderJoin::LeftRight,
    }
}

impl MaintainOrderJoin {
    /// Restate the ordering guarantee after the engine swaps the two sides,
    /// so that it still refers to the caller's original sides.
    pub fn flip(&self) -> (r: Self)
        ensures
            r == spec_flip(*self),
    {
        match self {
            MaintainOrderJoin::NoOrder => MaintainOrderJoin::NoOrder,
            MaintainOrderJoin::Left => MaintainOrderJoin::Right,
            MaintainOrderJoin::Right => MaintainOrderJoin::Left,
            MaintainOrderJoin::LeftRight => MaintainOrderJoin::RightLeft,
            MaintainOrderJoin::RightLeft => MaintainOrderJoin::LeftRight,
        }
    }
}

impl Default for MaintainOrderJoin {
    fn default() -> (r: Self)
        ensures
            r == MaintainOrderJoin::NoOrder,
    {
        MaintainOrderJoin::NoOrder
    }
}

/// Flipping a side twice restores the original ordering guarantee.
pub proof fn lemma_flip_involution(m: MaintainOrderJoin)
    ensures
        spec_flip(spec_flip(m)) == m,
        spec_flip(MaintainOrderJoin::NoOrder) == MaintainOrderJoin::NoOrder,
{
}

impl JoinArgs {
    /// A fresh bundle for the given kind: no uniqueness checks, no suffix,
    /// no slice, nulls unequal, kind-specific coalescing, no order
    /// guarantee.
    pub fn new(how: JoinType) -> (r: Self)
        ensures
            r.how == how,
            r.validation == JoinValidation::ManyToMany,
            r.suffix is None,
            r.slice is None,
            r.nulls_equal == false,
            r.coalesce == JoinCoalesce::JoinSpecific,
            r.maintain_order == MaintainOrderJoin::NoOrder,
    {
        JoinArgs {
            how,
            validation: JoinValidation::ManyToMany,
            suffix: None,
            slice: None,
            nulls_equal: false,
            coalesce: JoinCoalesce::JoinSpecific,
            maintain_order: MaintainOrderJoin::NoOrder,
        }
    }

    pub fn with_coalesce(self, coalesce: JoinCoalesce) -> (r: Self)
        ensures
            r == (JoinArgs { coalesce, ..self }),
    {
        JoinArgs { coalesce, ..self }
    }

    pub fn with_suffix(self, suffix: Option<String>) -> (r: Self)
        ensures
            r == (JoinArgs { suffix, ..self }),
    {
        JoinArgs { suffix, ..self }
    }

    /// The configured right-column suffix, or the default `_right`.
    pub fn suffix(&self) -> (r: String)
        ensures
            match self.suffix {
                Some(s) => r@ == s@,
                None => r@ == "_right"@,
            },
    {
        match &self.suffix {
            Some(s) => s.clone(),
            None => "_right".to_owned(),
        }
    }

    /// Whether this join merges its key columns, per the coalescing table.
    pub fn should_coalesce(&self) -> (r: bool)
        ensures
            r == spec_coalesce(self.coalesce, self.how),
    {
        self.coalesce.coalesce(&self.how)
    }
}

impl Default for JoinArgs {
    fn default() -> (r: Self)
        ensures
            r.how == JoinType::Inner,
            r.validation == JoinValidation::ManyToMany,
            r.suffix is None,
            r.slice is None,
            r.nulls_equal == false,
            r.coalesce == JoinCoalesce::JoinSpecific,
            r.maintain_order == MaintainOrderJoin::NoOrder,
    {
        JoinArgs::new(JoinType::Inner)
    }
}

/// The bundle `JoinArgs::new` builds for a kind.
pub open spec fn spec_new_args(how: JoinType) -> JoinArgs {
    JoinArgs {
        how,
        validation: JoinValidation::ManyToMany,
        suffix: None,
        slice: None,
        nulls_equal: false,
        coalesce: JoinCoalesce::JoinSpecific,
        maintain_order: MaintainOrderJoin::NoOrder,
    }
}

impl From<JoinType> for JoinArgs {
    fn from(value: JoinType) -> (r: JoinArgs) {
        JoinArgs::new(value)
    }
}

impl vstd::std_specs::convert::FromSpecImpl<JoinType> for JoinArgs {
    open spec fn obeys_from_spec() -> bool {
        true
    }

    open spec fn from_spec(t: JoinType) -> JoinArgs {
        spec_new_args(t)
    }
}

/// Restate a cardinality contract from the other side's perspective:
/// under a swap ManyToOne and OneToMany trade places, ManyToMany and
/// OneToOne are fixed points.
pub open spec fn spec_swap(v: JoinValidation, swapped: bool) -> JoinValidation {
    if swapped {
        match v {
            JoinValidation::ManyToMany => JoinValidation::ManyToMany,
            JoinValidation::ManyToOne => JoinValidation::OneToMany,
            JoinValidation::OneToMany => JoinValidation::ManyToOne,
            JoinValidation::OneToOne => JoinValidation::OneToOne,
        }
    } else {
        v
    }
}

impl JoinValidation {
    /// Whether this mode asks for any uniqueness check at all.
    pub fn needs_checks(&self) -> (r: bool)
        ensures
            r == !(self is ManyToMany),
    {
        !matches!(self, JoinValidation::ManyToMany)
    }

    /// See [`spec_swap`].
    pub fn swap(self, swapped: bool) -> (r: Self)
        ensures
            r == spec_swap(self, swapped),
    {
        if swapped {
            match self {
                JoinValidation::ManyToMany => JoinValidation::ManyToMany,
                JoinValidation::ManyToOne => JoinValidation::OneToMany,
                JoinValidation::OneToMany => JoinValidation::ManyToOne,
                JoinValidation::OneToOne => JoinValidation::OneToOne,
            }
        } else {
            self
        }
    }

    /// Validation is accepted only on Inner, Full and Left joins; any other
    /// combination is a configuration error naming the mode and the kind.
    pub fn is_valid_join(&self, join_type: &JoinType) -> (r: Result<(), JoinError>)
        ensures
            r is Ok <==> (self is ManyToMany || join_type is Inner || join_type is Full
                || join_type is Left),
            r matches Err(e) ==> e matches JoinError::InvalidValidation { validation, join_type: jt }
                && validation == *self && jt == *join_type,
    {
        if !self.needs_checks() {
            return Ok(());
        }
        if matches!(join_type, JoinType::Inner | JoinType::Full | JoinType::Left) {
            Ok(())
        } else {
            Err(JoinError::InvalidValidation { validation: *self, join_type: join_type.clone() })
        }
    }

    /// Whether the realized build-side table size is acceptable: modes that
    /// require uniqueness on the build side demand one table slot per
    /// distinct key.
    pub open spec fn spec_build_ok(self, build_size: nat, expected_size: nat, swapped: bool) -> bool {
        match spec_swap(self, swapped) {
            JoinValidation::ManyToMany | JoinValidation::OneToMany => true,
            JoinValidation::ManyToOne | JoinValidation::OneToOne => build_size == expected_size,
        }
    }

    /// Check the build side: the realized hash-table size must equal the
    /// expected distinct-key count whenever the (possibly swapped) mode
    /// requires build-side uniqueness.
    pub fn validate_build(
        &self,
        build_size: usize,
        expected_size: usize,
        swapped: bool,
    ) -> (r: Result<(), JoinError>)
        ensures
            r is Ok <==> self.spec_build_ok(build_size as nat, expected_size as nat, swapped),
            r matches Err(e) ==> e matches JoinError::KeysNotUnique { validation }
                && validation == *self,
    {
        let valid = match self.swap(swapped) {
            JoinValidation::ManyToMany | JoinValidation::OneToMany => true,
            JoinValidation::ManyToOne | JoinValidation::OneToOne => build_size == expected_size,
        };
        if valid {
            Ok(())
        } else {
            Err(JoinError::KeysNotUnique { validation: *self })
        }
    }
}

impl Default for JoinValidation {
    fn default() -> (r: Self)
        ensures
            r == JoinValidation::ManyToMany,
    {
        JoinValidation::ManyToMany
    }
}

/// Swapping perspective twice restores the original cardinality contract.
pub proof fn lemma_swap_involution(v: JoinValidation, swapped: bool)
    ensures
        spec_swap(spec_swap(v, swapped), swapped) == v,
{
}

impl JoinValidation {
    /// Short name of a validation mode, as error text prints it.
    pub fn describe(&self) -> (r: &'static str)
        ensures
            self is ManyToMany ==> r@ == "m:m"@,
            self is ManyToOne ==> r@ == "m:1"@,
            self is OneToMany ==> r@ == "1:m"@,
            self is OneToOne ==> r@ == "1:1"@,
    {
        match self {
            JoinValidation::ManyToMany => "m:m",
            JoinValidation::ManyToOne => "m:1",
            JoinValidation::OneToMany => "1:m",
            JoinValidation::OneToOne => "1:1",
        }
    }
}


/// Whether the probe role moves to the right side: with the shortest
/// relation chosen as build side, a left column no longer than the right
/// one is swapped, ties included.
pub open spec fn spec_should_swap(left: Series, right: Series, build_shortest_table: bool) -> bool {
    build_shortest_table && total_len(left.chunk_views()) <= total_len(right.chunk_views())
}

/// The probe-side uniqueness formula: with nulls not treated as equal and
/// present, all nulls collapse into a single distinct slot, so the distinct
/// count less one must equal the non-null row count; otherwise every row
/// must be distinct.
pub open spec fn spec_unique_ok(probe: Series, nulls_equal: bool) -> bool {
    let len = total_len(probe.chunk_views());
    let nulls = series_null_count(probe.chunk_views());
    let distinct = series_rows(probe.chunk_views()).to_set().len();
    if !nulls_equal && nulls > 0 {
        distinct - 1 == len - nulls
    } else {
        distinct == len
    }
}

impl JoinValidation {
    /// Check the probe side's key cardinality.
    ///
    /// The probe is the left column unless `build_shortest_table` and the
    /// left column is no longer than the right one (ties swap). The
    /// configured mode, restated from the probe's perspective, must then
    /// hold of the probe column's distinct-value count.
    pub fn validate_probe(
        &self,
        s_left: &Series,
        s_right: &Series,
        build_shortest_table: bool,
        nulls_equal: bool,
    ) -> (r: Result<(), JoinError>)
        requires
            s_left.wf(),
            s_right.wf(),
        ensures
            ({
                let swapped = spec_should_swap(*s_left, *s_right, build_shortest_table);
                let probe = if swapped {
                    *s_right
                } else {
                    *s_left
                };
                let checked = spec_swap(*self, swapped) is OneToMany || spec_swap(*self, swapped)
                    is OneToOne;
                &&& (r is Ok <==> !checked || (supports_distinct(probe.dtype@) && spec_unique_ok(
                    probe,
                    nulls_equal,
                )))
                &&& (r matches Err(e) ==> checked && if supports_distinct(probe.dtype@) {
                    e == (JoinError::KeysNotUnique { validation: *self })
                } else {
                    e == JoinError::KeysNotComparable
                })
            }),
    {
        let should_swap = build_shortest_table && s_left.len() <= s_right.len();
        let probe = if should_swap {
            s_right
        } else {
            s_left
        };
        match self.swap(should_swap) {
            JoinValidation::ManyToMany | JoinValidation::ManyToOne => Ok(()),
            JoinValidation::OneToMany | JoinValidation::OneToOne => {
                let distinct = match probe.n_unique() {
                    Ok(n) => n,
                    Err(_) => {
                        return Err(JoinError::KeysNotComparable);
                    },
                };
                let len = probe.len();
                let nulls = probe.null_count();
                proof {
                    assert(all_covered(probe.chunk_views())) by {
                        assert forall|j: int|
                            0 <= j < probe.chunk_views().len() implies (
                            #[trigger] probe.chunk_views()[j].validity).len() == alen(
                            probe.chunk_views()[j],
                        ) by {
                            assert(wf_chunk(probe.dtype@, probe.chunk_views()[j]));
                        }
                    }
                    lemma_series_null_count_le(probe.chunk_views());
                    lemma_series_rows_len(probe.chunk_views());
                }
                let valid = if !nulls_equal && nulls > 0 {
                    proof {
                        let rows = series_rows(probe.chunk_views());
                        rows.lemma_cardinality_of_empty_set_is_0();
                    }
                    distinct - 1 == len - nulls
                } else {
                    distinct == len
                };
                if valid {
                    Ok(())
                } else {
                    Err(JoinError::KeysNotUnique { validation: *self })
                }
            },
        }
    }
}

/// Identity of one shared, reference-counted predicate allocation. The
/// embedding that owns the real callable assigns each allocation the
/// address of its shared handle; two wrappers are the same predicate
/// exactly when they carry the same address.
#[derive(Clone, Copy, Hash, Debug)]
pub struct CrossJoinOptions {
    pub predicate: usize,
}

impl CrossJoinOptions {
    /// The address of the shared predicate handle; the sole basis of
    /// equality and hashing.
    pub fn as_ptr_ref(&self) -> (r: usize)
        ensures
            r == self.predicate,
    {
        self.predicate
    }

    /// Hash of the wrapper: the handle address itself, so that equal
    /// wrappers hash identically.
    pub fn identity_hash(&self) -> (r: usize)
        ensures
            r == self.predicate,
    {
        self.predicate
    }
}

impl PartialEq for CrossJoinOptions {
    fn eq(&self, other: &Self) -> (r: bool) {
        self.as_ptr_ref() == other.as_ptr_ref()
    }
}

impl vstd::std_specs::cmp::PartialEqSpecImpl for CrossJoinOptions {
    open spec fn obeys_eq_spec() -> bool {
        true
    }

    open spec fn eq_spec(&self, other: &Self) -> bool {
        self.predicate == other.predicate
    }
}

impl Eq for CrossJoinOptions {
}

/// Two wrappers are equal exactly when they share one predicate
/// allocation, and then their hashes agree; wrappers around distinct
/// allocations are unequal, whatever the predicates compute.
pub proof fn lemma_cross_join_options_identity(a: CrossJoinOptions, b: CrossJoinOptions)
    ensures
        a.eq_spec(&b) <==> a.predicate == b.predicate,
        a.eq_spec(&b) ==> a.predicate == b.predicate,
        a.predicate != b.predicate ==> !a.eq_spec(&b),
{
}

/// Options resolved by the planner for the kinds that carry their own.
#[derive(Clone, Debug)]
pub enum JoinTypeOptions {
    IEJoin(IEJoinOptions),
    Cross(CrossJoinOptions),
}

} // verus!
