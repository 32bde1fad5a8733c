//! Which result columns must be converted before ggsql sees them.
//!
//! DuckDB types fractional literals as DECIMAL; ggsql treats unknown Arrow
//! types as strings, which turns position scales discrete and breaks
//! binning. So every Decimal128 column is cast to Float64 first.

use vstd::prelude::*;

verus! {

broadcast use vstd::string::group_string_axioms;

/// The Arrow type of a result column, as far as normalization cares.
#[derive(Clone, Copy, PartialEq, Eq, Structural, Debug)]
pub enum ColumnKind {
    Decimal128,
    Float64,
    Other,
}

/// What happens to one column.
#[derive(Clone, Copy, PartialEq, Eq, Structural, Debug)]
pub enum ColumnPlan {
    /// The column is passed on as it is.
    Keep,
    /// The column is cast to Float64, keeping its name and nullability.
    CastToFloat64,
}

/// The plan for a column of the given kind.
pub open spec fn plan_for(kind: ColumnKind) -> ColumnPlan {
    if kind == ColumnKind::Decimal128 {
        ColumnPlan::CastToFloat64
    } else {
        ColumnPlan::Keep
    }
}

/// Whether some column is a Decimal128 column.
pub open spec fn has_decimal(kinds: Seq<ColumnKind>) -> bool {
    exists|i: int| 0 <= i < kinds.len() && #[trigger] kinds[i] == ColumnKind::Decimal128
}

/// The column kinds once the plan is carried out.
pub open spec fn normalized_kinds(kinds: Seq<ColumnKind>) -> Seq<ColumnKind> {
    kinds.map_values(
        |k: ColumnKind|
            if k == ColumnKind::Decimal128 {
                ColumnKind::Float64
            } else {
                k
            },
    )
}

/// The plan for a batch with columns of the given kinds: `None` when no
/// column needs a cast (the batch is passed on unchanged), otherwise one
/// entry per column, casting exactly the Decimal128 columns.
pub fn normalization_plan(kinds: &[ColumnKind]) -> (res: Option<Vec<ColumnPlan>>)
    ensures
        res is None <==> !has_decimal(kinds@),
        res is None <==> forall|i: int| 0 <= i < kinds@.len() ==> #[trigger] kinds@[i] != ColumnKind::Decimal128,
        match res {
            Some(plan) => plan@ == kinds@.map_values(|k: ColumnKind| plan_for(k)),
            None => true,
        },
{
    let mut plan: Vec<ColumnPlan> = Vec::new();
    let mut any = false;
    let mut i: usize = 0;
    while i < kinds.len()
        invariant
            0 <= i <= kinds@.len(),
            plan@.len() == i,
            forall|j: int| 0 <= j < i ==> #[trigger] plan@[j] == plan_for(kinds@[j]),
            any <==> exists|j: int| 0 <= j < i && #[trigger] kinds@[j] == ColumnKind::Decimal128,
        decreases kinds@.len() - i,
    {
        if kinds[i] == ColumnKind::Decimal128 {
            plan.push(ColumnPlan::CastToFloat64);
            any = true;
        } else {
            plan.push(ColumnPlan::Keep);
        }
        i = i + 1;
    }
    if any {
        assert(plan@ =~= kinds@.map_values(|k: ColumnKind| plan_for(k)));
        Some(plan)
    } else {
        None
    }
}

/// Some column is Decimal128 exactly when `has_decimal` holds: one Decimal128
/// column anywhere, the last one included, is enough for a cast plan.
pub proof fn law_any_decimal_column_needs_a_cast(kinds: Seq<ColumnKind>, i: int)
    ensures
        has_decimal(kinds) <==> kinds.contains(ColumnKind::Decimal128),
        0 <= i < kinds.len() && kinds[i] == ColumnKind::Decimal128 ==> has_decimal(kinds),
        !has_decimal(kinds) ==> forall|j: int| 0 <= j < kinds.len() ==> #[trigger] kinds[j] != ColumnKind::Decimal128,
{
}

/// After normalization no Decimal128 column is left, so normalizing again
/// changes nothing; the number of columns is kept.
pub proof fn law_normalization_leaves_no_decimal(kinds: Seq<ColumnKind>)
    ensures
        normalized_kinds(kinds).len() == kinds.len(),
        !has_decimal(normalized_kinds(kinds)),
{
    let n = normalized_kinds(kinds);
    assert forall|i: int| 0 <= i < n.len() implies #[trigger] n[i] != ColumnKind::Decimal128 by {
        assert(n[i] == (if kinds[i] == ColumnKind::Decimal128 {
            ColumnKind::Float64
        } else {
            kinds[i]
        }));
    }
}

/// A result column's field as far as normalization reads and writes it: its
/// name, its kind and whether it may hold nulls.
pub struct ColumnField {
    pub name: String,
    pub kind: ColumnKind,
    pub nullable: bool,
}

impl View for ColumnField {
    type V = (Seq<char>, ColumnKind, bool);

    open spec fn view(&self) -> (Seq<char>, ColumnKind, bool) {
        (self.name@, self.kind, self.nullable)
    }
}

/// The field a column has after normalization: a Decimal128 column becomes a
/// Float64 column of the same name and nullability; any other is kept.
pub open spec fn normalized_field(f: (Seq<char>, ColumnKind, bool)) -> (Seq<char>, ColumnKind, bool) {
    if f.1 == ColumnKind::Decimal128 {
        (f.0, ColumnKind::Float64, f.2)
    } else {
        f
    }
}

/// The views of a sequence of fields.
pub open spec fn field_views(fields: Seq<ColumnField>) -> Seq<(Seq<char>, ColumnKind, bool)> {
    fields.map_values(|f: ColumnField| f@)
}

/// The kinds of a sequence of fields.
pub open spec fn field_kinds(fields: Seq<ColumnField>) -> Seq<ColumnKind> {
    fields.map_values(|f: ColumnField| f.kind)
}

/// The fields of a batch once normalized: `None` when no column needs a cast
/// (the schema is kept as it is), otherwise one field per column, each as
/// `normalized_field` says.
pub fn normalized_fields(fields: &[ColumnField]) -> (res: Option<Vec<ColumnField>>)
    ensures
        res is None <==> !has_decimal(field_kinds(fields@)),
        res is None <==> forall|i: int| 0 <= i < fields@.len() ==> #[trigger] fields@[i].kind != ColumnKind::Decimal128,
        match res {
            Some(out) => field_views(out@) == field_views(fields@).map_values(
                |f: (Seq<char>, ColumnKind, bool)| normalized_field(f),
            ),
            None => true,
        },
{
    let mut out: Vec<ColumnField> = Vec::new();
    let mut any = false;
    let mut i: usize = 0;
    while i < fields.len()
        invariant
            0 <= i <= fields@.len(),
            out@.len() == i,
            forall|j: int| 0 <= j < i ==> #[trigger] out@[j]@ == normalized_field(fields@[j]@),
            any <==> exists|j: int| 0 <= j < i && #[trigger] fields@[j].kind == ColumnKind::Decimal128,
        decreases fields@.len() - i,
    {
        let f = &fields[i];
        let kind = if f.kind == ColumnKind::Decimal128 {
            any = true;
            ColumnKind::Float64
        } else {
            f.kind
        };
        out.push(ColumnField { name: f.name.clone(), kind, nullable: f.nullable });
        i = i + 1;
    }
    proof {
        let ks = field_kinds(fields@);
        if any {
            let j = choose|j: int| 0 <= j < i && #[trigger] fields@[j].kind == ColumnKind::Decimal128;
            assert(ks[j] == ColumnKind::Decimal128);
        } else {
            assert forall|j: int| 0 <= j < ks.len() implies #[trigger] ks[j] != ColumnKind::Decimal128 by {
                assert(ks[j] == fields@[j].kind);
            }
        }
    }
    if any {
        assert(field_views(out@) =~= field_views(fields@).map_values(
            |f: (Seq<char>, ColumnKind, bool)| normalized_field(f),
        ));
        Some(out)
    } else {
        None
    }
}

/// Normalized fields keep their number, their names and their nullability,
/// and none of them is a Decimal128 field.
pub proof fn law_normalized_fields_keep_names(fields: Seq<(Seq<char>, ColumnKind, bool)>)
    ensures
        ({
            let n = fields.map_values(|f: (Seq<char>, ColumnKind, bool)| normalized_field(f));
            &&& n.len() == fields.len()
            &&& forall|i: int|
                0 <= i < n.len() ==> {
                    &&& #[trigger] n[i].0 == fields[i].0
                    &&& n[i].2 == fields[i].2
                    &&& n[i].1 != ColumnKind::Decimal128
                }
        }),
{
}

/// The error reported when a Decimal128 column cannot be cast.
pub fn cast_error_message(column: &str, cause: &str) -> (res: String)
    ensures
        res@ == "failed to cast column '"@ + column@ + "' from Decimal to Float64: "@ + cause@,
{
    let mut out = String::from_str("failed to cast column '");
    out.append(column);
    out.append("' from Decimal to Float64: ");
    out.append(cause);
    out
}

} // verus!
