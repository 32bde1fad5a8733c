//! The DuckDB flavour of the SQL that the ggsql engine generates.

use vstd::prelude::*;
use crate::naming::{quote_ident, quoted_ident};
use crate::text::{
    decimal, digits_value, doubled, joined, law_decimal_is_base_ten_numeral, law_doubling_reads_back, opt_view, push_decimal, push_doubled,
    push_joined_strings, push_joined_strs, str_equal, str_views, string_views, undoubled,
};

verus! {

broadcast use vstd::string::group_string_axioms;

/// The SQL dialect of DuckDB.
pub struct DuckDbDialect;

/// `f(e1, e2, ...)` for the opening `f(`, or the expression itself when
/// there is only one.
pub open spec fn variadic_call(opening: Seq<char>, exprs: Seq<Seq<char>>) -> Seq<char> {
    if exprs.len() == 1 {
        exprs[0]
    } else {
        opening + joined(exprs, ", "@) + ")"@
    }
}

/// A quoted SQL string literal holding `s`: single quotes around it, every
/// single quote inside written twice.
pub open spec fn string_literal(s: Seq<char>) -> Seq<char> {
    seq!['\''] + doubled(s, '\'') + seq!['\'']
}

/// A CRS name written as a SQL string literal reads back as that name: the
/// quotes inside it cannot end the literal early.
pub proof fn law_string_literal_reads_back(s: Seq<char>)
    ensures
        string_literal(s)[0] == '\'',
        string_literal(s).last() == '\'',
        undoubled(string_literal(s).drop_first().drop_last(), '\'') == s,
{
    let l = string_literal(s);
    assert(l.drop_first().drop_last() =~= doubled(s, '\''));
    law_doubling_reads_back(s, '\'');
}

/// The series CTE for `n` ends at `n - 1`: the numeral that
/// `sql_generate_series` writes as the upper bound is a string of decimal
/// digits that spells `n - 1`.
pub proof fn law_series_ends_before_n(n: nat)
    requires
        n >= 1,
    ensures
        digits_value(decimal((n - 1) as nat)) == n - 1,
        forall|i: int|
            0 <= i < decimal((n - 1) as nat).len() ==> '0' <= #[trigger] decimal((n - 1) as nat)[i]
                <= '9',
{
    law_decimal_is_base_ten_numeral((n - 1) as nat);
}

/// Only `first`, `last` and `diff` have a DuckDB-specific form; every other
/// aggregate name (`range`, `mean`, `sum`, ...) has none, so its portable form
/// is used as it is.
pub proof fn law_only_first_last_diff_are_native(name: Seq<char>, qcol: Seq<char>)
    ensures
        duckdb_aggregate(name, qcol) is Some <==> (name == "first"@ || name == "last"@ || name
            == "diff"@),
{
}

impl DuckDbDialect {
    /// Scalar maximum of the expressions: `GREATEST(e1, e2, ...)`, or the
    /// expression itself when there is only one.
    pub fn sql_greatest(&self, exprs: &[&str]) -> (res: String)
        ensures
            res@ == variadic_call("GREATEST("@, str_views(exprs@)),
    {
        if exprs.len() == 1 {
            return String::from_str(exprs[0]);
        }
        let mut out = String::from_str("GREATEST(");
        push_joined_strs(&mut out, exprs, ", ");
        out.append(")");
        out
    }

    /// Scalar minimum of the expressions: `LEAST(e1, e2, ...)`, or the
    /// expression itself when there is only one.
    pub fn sql_least(&self, exprs: &[&str]) -> (res: String)
        ensures
            res@ == variadic_call("LEAST("@, str_views(exprs@)),
    {
        if exprs.len() == 1 {
            return String::from_str(exprs[0]);
        }
        let mut out = String::from_str("LEAST(");
        push_joined_strs(&mut out, exprs, ", ");
        out.append(")");
        out
    }

    /// Transforms a geometry column between two coordinate reference systems,
    /// the CRS names given as SQL string literals.
    pub fn sql_st_transform(&self, column: &str, source_crs: &str, target_crs: &str) -> (res:
        String)
        ensures
            res@ == "ST_Transform("@ + column@ + ", "@ + string_literal(source_crs@) + ", "@
                + string_literal(target_crs@) + ", always_xy := true)"@,
    {
        let mut out = String::from_str("ST_Transform(");
        out.append(column);
        out.append(", '");
        push_doubled(&mut out, source_crs, '\'');
        out.append("', '");
        push_doubled(&mut out, target_crs, '\'');
        out.append("', always_xy := true)");
        proof {
            reveal_strlit(", '");
            reveal_strlit("', '");
            reveal_strlit("', always_xy := true)");
            reveal_strlit(", ");
            reveal_strlit(", always_xy := true)");
        }
        assert(out@ =~= "ST_Transform("@ + column@ + ", "@ + string_literal(source_crs@) + ", "@
            + string_literal(target_crs@) + ", always_xy := true)"@);
        out
    }

    /// Makes sure a column is of DuckDB's native geometry type: geometry
    /// columns arrive as WKB blobs.
    pub fn sql_ensure_geometry(&self, column: &str) -> (res: String)
        ensures
            res@ == "ST_GeomFromWKB(CAST("@ + column@ + " AS BLOB))"@,
    {
        let mut out = String::from_str("ST_GeomFromWKB(CAST(");
        out.append(column);
        out.append(" AS BLOB))");
        out
    }

    /// A `SELECT` of `from` with the column `col` replaced by `expr`, using
    /// DuckDB's `REPLACE`; the list of all columns is not needed.
    pub fn sql_select_replace(&self, expr: &str, col: &str, from: &str, all_columns: &[String]) -> (res:
        String)
        ensures
            res@ == "SELECT * REPLACE ("@ + expr@ + " AS "@ + col@ + ") FROM ("@ + from@ + ")"@,
    {
        let mut out = String::from_str("SELECT * REPLACE (");
        out.append(expr);
        out.append(" AS ");
        out.append(col);
        out.append(") FROM (");
        out.append(from);
        out.append(")");
        out
    }

    /// Converts a geometry column to WKB.
    pub fn sql_geometry_to_wkb(&self, column: &str) -> (res: String)
        ensures
            res@ == "ST_AsWKB("@ + column@ + ")"@,
    {
        let mut out = String::from_str("ST_AsWKB(");
        out.append(column);
        out.append(")");
        out
    }

    /// A query for the bounding box (`xmin`, `ymin`, `xmax`, `ymax`) of a
    /// geometry column of `from`.
    pub fn sql_geometry_bbox(&self, column: &str, from: &str) -> (res: String)
        ensures
            res@ == "SELECT ST_XMin(ext) AS xmin, ST_YMin(ext) AS ymin, ST_XMax(ext) AS xmax, ST_YMax(ext) AS ymax FROM (SELECT ST_Extent_Agg("@
                + column@ + ") AS ext FROM "@ + from@ + ")"@,
    {
        let mut out = String::from_str(
            "SELECT ST_XMin(ext) AS xmin, ST_YMin(ext) AS ymin, ST_XMax(ext) AS xmax, ST_YMax(ext) AS ymax FROM (SELECT ST_Extent_Agg(",
        );
        out.append(column);
        out.append(") AS ext FROM ");
        out.append(from);
        out.append(")");
        out
    }

    /// The statements to run before spatial operations: load DuckDB's
    /// spatial extension.
    pub fn sql_spatial_setup(&self) -> (res: Vec<String>)
        ensures
            res@.len() == 1,
            res@[0]@ == "LOAD spatial"@,
    {
        let mut res: Vec<String> = Vec::new();
        res.push(String::from_str("LOAD spatial"));
        res
    }

    /// A CTE fragment producing table `__ggsql_seq__` with column `n`
    /// holding `0 .. n - 1`. One is subtracted from `n` unchecked,
    /// so `n` must be positive.
    pub fn sql_generate_series(&self, n: usize) -> (res: String)
        requires
            n >= 1,
        ensures
            res@ == "\"__ggsql_seq__\"(n) AS (SELECT generate_series FROM GENERATE_SERIES(0, "@
                + decimal((n - 1) as nat) + "))"@,
    {
        let mut out = String::from_str(
            "\"__ggsql_seq__\"(n) AS (SELECT generate_series FROM GENERATE_SERIES(0, ",
        );
        push_decimal(&mut out, (n - 1) as u64);
        out.append("))");
        out
    }
}

/// A body query whose output columns are renamed to `aliases`: wrapped in a
/// CTE with a column alias list when there are aliases, unchanged otherwise.
pub open spec fn aliased_body(body: Seq<char>, aliases: Seq<Seq<char>>) -> Seq<char> {
    if aliases.len() == 0 {
        body
    } else {
        "WITH __ggsql_aliased__("@ + joined(aliases.map_values(|a: Seq<char>| quoted_ident(a)), ", "@)
            + ") AS ("@ + body + ") SELECT * FROM __ggsql_aliased__"@
    }
}

/// The quoted forms of the names.
pub fn quote_all(names: &[String]) -> (res: Vec<String>)
    ensures
        string_views(res@) == string_views(names@).map_values(|a: Seq<char>| quoted_ident(a)),
{
    let mut res: Vec<String> = Vec::new();
    let mut i: usize = 0;
    while i < names.len()
        invariant
            0 <= i <= names@.len(),
            res@.len() == i,
            forall|j: int| 0 <= j < i ==> #[trigger] res@[j]@ == quoted_ident(names@[j]@),
        decreases names@.len() - i,
    {
        res.push(quote_ident(names[i].as_str()));
        i = i + 1;
    }
    assert(string_views(res@) =~= string_views(names@).map_values(
        |a: Seq<char>| quoted_ident(a),
    ));
    res
}

/// Renames the output columns of `body_sql` to `column_aliases` by wrapping
/// it in a CTE with a column alias list; without aliases the body is kept as
/// it is. This avoids `CREATE TABLE t(a, b) AS ...`, which not every backend
/// supports.
pub fn wrap_with_column_aliases(body_sql: &str, column_aliases: &[String]) -> (res: String)
    ensures
        res@ == aliased_body(body_sql@, string_views(column_aliases@)),
{
    if column_aliases.len() == 0 {
        return String::from_str(body_sql);
    }
    let quoted = quote_all(column_aliases);
    let mut out = String::from_str("WITH __ggsql_aliased__(");
    push_joined_strings(&mut out, quoted.as_slice(), ", ");
    out.append(") AS (");
    out.append(body_sql);
    out.append(") SELECT * FROM __ggsql_aliased__");
    out
}

/// The filter that ties the percentile subquery to one group column.
pub open spec fn group_filter(group: Seq<char>) -> Seq<char> {
    "AND "@ + quoted_ident("__ggsql_pct__"@) + "."@ + quoted_ident(group) + " IS NOT DISTINCT FROM "@
        + quoted_ident("__ggsql_qt__"@) + "."@ + quoted_ident(group)
}

/// The DuckDB form of an aggregate, where it differs from the portable one.
pub open spec fn duckdb_aggregate(name: Seq<char>, qcol: Seq<char>) -> Option<Seq<char>> {
    if name == "first"@ {
        Some("FIRST("@ + qcol + ")"@)
    } else if name == "last"@ {
        Some("LAST("@ + qcol + ")"@)
    } else if name == "diff"@ {
        Some("(LAST("@ + qcol + ") - FIRST("@ + qcol + "))"@)
    } else {
        None
    }
}

impl DuckDbDialect {
    /// The statements that (re)create the temporary table `name` holding the
    /// result of `body_sql`, its columns renamed to `column_aliases`: a single
    /// `CREATE OR REPLACE TEMP TABLE`.
    pub fn create_or_replace_temp_table_sql(
        &self,
        name: &str,
        column_aliases: &[String],
        body_sql: &str,
    ) -> (res: Vec<String>)
        ensures
            res@.len() == 1,
            res@[0]@ == "CREATE OR REPLACE TEMP TABLE "@ + quoted_ident(name@) + " AS "@
                + aliased_body(body_sql@, string_views(column_aliases@)),
    {
        let body = wrap_with_column_aliases(body_sql, column_aliases);
        let mut stmt = String::from_str("CREATE OR REPLACE TEMP TABLE ");
        let qname = quote_ident(name);
        stmt.append(qname.as_str());
        stmt.append(" AS ");
        stmt.append(body.as_str());
        let mut res: Vec<String> = Vec::new();
        res.push(stmt);
        res
    }

    /// The inline quantile aggregate `QUANTILE_CONT("column", fraction)`.
    /// `fraction` is the fraction as Rust prints the `f64` (its `Display` form).
    pub fn sql_quantile_inline(&self, column: &str, fraction: &str) -> (res: Option<String>)
        ensures
            opt_view(res) == Some("QUANTILE_CONT("@ + quoted_ident(column@) + ", "@ + fraction@ + ")"@),
    {
        let mut out = String::from_str("QUANTILE_CONT(");
        let qc = quote_ident(column);
        out.append(qc.as_str());
        out.append(", ");
        out.append(fraction);
        out.append(")");
        Some(out)
    }

    /// The aggregate `name` over the quoted column `qcol`: DuckDB's native
    /// `FIRST` and `LAST` for `first`, `last` and `diff`, and otherwise
    /// `portable_form`, which is what ggsql's `default_sql_aggregate` gives for
    /// the same arguments.
    pub fn sql_aggregate(&self, name: &str, qcol: &str, portable_form: Option<String>) -> (res:
        Option<String>)
        ensures
            opt_view(res) == match duckdb_aggregate(name@, qcol@) {
                Some(s) => Some(s),
                None => opt_view(portable_form),
            },
            name@ != "first"@ && name@ != "last"@ && name@ != "diff"@ ==> opt_view(res) == opt_view(
                portable_form,
            ),
    {
        if str_equal(name, "first") {
            let mut out = String::from_str("FIRST(");
            out.append(qcol);
            out.append(")");
            return Some(out);
        }
        if str_equal(name, "last") {
            let mut out = String::from_str("LAST(");
            out.append(qcol);
            out.append(")");
            return Some(out);
        }
        if str_equal(name, "diff") {
            let mut out = String::from_str("(LAST(");
            out.append(qcol);
            out.append(") - FIRST(");
            out.append(qcol);
            out.append("))");
            return Some(out);
        }
        portable_form
    }

    /// A scalar subquery giving the `fraction` quantile of `column` over
    /// `from`, restricted to the rows whose `groups` columns match those of the
    /// outer query. `fraction` is the fraction as Rust prints the `f64`.
    pub fn sql_percentile(&self, column: &str, fraction: &str, from: &str, groups: &[String]) -> (res:
        String)
        ensures
            res@ == "(SELECT QUANTILE_CONT("@ + quoted_ident(column@) + ", "@ + fraction@
                + ") FROM ("@ + from@ + ") AS \"__ggsql_pct__\" WHERE "@ + quoted_ident(column@)
                + " IS NOT NULL "@ + joined(
                string_views(groups@).map_values(|g: Seq<char>| group_filter(g)),
                " "@,
            ) + ")"@,
    {
        let pct = quote_ident("__ggsql_pct__");
        let qt = quote_ident("__ggsql_qt__");
        let mut filters: Vec<String> = Vec::new();
        let mut i: usize = 0;
        while i < groups.len()
            invariant
                0 <= i <= groups@.len(),
                pct@ == quoted_ident("__ggsql_pct__"@),
                qt@ == quoted_ident("__ggsql_qt__"@),
                filters@.len() == i,
                forall|j: int| 0 <= j < i ==> #[trigger] filters@[j]@ == group_filter(groups@[j]@),
            decreases groups@.len() - i,
        {
            let q = quote_ident(groups[i].as_str());
            let mut f = String::from_str("AND ");
            f.append(pct.as_str());
            f.append(".");
            f.append(q.as_str());
            f.append(" IS NOT DISTINCT FROM ");
            f.append(qt.as_str());
            f.append(".");
            f.append(q.as_str());
            filters.push(f);
            i = i + 1;
        }
        assert(string_views(filters@) =~= string_views(groups@).map_values(
            |g: Seq<char>| group_filter(g),
        ));
        let qc = quote_ident(column);
        let mut out = String::from_str("(SELECT QUANTILE_CONT(");
        out.append(qc.as_str());
        out.append(", ");
        out.append(fraction);
        out.append(") FROM (");
        out.append(from);
        out.append(") AS \"__ggsql_pct__\" WHERE ");
        out.append(qc.as_str());
        out.append(" IS NOT NULL ");
        push_joined_strings(&mut out, filters.as_slice(), " ");
        out.append(")");
        out
    }
}

} // verus!
