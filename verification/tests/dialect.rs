use ggsql_ext_rs::dialect::DuckDbDialect;
use ggsql_ext_rs::naming::quote_ident;
use ggsql_ext_rs::wrap_with_column_aliases;

#[test]
fn greatest_of_one_expression_is_the_expression() {
    let d = DuckDbDialect;
    assert_eq!(d.sql_greatest(&["a + 1"]), "a + 1");
    assert_eq!(d.sql_least(&["x"]), "x");
}

#[test]
fn greatest_and_least_of_several() {
    let d = DuckDbDialect;
    assert_eq!(d.sql_greatest(&["a", "b", "c"]), "GREATEST(a, b, c)");
    assert_eq!(d.sql_least(&["a", "b"]), "LEAST(a, b)");
}

#[test]
fn greatest_of_none_is_an_empty_call() {
    let d = DuckDbDialect;
    assert_eq!(d.sql_greatest(&[]), "GREATEST()");
    assert_eq!(d.sql_least(&[]), "LEAST()");
}

#[test]
fn st_transform_escapes_quotes_in_crs() {
    let d = DuckDbDialect;
    assert_eq!(
        d.sql_st_transform("geom", "EPSG:4326", "+proj=x 'y'"),
        "ST_Transform(geom, 'EPSG:4326', '+proj=x ''y''', always_xy := true)"
    );
}

#[test]
fn geometry_helpers() {
    let d = DuckDbDialect;
    assert_eq!(d.sql_ensure_geometry("g"), "ST_GeomFromWKB(CAST(g AS BLOB))");
    assert_eq!(d.sql_geometry_to_wkb("g"), "ST_AsWKB(g)");
    assert_eq!(
        d.sql_geometry_bbox("g", "t"),
        "SELECT ST_XMin(ext) AS xmin, ST_YMin(ext) AS ymin, ST_XMax(ext) AS xmax, ST_YMax(ext) AS ymax FROM (SELECT ST_Extent_Agg(g) AS ext FROM t)"
    );
    assert_eq!(d.sql_spatial_setup(), vec!["LOAD spatial".to_string()]);
}

#[test]
fn select_replace_ignores_column_list() {
    let d = DuckDbDialect;
    let cols = vec!["a".to_string(), "b".to_string()];
    assert_eq!(
        d.sql_select_replace("x * 2", "\"x\"", "SELECT * FROM t", &cols),
        "SELECT * REPLACE (x * 2 AS \"x\") FROM (SELECT * FROM t)"
    );
    assert_eq!(
        d.sql_select_replace("x * 2", "\"x\"", "SELECT * FROM t", &[]),
        "SELECT * REPLACE (x * 2 AS \"x\") FROM (SELECT * FROM t)"
    );
}

#[test]
fn generate_series_counts_up_to_n_minus_one() {
    let d = DuckDbDialect;
    assert_eq!(
        d.sql_generate_series(10),
        "\"__ggsql_seq__\"(n) AS (SELECT generate_series FROM GENERATE_SERIES(0, 9))"
    );
    assert_eq!(
        d.sql_generate_series(1),
        "\"__ggsql_seq__\"(n) AS (SELECT generate_series FROM GENERATE_SERIES(0, 0))"
    );
    assert_eq!(
        d.sql_generate_series(123457),
        "\"__ggsql_seq__\"(n) AS (SELECT generate_series FROM GENERATE_SERIES(0, 123456))"
    );
}

#[test]
fn quote_ident_doubles_inner_quotes() {
    assert_eq!(quote_ident("__ggsql_aes_x__"), "\"__ggsql_aes_x__\"");
    assert_eq!(quote_ident("has\"quote"), "\"has\"\"quote\"");
    assert_eq!(quote_ident(""), "\"\"");
}

#[test]
fn temp_table_without_aliases() {
    let d = DuckDbDialect;
    assert_eq!(
        d.create_or_replace_temp_table_sql("t", &[], "SELECT 1"),
        vec!["CREATE OR REPLACE TEMP TABLE \"t\" AS SELECT 1".to_string()]
    );
}

#[test]
fn temp_table_with_aliases() {
    let d = DuckDbDialect;
    let aliases = vec!["a".to_string(), "b\"c".to_string()];
    assert_eq!(
        d.create_or_replace_temp_table_sql("my t", &aliases, "SELECT 1, 2"),
        vec![
            "CREATE OR REPLACE TEMP TABLE \"my t\" AS WITH __ggsql_aliased__(\"a\", \"b\"\"c\") AS (SELECT 1, 2) SELECT * FROM __ggsql_aliased__"
                .to_string()
        ]
    );
}

#[test]
fn wrap_without_aliases_keeps_body() {
    assert_eq!(wrap_with_column_aliases("SELECT 1", &[]), "SELECT 1");
    let one = vec!["x".to_string()];
    assert_eq!(
        wrap_with_column_aliases("SELECT 1", &one),
        "WITH __ggsql_aliased__(\"x\") AS (SELECT 1) SELECT * FROM __ggsql_aliased__"
    );
}

#[test]
fn quantile_inline_uses_quantile_cont() {
    let d = DuckDbDialect;
    let fraction = 0.25f64.to_string();
    assert_eq!(
        d.sql_quantile_inline("price", &fraction),
        Some("QUANTILE_CONT(\"price\", 0.25)".to_string())
    );
}

#[test]
fn duckdb_aggregates_use_first_and_last() {
    let d = DuckDbDialect;
    assert_eq!(d.sql_aggregate("first", "\"v\"", None), Some("FIRST(\"v\")".to_string()));
    assert_eq!(d.sql_aggregate("last", "\"v\"", None), Some("LAST(\"v\")".to_string()));
    assert_eq!(
        d.sql_aggregate("diff", "\"v\"", None),
        Some("(LAST(\"v\") - FIRST(\"v\"))".to_string())
    );
}

#[test]
fn other_aggregates_take_the_portable_form() {
    let d = DuckDbDialect;
    assert_eq!(
        d.sql_aggregate("sum", "\"v\"", Some("SUM(\"v\")".to_string())),
        Some("SUM(\"v\")".to_string())
    );
    assert_eq!(d.sql_aggregate("nonsense", "\"v\"", None), None);
    assert_eq!(
        d.sql_aggregate("first", "\"v\"", Some("portable".to_string())),
        Some("FIRST(\"v\")".to_string())
    );
}

#[test]
fn percentile_without_groups() {
    let d = DuckDbDialect;
    let fraction = 0.5f64.to_string();
    assert_eq!(
        d.sql_percentile("y", &fraction, "SELECT * FROM t", &[]),
        "(SELECT QUANTILE_CONT(\"y\", 0.5) FROM (SELECT * FROM t) AS \"__ggsql_pct__\" WHERE \"y\" IS NOT NULL )"
    );
}

#[test]
fn percentile_with_groups() {
    let d = DuckDbDialect;
    let groups = vec!["g".to_string(), "h".to_string()];
    assert_eq!(
        d.sql_percentile("y", "0.9", "t", &groups),
        "(SELECT QUANTILE_CONT(\"y\", 0.9) FROM (t) AS \"__ggsql_pct__\" WHERE \"y\" IS NOT NULL AND \"__ggsql_pct__\".\"g\" IS NOT DISTINCT FROM \"__ggsql_qt__\".\"g\" AND \"__ggsql_pct__\".\"h\" IS NOT DISTINCT FROM \"__ggsql_qt__\".\"h\")"
    );
}
