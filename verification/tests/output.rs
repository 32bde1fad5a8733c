use ggsql_ext_rs::columns::{
    cast_error_message, normalization_plan, normalized_fields, ColumnField, ColumnKind, ColumnPlan,
};
use ggsql_ext_rs::output::{after_registration, deliver, output_mode, Delivery, OutputMode};
use ggsql_ext_rs::server::Registered;
use ggsql_ext_rs::html::standalone_html;

#[test]
fn mode_numbers() {
    assert_eq!(output_mode(0), Ok(OutputMode::Url));
    assert_eq!(output_mode(1), Ok(OutputMode::Spec));
    assert_eq!(output_mode(2), Ok(OutputMode::Html));
    assert_eq!(output_mode(3), Ok(OutputMode::Silent));
}

#[test]
fn unknown_mode_message() {
    assert_eq!(output_mode(4), Err("ggsql: unknown output mode 4".to_string()));
    assert_eq!(output_mode(-17), Err("ggsql: unknown output mode -17".to_string()));
    assert_eq!(
        output_mode(i32::MIN),
        Err("ggsql: unknown output mode -2147483648".to_string())
    );
    assert_eq!(
        output_mode(i32::MAX),
        Err("ggsql: unknown output mode 2147483647".to_string())
    );
}

#[test]
fn spec_mode_returns_the_json() {
    match deliver(OutputMode::Spec, "{\"mark\":\"line\"}".to_string(), "V", "L", "E") {
        Delivery::Text(t) => assert_eq!(t, "{\"mark\":\"line\"}"),
        Delivery::Serve(_) => panic!("spec mode must not serve"),
    }
}

#[test]
fn html_mode_returns_the_document() {
    match deliver(OutputMode::Html, "{}".to_string(), "V", "L", "E") {
        Delivery::Text(t) => assert_eq!(t, standalone_html("{}", "V", "L", "E")),
        Delivery::Serve(_) => panic!("html mode must not serve"),
    }
}

#[test]
fn url_and_silent_modes_serve() {
    for mode in [OutputMode::Url, OutputMode::Silent] {
        match deliver(mode, "{}".to_string(), "V", "L", "E") {
            Delivery::Serve(j) => assert_eq!(j, "{}"),
            Delivery::Text(_) => panic!("served modes go through the server"),
        }
    }
}

#[test]
fn after_registration_per_mode() {
    let reg = Registered {
        plot_url: "http://h/plot/1".to_string(),
        open_url: "http://h/".to_string(),
        should_open: true,
    };
    let url = "http://h/plot/1".to_string();
    let root = Some("http://h/".to_string());
    assert_eq!(after_registration(OutputMode::Url, &reg, false), (root.clone(), url.clone()));
    assert_eq!(after_registration(OutputMode::Silent, &reg, false), (root.clone(), String::new()));
    assert_eq!(after_registration(OutputMode::Url, &reg, true), (None, url.clone()));
    assert_eq!(after_registration(OutputMode::Silent, &reg, true), (None, String::new()));
}

#[test]
fn live_tab_keeps_the_browser_shut() {
    let tab_alive = Registered {
        plot_url: "http://h/plot/1".to_string(),
        open_url: "http://h/".to_string(),
        should_open: false,
    };
    assert_eq!(after_registration(OutputMode::Silent, &tab_alive, false), (None, String::new()));
    assert_eq!(
        after_registration(OutputMode::Url, &tab_alive, false),
        (None, "http://h/plot/1".to_string())
    );
}

#[test]
fn normalization_casts_only_decimals() {
    assert_eq!(normalization_plan(&[ColumnKind::Other, ColumnKind::Float64]), None);
    assert_eq!(normalization_plan(&[]), None);
    assert_eq!(
        normalization_plan(&[ColumnKind::Other, ColumnKind::Decimal128, ColumnKind::Float64]),
        Some(vec![ColumnPlan::Keep, ColumnPlan::CastToFloat64, ColumnPlan::Keep])
    );
}

#[test]
fn cast_error_text() {
    assert_eq!(
        cast_error_message("price", "overflow"),
        "failed to cast column 'price' from Decimal to Float64: overflow"
    );
}

fn field(name: &str, kind: ColumnKind, nullable: bool) -> ColumnField {
    ColumnField { name: name.to_string(), kind, nullable }
}

fn described(fields: &[ColumnField]) -> Vec<(String, ColumnKind, bool)> {
    fields.iter().map(|f| (f.name.clone(), f.kind, f.nullable)).collect()
}

#[test]
fn normalized_fields_keep_names_and_nullability() {
    assert!(normalized_fields(&[field("a", ColumnKind::Other, true)]).is_none());
    assert!(normalized_fields(&[]).is_none());
    let out = normalized_fields(&[
        field("price", ColumnKind::Decimal128, true),
        field("name", ColumnKind::Other, false),
        field("qty", ColumnKind::Decimal128, false),
        field("x", ColumnKind::Float64, true),
    ])
    .expect("a decimal column");
    assert_eq!(
        described(&out),
        vec![
            ("price".to_string(), ColumnKind::Float64, true),
            ("name".to_string(), ColumnKind::Other, false),
            ("qty".to_string(), ColumnKind::Float64, false),
            ("x".to_string(), ColumnKind::Float64, true),
        ]
    );
    assert!(normalized_fields(&out).is_none());
}
