use ggsql_ext_rs::server::{Asset, Reply, ServerState, NOT_FOUND_BODY, TAB_ALIVE_WINDOW_NANOS};

fn state() -> ServerState {
    ServerState::for_address("127.0.0.1", 8080)
}

fn is_json(r: &Reply, expected: &str) -> bool {
    match r {
        Reply::Json(b) => b == expected,
        _ => false,
    }
}

#[test]
fn urls_use_base_address() {
    let mut st = state();
    let reg = st.register_spec_with_id("abc".to_string(), "{}".to_string(), 0);
    assert_eq!(reg.plot_url, "http://127.0.0.1:8080/plot/abc");
    assert_eq!(reg.open_url, "http://127.0.0.1:8080/");
}

#[test]
fn registered_spec_is_served_back() {
    let mut st = state();
    st.register_spec_with_id("id1".to_string(), "{\"a\":1}".to_string(), 0);
    let r = st.route("/api/spec/id1", 1);
    assert!(is_json(&r, "{\"a\":1}"));
    let r = st.route("/api/spec/id1/", 1);
    assert!(is_json(&r, "{\"a\":1}"));
    let r = st.route("/api/spec/id1//?cache=0", 1);
    assert!(is_json(&r, "{\"a\":1}"));
    assert!(matches!(st.route("/api/spec/nope", 1), Reply::NotFound));
}

#[test]
fn registering_again_replaces_the_spec() {
    let mut st = state();
    st.register_spec_with_id("id1".to_string(), "old".to_string(), 0);
    st.register_spec_with_id("id2".to_string(), "other".to_string(), 0);
    st.register_spec_with_id("id1".to_string(), "new".to_string(), 0);
    assert!(is_json(&st.route("/api/spec/id1", 0), "new"));
    assert!(is_json(&st.route("/api/spec/id2", 0), "other"));
    assert!(is_json(&st.route("/api/latest", 0), "{\"uuid\":\"id1\"}"));
}

#[test]
fn latest_before_and_after_registration() {
    let mut st = state();
    assert!(is_json(&st.route("/api/latest", 0), "{\"uuid\":null}"));
    st.register_spec_with_id("x".to_string(), "{}".to_string(), 0);
    assert!(is_json(&st.route("/api/latest?t=1", 0), "{\"uuid\":\"x\"}"));
}

#[test]
fn first_registration_asks_for_a_browser() {
    let mut st = state();
    let reg = st.register_spec_with_id("a".to_string(), "{}".to_string(), 123);
    assert!(reg.should_open);
}

#[test]
fn recent_poll_keeps_the_browser_shut() {
    let mut st = state();
    st.route("/api/latest", 1_000);
    let reg = st.register_spec_with_id("a".to_string(), "{}".to_string(), 1_000 + TAB_ALIVE_WINDOW_NANOS);
    assert!(!reg.should_open);
    let reg = st.register_spec_with_id("b".to_string(), "{}".to_string(), 1_001 + TAB_ALIVE_WINDOW_NANOS);
    assert!(reg.should_open);
}

#[test]
fn mark_poll_counts_as_a_poll() {
    let mut st = state();
    st.mark_poll(50);
    let reg = st.register_spec_with_id("a".to_string(), "{}".to_string(), 60);
    assert!(!reg.should_open);
}

#[test]
fn random_ids_are_hyphenated_uuids() {
    let mut st = state();
    let reg = st.register_spec("{\"k\":2}".to_string(), 0).expect("random source");
    let prefix = "http://127.0.0.1:8080/plot/";
    assert!(reg.plot_url.starts_with(prefix));
    let id = &reg.plot_url[prefix.len()..];
    assert_eq!(id.len(), 36);
    for (i, c) in id.chars().enumerate() {
        if i == 8 || i == 13 || i == 18 || i == 23 {
            assert_eq!(c, '-');
        } else {
            assert!(c.is_ascii_hexdigit() && !c.is_ascii_uppercase());
        }
    }
    let path = format!("/api/spec/{}", id);
    assert!(is_json(&st.route(&path, 0), "{\"k\":2}"));
    assert!(matches!(st.route(&format!("/plot/{}", id), 0), Reply::AppShell));
    let version = id.chars().nth(14).unwrap();
    assert_eq!(version, '4');
    let variant = id.chars().nth(19).unwrap();
    assert!("89ab".contains(variant));
    let reg2 = st.register_spec("{}".to_string(), 0).expect("random source");
    assert_ne!(reg.plot_url, reg2.plot_url);
}

#[test]
fn static_assets_and_pages() {
    let mut st = state();
    assert!(matches!(st.route("/assets/vega.min.js", 0), Reply::Asset(Asset::Vega)));
    assert!(matches!(st.route("/assets/vega-lite.min.js?v=5", 0), Reply::Asset(Asset::VegaLite)));
    assert!(matches!(st.route("/assets/vega-embed.min.js", 0), Reply::Asset(Asset::VegaEmbed)));
    assert!(matches!(st.route("/", 0), Reply::AppShell));
    assert!(matches!(st.route("/?x=1", 0), Reply::AppShell));
    assert!(matches!(st.route("/plot/abc", 0), Reply::AppShell));
    assert!(matches!(st.route("/plots", 0), Reply::NotFound));
    assert!(matches!(st.route("/assets/other.js", 0), Reply::NotFound));
    assert!(matches!(st.route("", 0), Reply::NotFound));
}

#[test]
fn reply_status_and_headers() {
    let h = |name: &str, value: &str| (name.to_string(), value.to_string());
    assert_eq!(Reply::NotFound.status(), 404);
    assert_eq!(Reply::AppShell.status(), 200);
    assert!(Reply::NotFound.headers().is_empty());
    assert_eq!(NOT_FOUND_BODY, "not found");
    assert_eq!(
        Reply::AppShell.headers(),
        vec![h("Content-Type", "text/html; charset=utf-8")]
    );
    assert_eq!(
        Reply::Json("{}".to_string()).headers(),
        vec![
            h("Content-Type", "application/json; charset=utf-8"),
            h("Cache-Control", "no-store")
        ]
    );
    assert_eq!(
        Reply::Asset(Asset::Vega).headers(),
        vec![
            h("Content-Type", "application/javascript; charset=utf-8"),
            h("Cache-Control", "public, max-age=31536000, immutable")
        ]
    );
}

#[test]
fn spec_for_looks_up_by_id() {
    let mut st = state();
    st.register_spec_with_id("q".to_string(), "S".to_string(), 0);
    assert_eq!(st.spec_for(&"q".to_string()), Some("S".to_string()));
    assert_eq!(st.spec_for(&"r".to_string()), None);
    assert_eq!(st.latest_json(), "{\"uuid\":\"q\"}");
}

#[test]
fn two_registrations_share_the_server() {
    let mut st = state();
    let r1 = st.register_spec("A".to_string(), 0).expect("random source");
    let r2 = st.register_spec("B".to_string(), 0).expect("random source");
    assert_eq!(r1.open_url, r2.open_url);
    assert!(r1.plot_url.starts_with(&r1.open_url));
    assert!(r2.plot_url.starts_with(&r2.open_url));
    assert_ne!(r1.plot_url, r2.plot_url);
    let id1 = &r1.plot_url["http://127.0.0.1:8080/plot/".len()..];
    let id2 = &r2.plot_url["http://127.0.0.1:8080/plot/".len()..];
    assert_eq!(st.spec_for(&id1.to_string()), Some("A".to_string()));
    assert_eq!(st.spec_for(&id2.to_string()), Some("B".to_string()));
    assert_eq!(st.latest_json(), format!("{{\"uuid\":\"{}\"}}", id2));
}

#[test]
fn drawn_bytes_make_the_plot_id() {
    let mut st = state();
    let reg = st.register_spec_with_bytes(Some([0u8; 16]), "Z".to_string(), 0).expect("drawn");
    assert_eq!(reg.plot_url, "http://127.0.0.1:8080/plot/00000000-0000-4000-8000-000000000000");
    assert_eq!(reg.open_url, "http://127.0.0.1:8080/");
    assert!(reg.should_open);
    assert_eq!(st.spec_for(&"00000000-0000-4000-8000-000000000000".to_string()), Some("Z".to_string()));
    let bytes: [u8; 16] = [
        0x01, 0x23, 0x45, 0x67, 0x89, 0xab, 0xff, 0xef, 0xff, 0x10, 0x32, 0x54, 0x76, 0x98, 0xba, 0xdc,
    ];
    let reg = st.register_spec_with_bytes(Some(bytes), "Y".to_string(), 0).expect("drawn");
    assert_eq!(reg.plot_url, "http://127.0.0.1:8080/plot/01234567-89ab-4fef-bf10-32547698badc");
    assert_eq!(st.latest_json(), "{\"uuid\":\"01234567-89ab-4fef-bf10-32547698badc\"}");
    assert_eq!(st.spec_for(&"00000000-0000-4000-8000-000000000000".to_string()), Some("Z".to_string()));
}

#[test]
fn failed_draw_registers_nothing() {
    let mut st = state();
    assert!(st.register_spec_with_bytes(None, "X".to_string(), 0).is_none());
    assert_eq!(st.latest_json(), "{\"uuid\":null}");
}

#[test]
fn draws_differing_only_in_version_bits_share_an_id() {
    let mut st = state();
    let mut a = [7u8; 16];
    let mut b = [7u8; 16];
    a[6] = 0x07;
    b[6] = 0xf7;
    let ra = st.register_spec_with_bytes(Some(a), "A".to_string(), 0).expect("drawn");
    let rb = st.register_spec_with_bytes(Some(b), "B".to_string(), 0).expect("drawn");
    assert_eq!(ra.plot_url, rb.plot_url);
    b[0] = 8;
    let rc = st.register_spec_with_bytes(Some(b), "C".to_string(), 0).expect("drawn");
    assert_ne!(ra.plot_url, rc.plot_url);
}
