//! What a query's rendered spec becomes, for each output mode.

use vstd::prelude::*;
use crate::html::{standalone_document, standalone_html};
use crate::server::Registered;
use crate::text::{opt_view, push_signed_decimal, signed_decimal};

verus! {

/// Output mode number: open the browser and return the plot URL.
pub const MODE_URL: i32 = 0;

/// Output mode number: return the raw Vega-Lite JSON.
pub const MODE_SPEC: i32 = 1;

/// Output mode number: return a self-contained HTML document.
pub const MODE_HTML: i32 = 2;

/// Output mode number: open the browser and return nothing.
pub const MODE_SILENT: i32 = 3;

/// The output modes of a ggsql query.
#[derive(Clone, Copy, PartialEq, Eq, Structural, Debug)]
pub enum OutputMode {
    Url,
    Spec,
    Html,
    Silent,
}

/// The output mode that a mode number stands for.
pub open spec fn mode_of(mode: i32) -> Option<OutputMode> {
    if mode == MODE_URL {
        Some(OutputMode::Url)
    } else if mode == MODE_SPEC {
        Some(OutputMode::Spec)
    } else if mode == MODE_HTML {
        Some(OutputMode::Html)
    } else if mode == MODE_SILENT {
        Some(OutputMode::Silent)
    } else {
        None
    }
}

/// The output mode for a mode number, or the error message for an unknown one.
pub fn output_mode(mode: i32) -> (res: Result<OutputMode, String>)
    ensures
        match res {
            Ok(m) => mode_of(mode) == Some(m),
            Err(msg) => mode_of(mode) is None && msg@ == "ggsql: unknown output mode "@
                + signed_decimal(mode as int),
        },
{
    if mode == MODE_URL {
        Ok(OutputMode::Url)
    } else if mode == MODE_SPEC {
        Ok(OutputMode::Spec)
    } else if mode == MODE_HTML {
        Ok(OutputMode::Html)
    } else if mode == MODE_SILENT {
        Ok(OutputMode::Silent)
    } else {
        let mut msg = String::from_str("ggsql: unknown output mode ");
        push_signed_decimal(&mut msg, mode as i64);
        Err(msg)
    }
}

/// What to do with a rendered spec.
pub enum Delivery {
    /// Hand this text back to the caller.
    Text(String),
    /// Register this spec with the plot server first.
    Serve(String),
}

/// Whether `mode` shows the plot through the plot server.
pub open spec fn is_served(mode: OutputMode) -> bool {
    mode == OutputMode::Url || mode == OutputMode::Silent
}

/// What a rendered spec becomes: the JSON itself in `Spec` mode, the
/// standalone HTML document in `Html` mode (with the three script bundles
/// inlined), and a registration with the plot server otherwise.
pub fn deliver(mode: OutputMode, spec_json: String, vega: &str, vega_lite: &str, vega_embed: &str) -> (res:
    Delivery)
    ensures
        match res {
            Delivery::Text(t) => !is_served(mode) && t@ == (if mode == OutputMode::Spec {
                spec_json@
            } else {
                standalone_document(spec_json@, vega@, vega_lite@, vega_embed@)
            }),
            Delivery::Serve(j) => is_served(mode) && j@ == spec_json@,
        },
{
    match mode {
        OutputMode::Spec => Delivery::Text(spec_json),
        OutputMode::Html => Delivery::Text(
            standalone_html(spec_json.as_str(), vega, vega_lite, vega_embed),
        ),
        _ => Delivery::Serve(spec_json),
    }
}

/// Once a spec is registered: the URL to open the default browser on, and
/// the text to hand back. A browser is opened on the server's root page only
/// when no page tab seems alive (`registered.should_open`) and opening is not
/// suppressed: an already-open tab picks the new plot up through its poll
/// loop, and opening a tab on every query would pile up windows. The text is
/// the plot URL in `Url` mode and nothing in `Silent` mode.
pub fn after_registration(mode: OutputMode, registered: &Registered, browser_suppressed: bool) -> (res:
    (Option<String>, String))
    requires
        is_served(mode),
    ensures
        opt_view(res.0) == (if registered.should_open && !browser_suppressed {
            Some(registered.open_url@)
        } else {
            None
        }),
        res.1@ == (if mode == OutputMode::Url {
            registered.plot_url@
        } else {
            Seq::<char>::empty()
        }),
{
    let open = if registered.should_open && !browser_suppressed {
        Some(registered.open_url.clone())
    } else {
        None
    };
    let text = match mode {
        OutputMode::Url => registered.plot_url.clone(),
        _ => String::new(),
    };
    (open, text)
}

} // verus!
