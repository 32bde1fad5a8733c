//! Rust side of the ggsql DuckDB extension: the SQL dialect, the plot
//! registry and HTTP routing, and the output-mode rules, with their contracts.

pub mod naming;
pub mod text;
pub mod html;
pub mod server;
pub mod dialect;
pub mod columns;
pub mod output;

pub use dialect::{wrap_with_column_aliases, DuckDbDialect};
pub use html::standalone_html;
pub use naming::quote_ident;
pub use output::{output_mode, OutputMode, MODE_HTML, MODE_SILENT, MODE_SPEC, MODE_URL};
pub use server::{Registered, Reply, ServerState};
