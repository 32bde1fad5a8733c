# ggsql_ext_rs

The Rust side of the ggsql DuckDB extension, as a Verus-verified library
(`src/`) with a thin C ABI layer around it (`app/`).

`src/`:
- `dialect.rs`, `naming.rs`: the DuckDB SQL that the ggsql engine asks for
  (identifier quoting, greatest/least, spatial helpers, temp tables, series,
  quantiles, aggregates).
- `server.rs`: the plot registry behind the local HTTP server, request routing,
  and whether a page tab seems alive (recent polls).
- `html.rs`: the self-contained HTML document for the `html` output mode.
- `output.rs`: the output modes, what a rendered spec becomes in each, and
  when a browser is opened (only when no tab seems alive).
- `columns.rs`: which result columns are cast before ggsql sees them.
- `text.rs`: string building blocks (joining, quote doubling, decimals).

`app/` holds the `extern "C"` entry points, the Arrow/FFI reader, the
tiny_http server loop, browser opening and the vendored Vega bundles, which
are embedded from the extension's `assets/` directory at build time.
