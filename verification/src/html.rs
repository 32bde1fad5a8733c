//! The self-contained HTML document that embeds a Vega-Lite spec.

use vstd::prelude::*;
use crate::text::{chars_of, push_char};

verus! {

broadcast use vstd::string::group_string_axioms;

/// `s` with every `</` written as `<\/`, so that the text cannot close the
/// `<script>` element it is embedded in (`\/` stands for `/` inside JSON).
pub open spec fn escape_script_close(s: Seq<char>) -> Seq<char>
    decreases s.len(),
{
    if s.len() == 0 {
        seq![]
    } else if s.len() >= 2 && s[0] == '<' && s[1] == '/' {
        seq!['<', '\\', '/'] + escape_script_close(s.skip(2))
    } else {
        seq![s[0]] + escape_script_close(s.skip(1))
    }
}

/// Whether `s` contains the two characters `</` next to each other.
pub open spec fn contains_close_tag_start(s: Seq<char>) -> bool {
    exists|i: int| 0 <= i < s.len() - 1 && #[trigger] s[i] == '<' && s[i + 1] == '/'
}

/// The escaped text begins with the same character as the text.
proof fn lemma_escape_first(s: Seq<char>)
    requires
        s.len() > 0,
    ensures
        escape_script_close(s).len() > 0,
        escape_script_close(s)[0] == s[0],
{
}

/// After escaping, no `</` is left.
pub proof fn lemma_escape_removes_close_tags(s: Seq<char>)
    ensures
        !contains_close_tag_start(escape_script_close(s)),
    decreases s.len(),
{
    if s.len() == 0 {
    } else if s.len() >= 2 && s[0] == '<' && s[1] == '/' {
        let rest = escape_script_close(s.skip(2));
        lemma_escape_removes_close_tags(s.skip(2));
        let r = escape_script_close(s);
        assert(r =~= seq!['<', '\\', '/'] + rest);
        assert forall|i: int| 0 <= i < r.len() - 1 implies !(#[trigger] r[i] == '<' && r[i + 1] == '/') by {
            if i >= 3 {
                assert(r[i] == rest[i - 3] && r[i + 1] == rest[i - 2]);
            }
        }
    } else {
        let rest = escape_script_close(s.skip(1));
        lemma_escape_removes_close_tags(s.skip(1));
        let r = escape_script_close(s);
        assert(r =~= seq![s[0]] + rest);
        assert forall|i: int| 0 <= i < r.len() - 1 implies !(#[trigger] r[i] == '<' && r[i + 1] == '/') by {
            if i >= 1 {
                assert(r[i] == rest[i - 1] && r[i + 1] == rest[i]);
            } else {
                lemma_escape_first(s.skip(1));
                assert(r[1] == s[1]);
            }
        }
    }
}

/// Appends `escape_script_close(s)` to `out`.
pub fn push_escaped_script_text(out: &mut String, s: &str)
    ensures
        final(out)@ == old(out)@ + escape_script_close(s@),
{
    let ghost start = out@;
    let cs = chars_of(s);
    let n = cs.len();
    let mut i: usize = 0;
    assert(cs@.skip(0) =~= cs@);
    while i < n
        invariant
            cs@ == s@,
            n == cs@.len(),
            0 <= i <= n,
            out@ + escape_script_close(cs@.skip(i as int)) == start + escape_script_close(s@),
        decreases n - i,
    {
        let ghost t = cs@.skip(i as int);
        if i + 1 < n && cs[i] == '<' && cs[i + 1] == '/' {
            proof {
                assert(t[0] == '<' && t[1] == '/');
                assert(t.skip(2) =~= cs@.skip(i + 2));
            }
            push_char(out, '<');
            push_char(out, '\\');
            push_char(out, '/');
            i = i + 2;
        } else {
            proof {
                assert(t[0] == cs@[i as int]);
                assert(t.skip(1) =~= cs@.skip(i + 1));
            }
            push_char(out, cs[i]);
            i = i + 1;
        }
    }
    assert(cs@.skip(n as int) =~= Seq::<char>::empty());
}

/// Everything of the standalone document before the Vega bundle.
pub const HTML_HEAD: &'static str = "<!doctype html>\n<html lang=\"en\">\n<head>\n<meta charset=\"utf-8\">\n<title>ggsql</title>\n<style>\n  html, body { margin: 0; padding: 0; height: 100%; background: #fff; font-family: system-ui, sans-serif; }\n  body { display: flex; flex-direction: column; height: 100vh; }\n  /* ggsql emits width:\"container\" / height:\"container\" \u{2014} the parent must have explicit\n     dimensions. Make #vis a flex:1 child of the body so it fills the viewport. */\n  #vis { flex: 1; min-height: 0; padding: 1rem; box-sizing: border-box; }\n</style>\n<script>";

/// What stands between two inlined script bundles.
pub const SCRIPT_BREAK: &'static str = "</script>\n<script>";

/// What stands between the Vega-Embed bundle and the embedded spec.
pub const SPEC_OPEN: &'static str = "</script>\n</head>\n<body>\n<div id=\"vis\"></div>\n<script id=\"spec\" type=\"application/json\">";

/// Everything of the standalone document after the embedded spec.
pub const HTML_TAIL: &'static str = "</script>\n<script>\n  const spec = JSON.parse(document.getElementById(\"spec\").textContent);\n  vegaEmbed(\"#vis\", spec, { renderer: \"canvas\", actions: true });\n</script>\n</body>\n</html>";

/// The standalone document for a spec and the three script bundles it inlines.
pub open spec fn standalone_document(
    spec_json: Seq<char>,
    vega: Seq<char>,
    vega_lite: Seq<char>,
    vega_embed: Seq<char>,
) -> Seq<char> {
    HTML_HEAD@ + vega + SCRIPT_BREAK@ + vega_lite + SCRIPT_BREAK@ + vega_embed + SPEC_OPEN@
        + escape_script_close(spec_json) + HTML_TAIL@
}

/// Builds a fully self-contained HTML document: the Vega, Vega-Lite and
/// Vega-Embed bundles inlined, plus the spec embedded as JSON, so that no
/// network is needed to render it. Any `</` in the spec is written `<\/`, so
/// the spec cannot close its `<script>` element.
pub fn standalone_html(spec_json: &str, vega: &str, vega_lite: &str, vega_embed: &str) -> (res:
    String)
    ensures
        res@ == standalone_document(spec_json@, vega@, vega_lite@, vega_embed@),
{
    let mut out = String::from_str(HTML_HEAD);
    out.append(vega);
    out.append(SCRIPT_BREAK);
    out.append(vega_lite);
    out.append(SCRIPT_BREAK);
    out.append(vega_embed);
    out.append(SPEC_OPEN);
    push_escaped_script_text(&mut out, spec_json);
    out.append(HTML_TAIL);
    out
}

/// The spec embedded in a standalone document holds no `</`, whatever the spec
/// was: the JSON island cannot end the `<script>` element early.
pub proof fn law_embedded_spec_cannot_close_script(spec_json: Seq<char>)
    ensures
        !contains_close_tag_start(escape_script_close(spec_json)),
{
    lemma_escape_removes_close_tags(spec_json);
}

/// How many `</` pairs `s` holds, counted left to right without overlap
/// (as std's `matches("</").count()` does).
pub open spec fn close_tag_count(s: Seq<char>) -> nat
    decreases s.len(),
{
    if s.len() == 0 {
        0
    } else if s.len() >= 2 && s[0] == '<' && s[1] == '/' {
        1 + close_tag_count(s.skip(2))
    } else {
        close_tag_count(s.skip(1))
    }
}

proof fn lemma_escape_len(s: Seq<char>)
    ensures
        escape_script_close(s).len() == s.len() + close_tag_count(s),
    decreases s.len(),
{
    if s.len() == 0 {
    } else if s.len() >= 2 && s[0] == '<' && s[1] == '/' {
        lemma_escape_len(s.skip(2));
    } else {
        lemma_escape_len(s.skip(1));
    }
}

/// Escaping adds exactly one character per `</` in the spec: the standalone
/// document is as long as the one for an empty spec, plus the spec, plus one
/// for each `</` in it.
pub proof fn law_document_length(
    spec_json: Seq<char>,
    vega: Seq<char>,
    vega_lite: Seq<char>,
    vega_embed: Seq<char>,
)
    ensures
        standalone_document(spec_json, vega, vega_lite, vega_embed).len() == standalone_document(
            Seq::<char>::empty(),
            vega,
            vega_lite,
            vega_embed,
        ).len() + spec_json.len() + close_tag_count(spec_json),
{
    lemma_escape_len(spec_json);
    lemma_escape_len(Seq::<char>::empty());
}

} // verus!
