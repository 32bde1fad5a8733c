//! Quoting of SQL identifiers.

use vstd::prelude::*;
use crate::text::{doubled, law_doubling_reads_back, push_char, push_doubled, undoubled};

verus! {

/// The SQL form of an identifier: wrapped in double quotes, with every double
/// quote inside it written twice.
pub open spec fn quoted_ident(name: Seq<char>) -> Seq<char> {
    seq!['"'] + doubled(name, '"') + seq!['"']
}

/// Quotes an identifier for SQL, as ggsql's `naming::quote_ident` does:
/// `"name"`, with each `"` inside the name doubled.
pub fn quote_ident(name: &str) -> (res: String)
    ensures
        res@ == quoted_ident(name@),
{
    let mut out = String::new();
    push_char(&mut out, '"');
    push_doubled(&mut out, name, '"');
    push_char(&mut out, '"');
    out
}

/// A quoted identifier names exactly the identifier that was quoted: between
/// its outer quotes, reading each doubled `"` as one gives the name back.
pub proof fn law_quoted_ident_reads_back(name: Seq<char>)
    ensures
        quoted_ident(name).len() >= 2,
        quoted_ident(name)[0] == '"',
        quoted_ident(name).last() == '"',
        undoubled(quoted_ident(name).drop_first().drop_last(), '"') == name,
{
    let q = quoted_ident(name);
    assert(q.drop_first().drop_last() =~= doubled(name, '"'));
    law_doubling_reads_back(name, '"');
}

} // verus!
