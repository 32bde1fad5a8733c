//! Text building blocks shared by the SQL and HTML generators.

use vstd::prelude::*;

verus! {

broadcast use vstd::string::group_string_axioms;

/// `s` with every occurrence of `q` written twice (the SQL way of escaping a
/// quote character inside a quoted literal or identifier).
pub open spec fn doubled(s: Seq<char>, q: char) -> Seq<char>
    decreases s.len(),
{
    if s.len() == 0 {
        seq![]
    } else {
        doubled(s.drop_last(), q) + (if s.last() == q {
            seq![q, q]
        } else {
            seq![s.last()]
        })
    }
}

/// Appends one character to a string by calling std's `String::push`. The
/// contract (the character is added at the end) is what std documents; it is
/// believed, not proved.
#[verifier::external_body]
pub fn push_char(s: &mut String, c: char)
    ensures
        final(s)@ == old(s)@.push(c),
{
    s.push(c);
}

/// Appends `s` to `out`, writing each `q` in it twice.
pub fn push_doubled(out: &mut String, s: &str, q: char)
    ensures
        final(out)@ == old(out)@ + doubled(s@, q),
{
    let ghost start = out@;
    for c in it: s.chars()
        invariant
            it.seq() == s@,
            out@ == start + doubled(s@.take(it.index() as int), q),
    {
        proof {
            let k = it.index() as int;
            assert(s@.take(k + 1).drop_last() =~= s@.take(k));
        }
        if c == q {
            push_char(out, q);
            push_char(out, q);
        } else {
            push_char(out, c);
        }
    }
    assert(s@.take(s@.len() as int) =~= s@);
}


/// The decimal digit character for `d` (`0 <= d < 10`).
pub open spec fn digit_char(d: nat) -> char {
    ((d + 48) as u8) as char
}

/// The decimal representation of `n`, without sign or leading zeros.
pub open spec fn decimal(n: nat) -> Seq<char>
    decreases n,
{
    if n < 10 {
        seq![digit_char(n)]
    } else {
        decimal(n / 10).push(digit_char(n % 10))
    }
}

/// The number that a string of decimal digits spells: each digit's value
/// times the power of ten of its place.
pub open spec fn digits_value(s: Seq<char>) -> int
    decreases s.len(),
{
    if s.len() == 0 {
        0
    } else {
        digits_value(s.drop_last()) * 10 + (s.last() as int - '0' as int)
    }
}

/// `decimal(n)` is the base-10 numeral of `n`: a non-empty string of the
/// digits `0`..`9`, without a leading zero unless it is `0` itself, whose
/// digits spell `n` back.
pub proof fn law_decimal_is_base_ten_numeral(n: nat)
    ensures
        decimal(n).len() >= 1,
        forall|i: int| 0 <= i < decimal(n).len() ==> '0' <= #[trigger] decimal(n)[i] <= '9',
        digits_value(decimal(n)) == n,
        decimal(n)[0] == '0' ==> n == 0,
    decreases n,
{
    if n < 10 {
        assert(digit_char(n) as int == n + 48);
        let s = seq![digit_char(n)];
        assert(s.drop_last() =~= Seq::<char>::empty());
        assert('0' as int == 48);
        assert(digits_value(s) == digits_value(s.drop_last()) * 10 + (s.last() as int - '0' as int));
    } else {
        law_decimal_is_base_ten_numeral(n / 10);
        let d = digit_char(n % 10);
        assert(d as int == n % 10 + 48);
        let s = decimal(n / 10).push(d);
        assert(s.drop_last() =~= decimal(n / 10));
        assert(s[0] == decimal(n / 10)[0]);
        assert('0' as int == 48);
        assert(digits_value(s) == digits_value(decimal(n / 10)) * 10 + (n % 10));
        assert((n / 10) * 10 + n % 10 == n);
        assert forall|i: int| 0 <= i < s.len() implies '0' <= #[trigger] s[i] <= '9' by {
            if i < s.len() - 1 {
                assert(s[i] == decimal(n / 10)[i]);
            }
        }
    }
}

/// The decimal representation of a signed integer, with a leading `-` when negative.
pub open spec fn signed_decimal(n: int) -> Seq<char> {
    if n < 0 {
        seq!['-'] + decimal((-n) as nat)
    } else {
        decimal(n as nat)
    }
}

/// Appends the decimal representation of `n` to `out`.
pub fn push_decimal(out: &mut String, n: u64)
    ensures
        final(out)@ == old(out)@ + decimal(n as nat),
    decreases n,
{
    if n >= 10 {
        push_decimal(out, n / 10);
    }
    let d: u8 = (n % 10) as u8;
    push_char(out, (d + 48) as char);
}

/// Appends the decimal representation of the signed integer `n` to `out`.
pub fn push_signed_decimal(out: &mut String, n: i64)
    ensures
        final(out)@ == old(out)@ + signed_decimal(n as int),
{
    if n < 0 {
        push_char(out, '-');
        let magnitude: u64 = if n == i64::MIN {
            9223372036854775808u64
        } else {
            (-n) as u64
        };
        push_decimal(out, magnitude);
    } else {
        push_decimal(out, n as u64);
    }
}

/// The parts joined with `sep` between neighbours (std's `join`).
pub open spec fn joined(parts: Seq<Seq<char>>, sep: Seq<char>) -> Seq<char>
    decreases parts.len(),
{
    if parts.len() == 0 {
        seq![]
    } else if parts.len() == 1 {
        parts[0]
    } else {
        joined(parts.drop_last(), sep) + sep + parts.last()
    }
}

/// The character views of a slice of string slices.
pub open spec fn str_views(parts: Seq<&str>) -> Seq<Seq<char>> {
    parts.map_values(|p: &str| p@)
}

/// The character views of a slice of strings.
pub open spec fn string_views(parts: Seq<String>) -> Seq<Seq<char>> {
    parts.map_values(|p: String| p@)
}

/// Appends the parts of `parts`, separated by `sep`, to `out`.
pub fn push_joined_strs(out: &mut String, parts: &[&str], sep: &str)
    ensures
        final(out)@ == old(out)@ + joined(str_views(parts@), sep@),
{
    let ghost start = out@;
    let ghost views = str_views(parts@);
    let n = parts.len();
    let mut i: usize = 0;
    while i < n
        invariant
            n == parts@.len(),
            views == str_views(parts@),
            0 <= i <= n,
            out@ == start + joined(views.take(i as int), sep@),
        decreases n - i,
    {
        proof {
            assert(views.take(i + 1).drop_last() =~= views.take(i as int));
            assert(views.take(i + 1).last() == parts@[i as int]@);
        }
        if i > 0 {
            out.append(sep);
        }
        out.append(parts[i]);
        proof {
            if i == 0 {
                assert(views.take(1) =~= seq![parts@[0]@]);
            }
        }
        i = i + 1;
    }
    assert(views.take(n as int) =~= views);
}

/// Appends the strings of `parts`, separated by `sep`, to `out`.
pub fn push_joined_strings(out: &mut String, parts: &[String], sep: &str)
    ensures
        final(out)@ == old(out)@ + joined(string_views(parts@), sep@),
{
    let ghost start = out@;
    let ghost views = string_views(parts@);
    let n = parts.len();
    let mut i: usize = 0;
    while i < n
        invariant
            n == parts@.len(),
            views == string_views(parts@),
            0 <= i <= n,
            out@ == start + joined(views.take(i as int), sep@),
        decreases n - i,
    {
        proof {
            assert(views.take(i + 1).drop_last() =~= views.take(i as int));
            assert(views.take(i + 1).last() == parts@[i as int]@);
        }
        if i > 0 {
            out.append(sep);
        }
        out.append(parts[i].as_str());
        proof {
            if i == 0 {
                assert(views.take(1) =~= seq![parts@[0]@]);
            }
        }
        i = i + 1;
    }
    assert(views.take(n as int) =~= views);
}

/// The characters of `s`, in order.
pub fn chars_of(s: &str) -> (res: Vec<char>)
    ensures
        res@ == s@,
{
    let mut res: Vec<char> = Vec::new();
    for c in it: s.chars()
        invariant
            it.seq() == s@,
            res@ == s@.take(it.index() as int),
    {
        proof {
            let k = it.index() as int;
            assert(s@.take(k + 1) =~= s@.take(k).push(c));
        }
        res.push(c);
    }
    assert(s@.take(s@.len() as int) =~= s@);
    res
}

/// Whether two character sequences are equal.
pub fn chars_equal(a: &[char], b: &[char]) -> (res: bool)
    ensures
        res == (a@ == b@),
{
    if a.len() != b.len() {
        return false;
    }
    let mut i: usize = 0;
    while i < a.len()
        invariant
            a@.len() == b@.len(),
            0 <= i <= a@.len(),
            forall|j: int| 0 <= j < i ==> a@[j] == b@[j],
        decreases a@.len() - i,
    {
        if a[i] != b[i] {
            return false;
        }
        i = i + 1;
    }
    assert(a@ =~= b@);
    true
}

/// Whether `s` has the same characters as the string slice `t`.
pub fn chars_equal_str(s: &[char], t: &str) -> (res: bool)
    ensures
        res == (s@ == t@),
{
    let tc = chars_of(t);
    chars_equal(s, tc.as_slice())
}

/// Whether two string slices hold the same characters.
pub fn str_equal(a: &str, b: &str) -> (res: bool)
    ensures
        res == (a@ == b@),
{
    let ac = chars_of(a);
    chars_equal_str(ac.as_slice(), b)
}

/// Whether `p` is a prefix of `s`.
pub open spec fn has_prefix(s: Seq<char>, p: Seq<char>) -> bool {
    p.len() <= s.len() && s.take(p.len() as int) == p
}

/// Whether the characters `s` begin with those of `p`.
pub fn chars_start_with(s: &[char], p: &str) -> (res: bool)
    ensures
        res == has_prefix(s@, p@),
{
    let pc = chars_of(p);
    if pc.len() > s.len() {
        return false;
    }
    let mut i: usize = 0;
    while i < pc.len()
        invariant
            pc@ == p@,
            pc@.len() <= s@.len(),
            0 <= i <= pc@.len(),
            forall|j: int| 0 <= j < i ==> s@[j] == pc@[j],
        decreases pc@.len() - i,
    {
        if s[i] != pc[i] {
            assert(s@.take(pc@.len() as int)[i as int] != p@[i as int]);
            return false;
        }
        i = i + 1;
    }
    assert(s@.take(pc@.len() as int) =~= p@);
    true
}

/// A string holding the characters `s[from..to]`.
pub fn string_from_chars(s: &[char], from: usize, to: usize) -> (res: String)
    requires
        from <= to <= s@.len(),
    ensures
        res@ == s@.subrange(from as int, to as int),
{
    let mut res = String::new();
    let mut i = from;
    while i < to
        invariant
            from <= i <= to <= s@.len(),
            res@ == s@.subrange(from as int, i as int),
        decreases to - i,
    {
        push_char(&mut res, s[i]);
        i = i + 1;
        assert(res@ =~= s@.subrange(from as int, i as int));
    }
    res
}

/// Reads back text written by `doubled`: each `q` written twice stands for one.
pub open spec fn undoubled(s: Seq<char>, q: char) -> Seq<char>
    decreases s.len(),
{
    if s.len() >= 2 && s.last() == q && s[s.len() - 2] == q {
        undoubled(s.drop_last().drop_last(), q).push(q)
    } else if s.len() >= 1 {
        undoubled(s.drop_last(), q).push(s.last())
    } else {
        seq![]
    }
}

/// Doubling a quote character can be read back: the quoted text stands for
/// exactly the text that was quoted, whatever quote characters it held.
pub proof fn law_doubling_reads_back(s: Seq<char>, q: char)
    ensures
        undoubled(doubled(s, q), q) == s,
    decreases s.len(),
{
    if s.len() > 0 {
        law_doubling_reads_back(s.drop_last(), q);
        let d = doubled(s.drop_last(), q);
        if s.last() == q {
            let t = d + seq![q, q];
            assert(doubled(s, q) == t);
            assert(t.drop_last().drop_last() =~= d);
        } else {
            let t = d + seq![s.last()];
            assert(doubled(s, q) == t);
            assert(t.drop_last() =~= d);
        }
        assert(s.drop_last().push(s.last()) =~= s);
    }
}

/// The view of an optional string.
pub open spec fn opt_view(o: Option<String>) -> Option<Seq<char>> {
    match o {
        Some(s) => Some(s@),
        None => None,
    }
}

} // verus!
