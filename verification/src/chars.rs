use vstd::prelude::*;

verus! {

/// True for the ASCII decimal digits.
pub open spec fn spec_is_ascii_digit(c: char) -> bool {
    '0' <= c && c <= '9'
}

/// True for the ASCII letters and digits.
pub open spec fn spec_is_ascii_alphanumeric(c: char) -> bool {
    ('a' <= c && c <= 'z') || ('A' <= c && c <= 'Z') || spec_is_ascii_digit(c)
}

/// Executable test for ASCII letters and digits.
pub fn is_ascii_alphanumeric_char(c: char) -> (r: bool)
    ensures
        r == spec_is_ascii_alphanumeric(c),
{
    ('a' <= c && c <= 'z') || ('A' <= c && c <= 'Z') || ('0' <= c && c <= '9')
}

/// True for the characters trimmed from string ends: the Unicode
/// White_Space set.
pub open spec fn spec_is_whitespace_char(c: char) -> bool {
    c == '\u{9}' || c == '\u{a}' || c == '\u{b}' || c == '\u{c}' || c == '\u{d}' || c == ' '
        || c == '\u{85}' || c == '\u{a0}' || c == '\u{1680}' || c == '\u{2000}' || c
        == '\u{2001}' || c == '\u{2002}' || c == '\u{2003}' || c == '\u{2004}' || c
        == '\u{2005}' || c == '\u{2006}' || c == '\u{2007}' || c == '\u{2008}' || c
        == '\u{2009}' || c == '\u{200a}' || c == '\u{2028}' || c == '\u{2029}' || c
        == '\u{202f}' || c == '\u{205f}' || c == '\u{3000}'
}

/// Executable test for Unicode whitespace.
pub fn is_whitespace_char(c: char) -> (r: bool)
    ensures
        r == spec_is_whitespace_char(c),
{
    c == '\u{9}' || c == '\u{a}' || c == '\u{b}' || c == '\u{c}' || c == '\u{d}' || c == ' '
        || c == '\u{85}' || c == '\u{a0}' || c == '\u{1680}' || c == '\u{2000}' || c
        == '\u{2001}' || c == '\u{2002}' || c == '\u{2003}' || c == '\u{2004}' || c
        == '\u{2005}' || c == '\u{2006}' || c == '\u{2007}' || c == '\u{2008}' || c
        == '\u{2009}' || c == '\u{200a}' || c == '\u{2028}' || c == '\u{2029}' || c
        == '\u{202f}' || c == '\u{205f}' || c == '\u{3000}'
}

/// ASCII lower-casing of a single character; other characters are unchanged.
pub open spec fn spec_lower_char(c: char) -> char {
    if 'A' <= c && c <= 'Z' {
        (((c as u8) + 32) as char)
    } else {
        c
    }
}

/// Executable ASCII lower-casing of a single character.
pub fn lower_char(c: char) -> (r: char)
    ensures
        r == spec_lower_char(c),
{
    if 'A' <= c && c <= 'Z' {
        ((c as u8) + 32) as char
    } else {
        c
    }
}

/// Character-wise ASCII lower-casing of a string.
pub open spec fn spec_lower(s: Seq<char>) -> Seq<char> {
    s.map_values(|c: char| spec_lower_char(c))
}

/// Executable ASCII lower-casing of a string.
pub fn lower_str(s: &str) -> (r: String)
    ensures
        r@ == spec_lower(s@),
{
    let n = s.unicode_len();
    let mut out = String::new();
    let mut i: usize = 0;
    while i < n
        invariant
            i <= n,
            n == s@.len(),
            out@ == spec_lower(s@.take(i as int)),
        decreases n - i,
    {
        let c = s.get_char(i);
        out.push(lower_char(c));
        proof {
            assert(out@ =~= spec_lower(s@.take(i + 1 as int)));
        }
        i = i + 1;
    }
    proof {
        assert(s@.take(n as int) =~= s@);
    }
    out
}

/// The result of stripping, from both ends of `s`, every character that lies
/// in `cs`, until none is left at either end.
pub open spec fn trim_in(s: Seq<char>, cs: Set<char>) -> Seq<char>
    decreases s.len(),
{
    if s.len() > 0 && cs.contains(s[0]) {
        trim_in(s.drop_first(), cs)
    } else if s.len() > 0 && cs.contains(s.last()) {
        trim_in(s.drop_last(), cs)
    } else {
        s
    }
}

/// `trim_in` keeps exactly the middle part once the trimmed ends are known.
pub proof fn lemma_trim_in_bounds(s: Seq<char>, cs: Set<char>, start: int, end: int)
    requires
        0 <= start <= end <= s.len(),
        forall|i: int| 0 <= i < start ==> cs.contains(s[i]),
        forall|i: int| end <= i < s.len() ==> cs.contains(s[i]),
        start < end ==> !cs.contains(s[start]) && !cs.contains(s[end - 1]),
    ensures
        trim_in(s, cs) == s.subrange(start, end),
    decreases s.len(),
{
    if start == end {
        if s.len() == 0 {
            assert(trim_in(s, cs) =~= s.subrange(start, end));
        } else {
            assert(cs.contains(s[0]));
            let t = s.drop_first();
            lemma_trim_in_bounds(t, cs, if start > 0 { start - 1 } else { 0 }, if start > 0 { end - 1 } else { 0 });
            assert(t.subrange(if start > 0 { start - 1 } else { 0 }, if start > 0 { end - 1 } else { 0 }) =~= s.subrange(start, end));
        }
    } else if start > 0 {
        assert(cs.contains(s[0]));
        let t = s.drop_first();
        lemma_trim_in_bounds(t, cs, start - 1, end - 1);
        assert(t.subrange(start - 1, end - 1) =~= s.subrange(start, end));
    } else if end < s.len() {
        assert(cs.contains(s[s.len() - 1]));
        assert(!cs.contains(s[0]));
        let t = s.drop_last();
        lemma_trim_in_bounds(t, cs, start, end);
        assert(t.subrange(start, end) =~= s.subrange(start, end));
    } else {
        assert(!cs.contains(s[0]));
        assert(!cs.contains(s[s.len() - 1]));
        assert(s.subrange(start, end) =~= s);
    }
}

/// A trimmed string never begins or ends with a character of `cs`.
pub proof fn lemma_trim_in_shape(s: Seq<char>, cs: Set<char>)
    ensures
        trim_in(s, cs).len() > 0 ==> !cs.contains(trim_in(s, cs)[0]),
        trim_in(s, cs).len() > 0 ==> !cs.contains(trim_in(s, cs).last()),
    decreases s.len(),
{
    if s.len() > 0 && cs.contains(s[0]) {
        lemma_trim_in_shape(s.drop_first(), cs);
    } else if s.len() > 0 && cs.contains(s.last()) {
        lemma_trim_in_shape(s.drop_last(), cs);
    } else {
    }
}

/// Trimming keeps only characters of `s`: a class that held of every character
/// before the trim holds of every character after it.
pub proof fn lemma_trim_in_preserves(s: Seq<char>, cs: Set<char>, allowed: Set<char>)
    requires
        forall|i: int| 0 <= i < s.len() ==> allowed.contains(#[trigger] s[i]),
    ensures
        forall|i: int|
            0 <= i < trim_in(s, cs).len() ==> allowed.contains(#[trigger] trim_in(s, cs)[i]),
    decreases s.len(),
{
    if s.len() > 0 && cs.contains(s[0]) {
        let t = s.drop_first();
        assert(forall|i: int| 0 <= i < t.len() ==> allowed.contains(#[trigger] t[i]));
        lemma_trim_in_preserves(t, cs, allowed);
        assert(trim_in(s, cs) == trim_in(t, cs));
    } else if s.len() > 0 && cs.contains(s.last()) {
        let t = s.drop_last();
        assert(forall|i: int| 0 <= i < t.len() ==> allowed.contains(#[trigger] t[i]));
        lemma_trim_in_preserves(t, cs, allowed);
        assert(trim_in(s, cs) == trim_in(t, cs));
    } else {
    }
}

/// A string that neither begins nor ends with a character of `cs` is left
/// unchanged by trimming.
pub proof fn lemma_trim_in_noop(s: Seq<char>, cs: Set<char>)
    requires
        s.len() > 0 ==> !cs.contains(s[0]) && !cs.contains(s.last()),
    ensures
        trim_in(s, cs) == s,
{
}

/// The Unicode whitespace characters, as a set.
pub open spec fn ws_set() -> Set<char> {
    Set::new(|c: char| spec_is_whitespace_char(c))
}

/// Strips Unicode whitespace from both ends of `s`.
pub fn trim_ws_str(s: &str) -> (r: String)
    ensures
        r@ == trim_in(s@, ws_set()),
{
    let n = s.unicode_len();
    let mut start: usize = 0;
    while start < n && is_whitespace_char(s.get_char(start))
        invariant
            start <= n,
            n == s@.len(),
            forall|k: int| 0 <= k < start ==> ws_set().contains(#[trigger] s@[k]),
        decreases n - start,
    {
        proof {
            assert(ws_set().contains(s@[start as int]));
        }
        start = start + 1;
    }
    let mut end: usize = n;
    while end > start && is_whitespace_char(s.get_char(end - 1))
        invariant
            start <= end <= n,
            n == s@.len(),
            forall|k: int| end <= k < n ==> ws_set().contains(#[trigger] s@[k]),
        decreases end,
    {
        proof {
            assert(ws_set().contains(s@[end - 1 as int]));
        }
        end = end - 1;
    }
    proof {
        lemma_trim_in_bounds(s@, ws_set(), start as int, end as int);
    }
    let mut out = String::new();
    append_substring(&mut out, s, start, end);
    out
}

/// Strips the single character `c` from both ends of `s`.
pub fn trim_char_str(s: &str, c: char) -> (r: String)
    ensures
        r@ == trim_in(s@, set![c]),
{
    let n = s.unicode_len();
    let mut start: usize = 0;
    while start < n && s.get_char(start) == c
        invariant
            start <= n,
            n == s@.len(),
            forall|k: int| 0 <= k < start ==> s@[k] == c,
        decreases n - start,
    {
        start = start + 1;
    }
    let mut end: usize = n;
    while end > start && s.get_char(end - 1) == c
        invariant
            start <= end <= n,
            n == s@.len(),
            forall|k: int| end <= k < n ==> s@[k] == c,
        decreases end,
    {
        end = end - 1;
    }
    proof {
        lemma_trim_in_bounds(s@, set![c], start as int, end as int);
    }
    let mut out = String::new();
    append_substring(&mut out, s, start, end);
    out
}

/// The character for one decimal digit.
pub open spec fn spec_digit_char(d: int) -> char {
    if d == 0 {
        '0'
    } else if d == 1 {
        '1'
    } else if d == 2 {
        '2'
    } else if d == 3 {
        '3'
    } else if d == 4 {
        '4'
    } else if d == 5 {
        '5'
    } else if d == 6 {
        '6'
    } else if d == 7 {
        '7'
    } else if d == 8 {
        '8'
    } else {
        '9'
    }
}

/// The decimal digits of `n`, most significant first; empty for zero.
pub open spec fn spec_decimal_digits(n: int) -> Seq<char>
    decreases n,
{
    if n <= 0 {
        Seq::<char>::empty()
    } else {
        spec_decimal_digits(n / 10).push(spec_digit_char(n % 10))
    }
}

/// The decimal rendering of an unsigned number; zero renders as "0".
pub open spec fn spec_u64_string(n: int) -> Seq<char> {
    if n == 0 {
        seq!['0']
    } else {
        spec_decimal_digits(n)
    }
}

/// Every character of a decimal rendering is an ASCII digit.
pub proof fn lemma_decimal_digits_are_digits(n: int)
    ensures
        forall|i: int|
            0 <= i < spec_decimal_digits(n).len() ==> spec_is_ascii_digit(
                #[trigger] spec_decimal_digits(n)[i],
            ),
    decreases n,
{
    if n > 0 {
        lemma_decimal_digits_are_digits(n / 10);
        let prev = spec_decimal_digits(n / 10);
        assert(spec_decimal_digits(n) == prev.push(spec_digit_char(n % 10)));
        assert forall|i: int| 0 <= i < spec_decimal_digits(n).len() implies spec_is_ascii_digit(
            #[trigger] spec_decimal_digits(n)[i],
        ) by {
            if i < prev.len() {
                assert(spec_decimal_digits(n)[i] == prev[i]);
            } else {
                assert(spec_decimal_digits(n)[i] == spec_digit_char(n % 10));
            }
        }
    }
}

/// Every character of `spec_u64_string` is an ASCII digit.
pub proof fn lemma_u64_string_digits(n: int)
    requires
        n >= 0,
    ensures
        spec_u64_string(n).len() > 0,
        forall|i: int|
            0 <= i < spec_u64_string(n).len() ==> spec_is_ascii_digit(
                #[trigger] spec_u64_string(n)[i],
            ),
{
    lemma_decimal_digits_are_digits(n);
    if n > 0 {
        assert(spec_decimal_digits(n).len() > 0);
    }
}

/// Executable digit character.
fn digit_char(d: u64) -> (r: char)
    requires
        d < 10,
    ensures
        r == spec_digit_char(d as int),
{
    if d == 0 {
        '0'
    } else if d == 1 {
        '1'
    } else if d == 2 {
        '2'
    } else if d == 3 {
        '3'
    } else if d == 4 {
        '4'
    } else if d == 5 {
        '5'
    } else if d == 6 {
        '6'
    } else if d == 7 {
        '7'
    } else if d == 8 {
        '8'
    } else {
        '9'
    }
}

/// Renders `n` in decimal.
pub fn u64_to_string(n: u64) -> (r: String)
    ensures
        r@ == spec_u64_string(n as int),
{
    if n == 0 {
        let mut out = String::new();
        out.push('0');
        proof {
            assert(out@ =~= spec_u64_string(0));
        }
        return out;
    }
    let mut rev: Vec<char> = Vec::new();
    let mut m: u64 = n;
    while m > 0
        invariant
            spec_decimal_digits(n as int) == spec_decimal_digits(m as int) + rev@.reverse(),
        decreases m,
    {
        let d = m % 10;
        rev.push(digit_char(d));
        proof {
            let prev = rev@.drop_last();
            assert(rev@.reverse() =~= seq![spec_digit_char(d as int)] + prev.reverse());
            assert(spec_decimal_digits(m as int) == spec_decimal_digits(m as int / 10).push(
                spec_digit_char(m as int % 10),
            ));
            assert(spec_decimal_digits(m as int / 10).push(spec_digit_char(m as int % 10))
                + prev.reverse() =~= spec_decimal_digits(m as int / 10) + (seq![
                spec_digit_char(d as int),
            ] + prev.reverse()));
        }
        m = m / 10;
    }
    let mut out = String::new();
    let mut i: usize = rev.len();
    while i > 0
        invariant
            i <= rev@.len(),
            out@ == rev@.subrange(i as int, rev@.len() as int).reverse(),
        decreases i,
    {
        i = i - 1;
        out.push(rev[i]);
        proof {
            assert(out@ =~= rev@.subrange(i as int, rev@.len() as int).reverse());
        }
    }
    proof {
        assert(rev@.subrange(0, rev@.len() as int) =~= rev@);
        assert(spec_decimal_digits(n as int) =~= rev@.reverse());
    }
    out
}

/// Copies the character range `[from, to)` of `s` onto the end of `out`.
pub(crate) fn append_substring(out: &mut String, s: &str, from: usize, to: usize)
    requires
        from <= to,
        to <= s@.len(),
    ensures
        final(out)@ == old(out)@ + s@.subrange(from as int, to as int),
{
    let mut i: usize = from;
    while i < to
        invariant
            from <= i <= to <= s@.len(),
            out@ == old(out)@ + s@.subrange(from as int, i as int),
        decreases to - i,
    {
        let c = s.get_char(i);
        out.push(c);
        proof {
            assert(out@ =~= old(out)@ + s@.subrange(from as int, i + 1 as int));
        }
        i = i + 1;
    }
}

/// Appends one character to a string; relies on `String::push` of std, which
/// appends exactly that character.
pub assume_specification[ String::push ](s: &mut String, ch: char)
    ensures
        final(s)@ == old(s)@.push(ch),
;

} // verus!
