use vstd::prelude::*;
use crate::chars::{
    spec_is_ascii_alphanumeric, is_ascii_alphanumeric_char, trim_in, lemma_trim_in_bounds,
    lemma_trim_in_shape, lemma_trim_in_preserves, lemma_trim_in_noop, append_substring,
};

verus! {

/// The characters a local file name may keep: ASCII letters and digits,
/// dot, dash, underscore and space.
pub open spec fn local_name_char(c: char) -> bool {
    spec_is_ascii_alphanumeric(c) || c == '.' || c == '-' || c == '_' || c == ' '
}

/// The characters a remote path segment may keep: as for local names, but
/// without the space.
pub open spec fn path_segment_char(c: char) -> bool {
    spec_is_ascii_alphanumeric(c) || c == '.' || c == '-' || c == '_'
}

/// Executable test for `local_name_char`.
pub fn is_local_name_char(c: char) -> (r: bool)
    ensures
        r == local_name_char(c),
{
    is_ascii_alphanumeric_char(c) || c == '.' || c == '-' || c == '_' || c == ' '
}

/// Executable test for `path_segment_char`.
pub fn is_path_segment_char(c: char) -> (r: bool)
    ensures
        r == path_segment_char(c),
{
    is_ascii_alphanumeric_char(c) || c == '.' || c == '-' || c == '_'
}

/// One character of a local name: kept if allowed, else the filler '_'.
pub open spec fn spec_map_local_char(c: char) -> char {
    if local_name_char(c) {
        c
    } else {
        '_'
    }
}

/// Character-wise replacement over a whole local name.
pub open spec fn spec_map_local(s: Seq<char>) -> Seq<char> {
    s.map_values(|c: char| spec_map_local_char(c))
}

/// One character of a path segment: kept if allowed, else the filler '_'.
pub open spec fn spec_map_segment_char(c: char) -> char {
    if path_segment_char(c) {
        c
    } else {
        '_'
    }
}

/// Character-wise replacement over a whole path segment.
pub open spec fn spec_map_segment(s: Seq<char>) -> Seq<char> {
    s.map_values(|c: char| spec_map_segment_char(c))
}

/// The set trimmed from the ends of a local name: whitespace and the filler.
/// Every other whitespace character was already replaced by the filler, so
/// the space is the only whitespace left to trim.
pub open spec fn local_trim_set() -> Set<char> {
    set![' ', '_']
}

/// The set trimmed from the ends of a path segment.
pub open spec fn underscore_set() -> Set<char> {
    set!['_']
}

/// The placeholder returned when sanitizing leaves nothing.
pub open spec fn fallback_name() -> Seq<char> {
    seq!['f', 'i', 'l', 'e']
}

/// The sanitized form of a local file name: every disallowed character is
/// replaced by '_', whitespace and filler are trimmed from both ends, and an
/// empty result falls back to a fixed placeholder.
pub open spec fn spec_sanitize_file_name(s: Seq<char>) -> Seq<char> {
    let t = trim_in(spec_map_local(s), local_trim_set());
    if t.len() == 0 {
        fallback_name()
    } else {
        t
    }
}

/// The sanitized form of a remote path segment: every disallowed character is
/// replaced by '_', underscores are trimmed from both ends, and an empty
/// result falls back to a fixed placeholder.
pub open spec fn spec_sanitize_git_path_component(s: Seq<char>) -> Seq<char> {
    let t = trim_in(spec_map_segment(s), underscore_set());
    if t.len() == 0 {
        fallback_name()
    } else {
        t
    }
}

/// Sanitizes an untrusted string into a safe local file name.
pub fn sanitize_file_name(input: &str) -> (r: String)
    ensures
        r@ == spec_sanitize_file_name(input@),
{
    let n = input.unicode_len();
    let mut mapped = String::new();
    let mut i: usize = 0;
    while i < n
        invariant
            i <= n,
            n == input@.len(),
            mapped@ == spec_map_local(input@.take(i as int)),
        decreases n - i,
    {
        let c = input.get_char(i);
        let mc = if is_local_name_char(c) {
            c
        } else {
            '_'
        };
        mapped.push(mc);
        proof {
            assert(mapped@ =~= spec_map_local(input@.take(i + 1 as int)));
        }
        i = i + 1;
    }
    proof {
        assert(input@.take(n as int) =~= input@);
    }
    trim_pair_then_fallback(&mapped, ' ', '_')
}

/// Sanitizes an untrusted string into a safe remote path segment.
pub fn sanitize_git_path_component(input: &str) -> (r: String)
    ensures
        r@ == spec_sanitize_git_path_component(input@),
{
    let n = input.unicode_len();
    let mut mapped = String::new();
    let mut i: usize = 0;
    while i < n
        invariant
            i <= n,
            n == input@.len(),
            mapped@ == spec_map_segment(input@.take(i as int)),
        decreases n - i,
    {
        let c = input.get_char(i);
        let mc = if is_path_segment_char(c) {
            c
        } else {
            '_'
        };
        mapped.push(mc);
        proof {
            assert(mapped@ =~= spec_map_segment(input@.take(i + 1 as int)));
        }
        i = i + 1;
    }
    proof {
        assert(input@.take(n as int) =~= input@);
    }
    trim_then_fallback(&mapped, '_')
}

/// Trims the two characters `c1` and `c2` from both ends of `mapped`; an
/// empty remainder falls back to the fixed placeholder name.
fn trim_pair_then_fallback(mapped: &String, c1: char, c2: char) -> (r: String)
    ensures
        ({
            let t = trim_in(mapped@, set![c1, c2]);
            r@ == if t.len() == 0 {
                fallback_name()
            } else {
                t
            }
        }),
{
    let m = mapped.as_str().unicode_len();
    let mut start: usize = 0;
    while start < m && (mapped.as_str().get_char(start) == c1 || mapped.as_str().get_char(start)
        == c2)
        invariant
            start <= m,
            m == mapped@.len(),
            forall|k: int| 0 <= k < start ==> set![c1, c2].contains(#[trigger] mapped@[k]),
        decreases m - start,
    {
        start = start + 1;
    }
    let mut end: usize = m;
    while end > start && (mapped.as_str().get_char(end - 1) == c1 || mapped.as_str().get_char(
        end - 1,
    ) == c2)
        invariant
            start <= end <= m,
            m == mapped@.len(),
            forall|k: int| end <= k < m ==> set![c1, c2].contains(#[trigger] mapped@[k]),
        decreases end,
    {
        end = end - 1;
    }
    proof {
        lemma_trim_in_bounds(mapped@, set![c1, c2], start as int, end as int);
    }
    if start == end {
        let r = String::from_str("file");
        proof {
            reveal_strlit("file");
            assert(r@ =~= fallback_name());
        }
        r
    } else {
        let mut out = String::new();
        append_substring(&mut out, mapped.as_str(), start, end);
        proof {
            assert(out@ =~= mapped@.subrange(start as int, end as int));
        }
        out
    }
}

/// Trims `c` from both ends of `mapped`; an empty remainder falls back to the
/// fixed placeholder name.
fn trim_then_fallback(mapped: &String, c: char) -> (r: String)
    ensures
        ({
            let t = trim_in(mapped@, set![c]);
            r@ == if t.len() == 0 {
                fallback_name()
            } else {
                t
            }
        }),
{
    let m = mapped.as_str().unicode_len();
    let mut start: usize = 0;
    while start < m && mapped.as_str().get_char(start) == c
        invariant
            start <= m,
            m == mapped@.len(),
            forall|k: int| 0 <= k < start ==> mapped@[k] == c,
        decreases m - start,
    {
        start = start + 1;
    }
    let mut end: usize = m;
    while end > start && mapped.as_str().get_char(end - 1) == c
        invariant
            start <= end <= m,
            m == mapped@.len(),
            forall|k: int| end <= k < m ==> mapped@[k] == c,
        decreases end,
    {
        end = end - 1;
    }
    proof {
        lemma_trim_in_bounds(mapped@, set![c], start as int, end as int);
    }
    if start == end {
        let r = String::from_str("file");
        proof {
            reveal_strlit("file");
            assert(r@ =~= fallback_name());
        }
        r
    } else {
        let mut out = String::new();
        append_substring(&mut out, mapped.as_str(), start, end);
        proof {
            assert(out@ =~= mapped@.subrange(start as int, end as int));
        }
        out
    }
}

/// The set of characters allowed in a sanitized local file name.
pub open spec fn local_name_set() -> Set<char> {
    Set::new(|c: char| local_name_char(c))
}

/// The set of characters allowed in a sanitized remote path segment.
pub open spec fn path_segment_set() -> Set<char> {
    Set::new(|c: char| path_segment_char(c))
}

/// For every input, the sanitized local file name is non-empty and holds only
/// allowed characters.
pub proof fn lemma_sanitize_file_name_ok(s: Seq<char>)
    ensures
        spec_sanitize_file_name(s).len() > 0,
        forall|i: int|
            0 <= i < spec_sanitize_file_name(s).len() ==> local_name_char(
                #[trigger] spec_sanitize_file_name(s)[i],
            ),
{
    let m = spec_map_local(s);
    assert(forall|i: int| 0 <= i < m.len() ==> local_name_set().contains(#[trigger] m[i]));
    lemma_trim_in_preserves(m, local_trim_set(), local_name_set());
    let t = trim_in(m, local_trim_set());
    if t.len() == 0 {
        assert(spec_is_ascii_alphanumeric('f'));
        assert(spec_is_ascii_alphanumeric('i'));
        assert(spec_is_ascii_alphanumeric('l'));
        assert(spec_is_ascii_alphanumeric('e'));
    }
}

/// For every input, the sanitized remote path segment is non-empty and holds
/// only allowed characters.
pub proof fn lemma_sanitize_git_path_component_ok(s: Seq<char>)
    ensures
        spec_sanitize_git_path_component(s).len() > 0,
        forall|i: int|
            0 <= i < spec_sanitize_git_path_component(s).len() ==> path_segment_char(
                #[trigger] spec_sanitize_git_path_component(s)[i],
            ),
{
    let m = spec_map_segment(s);
    assert(forall|i: int| 0 <= i < m.len() ==> path_segment_set().contains(#[trigger] m[i]));
    lemma_trim_in_preserves(m, underscore_set(), path_segment_set());
    let t = trim_in(m, underscore_set());
    if t.len() == 0 {
        assert(spec_is_ascii_alphanumeric('f'));
        assert(spec_is_ascii_alphanumeric('i'));
        assert(spec_is_ascii_alphanumeric('l'));
        assert(spec_is_ascii_alphanumeric('e'));
    }
}

/// Sanitizing a local file name twice gives the same result as sanitizing it
/// once.
pub proof fn lemma_sanitize_file_name_idempotent(s: Seq<char>)
    ensures
        spec_sanitize_file_name(spec_sanitize_file_name(s)) == spec_sanitize_file_name(s),
{
    let r = spec_sanitize_file_name(s);
    lemma_sanitize_file_name_ok(s);
    assert(spec_map_local(r) =~= r);
    let t = trim_in(spec_map_local(s), local_trim_set());
    lemma_trim_in_shape(spec_map_local(s), local_trim_set());
    if t.len() == 0 {
        assert(r == fallback_name());
        assert(r[0] == 'f' && r.last() == 'e');
        lemma_trim_in_noop(r, local_trim_set());
    } else {
        assert(r == t);
        lemma_trim_in_noop(r, local_trim_set());
    }
}

/// Sanitizing a remote path segment twice gives the same result as sanitizing
/// it once.
pub proof fn lemma_sanitize_git_path_component_idempotent(s: Seq<char>)
    ensures
        spec_sanitize_git_path_component(spec_sanitize_git_path_component(s))
            == spec_sanitize_git_path_component(s),
{
    let r = spec_sanitize_git_path_component(s);
    lemma_sanitize_git_path_component_ok(s);
    assert(spec_map_segment(r) =~= r);
    let t = trim_in(spec_map_segment(s), underscore_set());
    lemma_trim_in_shape(spec_map_segment(s), underscore_set());
    if t.len() == 0 {
        assert(r == fallback_name());
        assert(r[0] == 'f' && r.last() == 'e');
        lemma_trim_in_noop(r, underscore_set());
    } else {
        assert(r == t);
        lemma_trim_in_noop(r, underscore_set());
    }
}

} // verus!
