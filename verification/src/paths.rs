use vstd::prelude::*;
use crate::chars::{spec_lower, spec_lower_char, lower_str, append_substring};

verus! {

/// The characters of `s` after its last occurrence of `c`; all of `s` if `c`
/// does not occur.
pub open spec fn after_last(s: Seq<char>, c: char) -> Seq<char>
    decreases s.len(),
{
    if s.len() == 0 {
        Seq::<char>::empty()
    } else if s.last() == c {
        Seq::<char>::empty()
    } else {
        after_last(s.drop_last(), c).push(s.last())
    }
}

/// The characters of `s` before its last occurrence of `c`; all of `s` if `c`
/// does not occur.
pub open spec fn before_last(s: Seq<char>, c: char) -> Seq<char>
    decreases s.len(),
{
    if s.len() == 0 {
        s
    } else if s.last() == c {
        s.drop_last()
    } else {
        before_last(s.drop_last(), c)
    }
}

/// Where `c` does not occur in `s`, `after_last` keeps all of `s`.
pub proof fn lemma_after_last_absent(s: Seq<char>, c: char)
    requires
        forall|i: int| 0 <= i < s.len() ==> s[i] != c,
    ensures
        after_last(s, c) == s,
    decreases s.len(),
{
    if s.len() > 0 {
        lemma_after_last_absent(s.drop_last(), c);
        assert(after_last(s, c) =~= s);
    } else {
        assert(after_last(s, c) =~= s);
    }
}

/// Where the last occurrence of `c` in `s` is at `k`, `after_last` keeps what
/// follows it.
pub proof fn lemma_after_last_at(s: Seq<char>, c: char, k: int)
    requires
        0 <= k < s.len(),
        s[k] == c,
        forall|i: int| k < i < s.len() ==> s[i] != c,
    ensures
        after_last(s, c) == s.subrange(k + 1, s.len() as int),
    decreases s.len(),
{
    if k == s.len() - 1 {
        assert(after_last(s, c) =~= s.subrange(k + 1, s.len() as int));
    } else {
        lemma_after_last_at(s.drop_last(), c, k);
        assert(after_last(s, c) =~= s.subrange(k + 1, s.len() as int));
    }
}

/// Where the last occurrence of `c` in `s` is at `k`, `before_last` keeps what
/// precedes it.
pub proof fn lemma_before_last_at(s: Seq<char>, c: char, k: int)
    requires
        0 <= k < s.len(),
        s[k] == c,
        forall|i: int| k < i < s.len() ==> s[i] != c,
    ensures
        before_last(s, c) == s.subrange(0, k),
    decreases s.len(),
{
    if k == s.len() - 1 {
        assert(before_last(s, c) =~= s.subrange(0, k));
    } else {
        lemma_before_last_at(s.drop_last(), c, k);
        assert(before_last(s, c) =~= s.subrange(0, k));
    }
}

/// The final component of a path string: what follows the last '/'.
pub open spec fn spec_file_name_of(path: Seq<char>) -> Seq<char> {
    after_last(path, '/')
}

/// True when a file name has a '.' past its first character, which is what
/// gives it an extension: a lone leading dot marks a hidden file, not an
/// extension.
pub open spec fn has_inner_dot(name: Seq<char>) -> bool {
    exists|i: int| 1 <= i < name.len() && name[i] == '.'
}

/// The extension of a path: what follows the last '.' of its file name,
/// provided that dot is not the name's first character.
pub open spec fn spec_extension_of(path: Seq<char>) -> Option<Seq<char>> {
    let name = spec_file_name_of(path);
    if has_inner_dot(name) {
        Some(after_last(name, '.'))
    } else {
        None
    }
}

/// The stem of a path: its file name up to the last '.', or the whole file
/// name if it has no extension; `None` for an empty file name.
pub open spec fn spec_file_stem_of(path: Seq<char>) -> Option<Seq<char>> {
    let name = spec_file_name_of(path);
    if name.len() == 0 {
        None
    } else if has_inner_dot(name) {
        Some(before_last(name, '.'))
    } else {
        Some(name)
    }
}

/// Extracts the final component of a path string.
pub fn file_name_of(path: &str) -> (r: String)
    ensures
        r@ == spec_file_name_of(path@),
{
    let n = path.unicode_len();
    let mut k: usize = n;
    while k > 0 && path.get_char(k - 1) != '/'
        invariant
            k <= n,
            n == path@.len(),
            forall|j: int| k <= j < n ==> path@[j] != '/',
        decreases k,
    {
        k = k - 1;
    }
    proof {
        if k == 0 {
            lemma_after_last_absent(path@, '/');
        } else {
            lemma_after_last_at(path@, '/', k - 1 as int);
        }
    }
    let mut out = String::new();
    append_substring(&mut out, path, k, n);
    proof {
        if k == 0 {
            assert(path@.subrange(0, n as int) =~= path@);
        }
    }
    out
}

/// Extracts the extension of a path, if its file name has one.
pub fn extension_of(path: &str) -> (r: Option<String>)
    ensures
        match r {
            Some(e) => spec_extension_of(path@) == Some(e@),
            None => spec_extension_of(path@) is None,
        },
{
    let name = file_name_of(path);
    let m = name.as_str().unicode_len();
    let mut k: usize = m;
    while k > 1 && name.as_str().get_char(k - 1) != '.'
        invariant
            k <= m,
            m == name@.len(),
            forall|j: int| k <= j < m ==> name@[j] != '.',
        decreases k,
    {
        k = k - 1;
    }
    if k > 1 && name.as_str().get_char(k - 1) == '.' {
        proof {
            assert(has_inner_dot(name@));
            lemma_after_last_at(name@, '.', k - 1 as int);
        }
        let mut out = String::new();
        append_substring(&mut out, name.as_str(), k, m);
        Some(out)
    } else {
        proof {
            assert(!has_inner_dot(name@));
        }
        None
    }
}

/// Extracts the stem of a path, if its file name is non-empty.
pub fn file_stem_of(path: &str) -> (r: Option<String>)
    ensures
        match r {
            Some(st) => spec_file_stem_of(path@) == Some(st@),
            None => spec_file_stem_of(path@) is None,
        },
{
    let name = file_name_of(path);
    let m = name.as_str().unicode_len();
    if m == 0 {
        return None;
    }
    let mut k: usize = m;
    while k > 1 && name.as_str().get_char(k - 1) != '.'
        invariant
            k <= m,
            m == name@.len(),
            forall|j: int| k <= j < m ==> name@[j] != '.',
        decreases k,
    {
        k = k - 1;
    }
    if k > 1 && name.as_str().get_char(k - 1) == '.' {
        proof {
            assert(has_inner_dot(name@));
            lemma_before_last_at(name@, '.', k - 1 as int);
        }
        let mut out = String::new();
        append_substring(&mut out, name.as_str(), 0, k - 1);
        Some(out)
    } else {
        proof {
            assert(!has_inner_dot(name@));
        }
        Some(name)
    }
}

/// The extensions accepted for text reads.
pub open spec fn spec_is_allowed_text_extension(path: Seq<char>) -> bool {
    match spec_extension_of(path) {
        Some(e) => {
            let l = spec_lower(e);
            l == "md"@ || l == "markdown"@ || l == "txt"@
        },
        None => false,
    }
}

/// The extensions accepted for image operations.
pub open spec fn spec_is_allowed_image_extension(path: Seq<char>) -> bool {
    match spec_extension_of(path) {
        Some(e) => {
            let l = spec_lower(e);
            l == "png"@ || l == "jpg"@ || l == "jpeg"@ || l == "gif"@ || l == "webp"@ || l
                == "svg"@ || l == "bmp"@ || l == "ico"@
        },
        None => false,
    }
}

/// Decides whether a path may be read as text; the comparison is
/// case-insensitive and a missing extension is refused.
pub fn is_allowed_text_extension(path: &str) -> (r: bool)
    ensures
        r == spec_is_allowed_text_extension(path@),
{
    match extension_of(path) {
        Some(e) => {
            let l = lower_str(e.as_str());
            l == String::from_str("md") || l == String::from_str("markdown") || l
                == String::from_str("txt")
        },
        None => false,
    }
}

/// Decides whether a path may be treated as an image; the comparison is
/// case-insensitive and a missing extension is refused.
pub fn is_allowed_image_extension(path: &str) -> (r: bool)
    ensures
        r == spec_is_allowed_image_extension(path@),
{
    match extension_of(path) {
        Some(e) => {
            let l = lower_str(e.as_str());
            l == String::from_str("png") || l == String::from_str("jpg") || l == String::from_str(
                "jpeg",
            ) || l == String::from_str("gif") || l == String::from_str("webp") || l
                == String::from_str("svg") || l == String::from_str("bmp") || l
                == String::from_str("ico")
        },
        None => false,
    }
}

/// A character that is no ASCII letter is its own lower-casing, and nothing
/// else lowers to it.
proof fn lemma_lower_char_separator(x: char, c: char)
    requires
        !('a' <= c && c <= 'z'),
        !('A' <= c && c <= 'Z'),
    ensures
        (spec_lower_char(x) == c) <==> (x == c),
{
    if 'A' <= x && x <= 'Z' {
        assert('a' <= spec_lower_char(x) && spec_lower_char(x) <= 'z');
    }
}

/// ASCII lower-casing commutes with splitting at the last occurrence of a
/// non-letter separator.
proof fn lemma_lower_after_last(s: Seq<char>, c: char)
    requires
        !('a' <= c && c <= 'z'),
        !('A' <= c && c <= 'Z'),
    ensures
        after_last(spec_lower(s), c) == spec_lower(after_last(s, c)),
    decreases s.len(),
{
    let l = spec_lower(s);
    if s.len() == 0 {
        assert(after_last(l, c) =~= spec_lower(after_last(s, c)));
    } else {
        assert(l.len() == s.len());
        assert(l.last() == spec_lower_char(s.last()));
        lemma_lower_char_separator(s.last(), c);
        if s.last() == c {
            assert(after_last(l, c) =~= spec_lower(after_last(s, c)));
        } else {
            assert(l.drop_last() =~= spec_lower(s.drop_last()));
            lemma_lower_after_last(s.drop_last(), c);
            assert(after_last(l, c) =~= spec_lower(after_last(s, c)));
        }
    }
}

/// ASCII lower-casing neither creates nor removes an inner dot.
proof fn lemma_lower_inner_dot(name: Seq<char>)
    ensures
        has_inner_dot(spec_lower(name)) == has_inner_dot(name),
{
    let l = spec_lower(name);
    if has_inner_dot(name) {
        let i = choose|i: int| 1 <= i < name.len() && name[i] == '.';
        assert(l[i] == spec_lower_char(name[i]));
        assert(l[i] == '.');
        assert(has_inner_dot(l));
    }
    if has_inner_dot(l) {
        let i = choose|i: int| 1 <= i < l.len() && l[i] == '.';
        lemma_lower_char_separator(name[i], '.');
        assert(name[i] == '.');
        assert(has_inner_dot(name));
    }
}

/// ASCII lower-casing a path lowers exactly its extension.
proof fn lemma_extension_of_lower(path: Seq<char>)
    ensures
        spec_extension_of(spec_lower(path)) == match spec_extension_of(path) {
            Some(e) => Some(spec_lower(e)),
            None => None::<Seq<char>>,
        },
{
    lemma_lower_after_last(path, '/');
    let name = spec_file_name_of(path);
    assert(spec_file_name_of(spec_lower(path)) == spec_lower(name));
    lemma_lower_inner_dot(name);
    if has_inner_dot(name) {
        lemma_lower_after_last(name, '.');
    }
}

/// Lower-casing twice is lower-casing once.
proof fn lemma_lower_idempotent(s: Seq<char>)
    ensures
        spec_lower(spec_lower(s)) == spec_lower(s),
{
    let l = spec_lower(s);
    assert forall|i: int| 0 <= i < l.len() implies #[trigger] spec_lower_char(l[i]) == l[i] by {
        if 'A' <= s[i] && s[i] <= 'Z' {
            assert('a' <= spec_lower_char(s[i]) && spec_lower_char(s[i]) <= 'z');
        }
    }
    assert(spec_lower(l) =~= l);
}

/// The text allow-list is case-insensitive: a path and its ASCII-lowered form
/// are accepted alike, so extension case never decides a text gate.
pub proof fn lemma_allowed_text_extension_case_insensitive(path: Seq<char>)
    ensures
        spec_is_allowed_text_extension(spec_lower(path)) == spec_is_allowed_text_extension(path),
{
    lemma_extension_of_lower(path);
    if spec_extension_of(path) is Some {
        lemma_lower_idempotent(spec_extension_of(path)->Some_0);
    }
}

/// The image allow-list is case-insensitive: a path and its ASCII-lowered
/// form are accepted alike, so extension case never decides an image gate.
pub proof fn lemma_allowed_image_extension_case_insensitive(path: Seq<char>)
    ensures
        spec_is_allowed_image_extension(spec_lower(path)) == spec_is_allowed_image_extension(path),
{
    lemma_extension_of_lower(path);
    if spec_extension_of(path) is Some {
        lemma_lower_idempotent(spec_extension_of(path)->Some_0);
    }
}

/// The extension used for an upload: the path's own, lower-cased, or "bin"
/// where the path has none.
pub open spec fn spec_extension_lower_or_bin(path: Seq<char>) -> Seq<char> {
    match spec_extension_of(path) {
        Some(e) => spec_lower(e),
        None => "bin"@,
    }
}

/// Extracts the upload extension of a path.
pub fn extension_lower_or_bin(path: &str) -> (r: String)
    ensures
        r@ == spec_extension_lower_or_bin(path@),
{
    match extension_of(path) {
        Some(e) => lower_str(e.as_str()),
        None => String::from_str("bin"),
    }
}

/// The stem used for an upload: the path's own, or "image" where the path has
/// none.
pub open spec fn spec_file_stem_or_image(path: Seq<char>) -> Seq<char> {
    match spec_file_stem_of(path) {
        Some(st) => st,
        None => "image"@,
    }
}

/// Extracts the upload stem of a path.
pub fn file_stem_or_image(path: &str) -> (r: String)
    ensures
        r@ == spec_file_stem_or_image(path@),
{
    match file_stem_of(path) {
        Some(st) => st,
        None => String::from_str("image"),
    }
}

} // verus!
