use vstd::prelude::*;
use crate::chars::{
    spec_u64_string, spec_decimal_digits, spec_digit_char, u64_to_string, lemma_u64_string_digits,
    spec_is_ascii_digit,
};
use crate::errors::{PipelineError, is_input_validation};
use crate::paths::{
    spec_is_allowed_text_extension, is_allowed_text_extension, spec_is_allowed_image_extension,
    is_allowed_image_extension,
};

verus! {

/// The name under which bytes are stored locally: the timestamp in
/// milliseconds, a dash, then the already-sanitized base name.
pub open spec fn spec_stored_file_name(ts: int, name: Seq<char>) -> Seq<char> {
    spec_u64_string(ts) + seq!['-'] + name
}

/// Builds the stored file name for one local write.
pub fn stored_file_name(ts: u64, name: &str) -> (r: String)
    ensures
        r@ == spec_stored_file_name(ts as int, name@),
{
    let mut out = u64_to_string(ts);
    out.push('-');
    out.append(name);
    proof {
        assert(out@ =~= spec_stored_file_name(ts as int, name@));
    }
    out
}

/// Positive numbers with equal digit strings are equal.
proof fn lemma_decimal_digits_injective(a: int, b: int)
    requires
        a > 0,
        b > 0,
        spec_decimal_digits(a) == spec_decimal_digits(b),
    ensures
        a == b,
    decreases a,
{
    let da = spec_decimal_digits(a);
    let db = spec_decimal_digits(b);
    assert(da == spec_decimal_digits(a / 10).push(spec_digit_char(a % 10)));
    assert(db == spec_decimal_digits(b / 10).push(spec_digit_char(b % 10)));
    assert(da.last() == spec_digit_char(a % 10));
    assert(db.last() == spec_digit_char(b % 10));
    assert(a % 10 == b % 10);
    assert(da.drop_last() =~= spec_decimal_digits(a / 10));
    assert(db.drop_last() =~= spec_decimal_digits(b / 10));
    if a / 10 > 0 && b / 10 > 0 {
        lemma_decimal_digits_injective(a / 10, b / 10);
    } else if a / 10 == 0 && b / 10 > 0 {
        assert(spec_decimal_digits(b / 10) == spec_decimal_digits(b / 10 / 10).push(
            spec_digit_char(b / 10 % 10),
        ));
        assert(false);
    } else if a / 10 > 0 && b / 10 == 0 {
        assert(spec_decimal_digits(a / 10) == spec_decimal_digits(a / 10 / 10).push(
            spec_digit_char(a / 10 % 10),
        ));
        assert(false);
    }
}

/// Distinct numbers render to distinct decimal strings.
pub proof fn lemma_u64_string_injective(a: int, b: int)
    requires
        0 <= a,
        0 <= b,
        spec_u64_string(a) == spec_u64_string(b),
    ensures
        a == b,
{
    if a == 0 && b > 0 {
        assert(spec_decimal_digits(b).last() == spec_digit_char(b % 10));
        assert(spec_u64_string(a) == seq!['0']);
        assert(spec_digit_char(b % 10) == '0');
        assert(b % 10 == 0);
        assert(spec_decimal_digits(b).drop_last() =~= spec_decimal_digits(b / 10));
        if b / 10 > 0 {
            assert(spec_decimal_digits(b / 10) == spec_decimal_digits(b / 10 / 10).push(
                spec_digit_char(b / 10 % 10),
            ));
            assert(false);
        }
    } else if b == 0 && a > 0 {
        assert(spec_decimal_digits(a).last() == spec_digit_char(a % 10));
        assert(spec_u64_string(b) == seq!['0']);
        assert(spec_digit_char(a % 10) == '0');
        assert(a % 10 == 0);
        assert(spec_decimal_digits(a).drop_last() =~= spec_decimal_digits(a / 10));
        if a / 10 > 0 {
            assert(spec_decimal_digits(a / 10) == spec_decimal_digits(a / 10 / 10).push(
                spec_digit_char(a / 10 % 10),
            ));
            assert(false);
        }
    } else if a > 0 && b > 0 {
        lemma_decimal_digits_injective(a, b);
    }
}

/// Stored file names never collide: two writes with distinct timestamps, or
/// with one timestamp and distinct base names, go to distinct file names.
/// Only a write with the same name in the same millisecond can overwrite.
pub proof fn lemma_stored_file_names_distinct(ts1: int, n1: Seq<char>, ts2: int, n2: Seq<char>)
    requires
        0 <= ts1,
        0 <= ts2,
        ts1 != ts2 || n1 != n2,
    ensures
        spec_stored_file_name(ts1, n1) != spec_stored_file_name(ts2, n2),
{
    let a = spec_u64_string(ts1);
    let b = spec_u64_string(ts2);
    let s1 = spec_stored_file_name(ts1, n1);
    let s2 = spec_stored_file_name(ts2, n2);
    lemma_u64_string_digits(ts1);
    lemma_u64_string_digits(ts2);
    if s1 == s2 {
        if a.len() < b.len() {
            assert(s1[a.len() as int] == '-');
            assert(s2[a.len() as int] == b[a.len() as int]);
            assert(spec_is_ascii_digit(b[a.len() as int]));
            assert(false);
        } else if b.len() < a.len() {
            assert(s2[b.len() as int] == '-');
            assert(s1[b.len() as int] == a[b.len() as int]);
            assert(spec_is_ascii_digit(a[b.len() as int]));
            assert(false);
        } else {
            assert(a =~= s1.subrange(0, a.len() as int));
            assert(b =~= s2.subrange(0, b.len() as int));
            lemma_u64_string_injective(ts1, ts2);
            assert(n1 =~= s1.subrange(a.len() as int + 1, s1.len() as int));
            assert(n2 =~= s2.subrange(b.len() as int + 1, s2.len() as int));
            assert(false);
        }
    }
}

/// The byte ceiling over which a text file is refused before it is read.
pub open spec fn text_size_limit() -> int {
    5 * 1024 * 1024int
}

/// The byte ceiling over which an image file is refused before it is read.
pub open spec fn image_size_limit() -> int {
    20 * 1024 * 1024int
}

/// Gate run before any text-file content is read: the path's extension must
/// be on the text allow-list.
pub fn check_text_read_request(path: &str) -> (r: Result<(), PipelineError>)
    ensures
        r is Ok <==> spec_is_allowed_text_extension(path@),
        r matches Err(e) ==> is_input_validation(e, "unsupported file type"@),
{
    if is_allowed_text_extension(path) {
        Ok(())
    } else {
        Err(PipelineError::InputValidation(String::from_str("unsupported file type")))
    }
}

/// Gate run on a text file's metadata before its content is read: it must be
/// a regular file no larger than the text size ceiling.
pub fn check_text_read_stat(is_file: bool, len: u64) -> (r: Result<(), PipelineError>)
    ensures
        !is_file ==> (r matches Err(e) && is_input_validation(e, "not a file"@)),
        is_file && len > text_size_limit() ==> (r matches Err(e) && is_input_validation(
            e,
            "file too large"@,
        )),
        is_file && len <= text_size_limit() ==> r is Ok,
{
    if !is_file {
        Err(PipelineError::InputValidation(String::from_str("not a file")))
    } else if len > 5242880 {
        Err(PipelineError::InputValidation(String::from_str("file too large")))
    } else {
        Ok(())
    }
}

/// Gate run before any image-file content is read: the path's extension must
/// be on the image allow-list.
pub fn check_image_copy_request(path: &str) -> (r: Result<(), PipelineError>)
    ensures
        r is Ok <==> spec_is_allowed_image_extension(path@),
        r matches Err(e) ==> is_input_validation(e, "unsupported image type"@),
{
    if is_allowed_image_extension(path) {
        Ok(())
    } else {
        Err(PipelineError::InputValidation(String::from_str("unsupported image type")))
    }
}

/// Gate run on an image file's metadata before its content is read: it must
/// be a regular file no larger than the image size ceiling.
pub fn check_image_copy_stat(is_file: bool, len: u64) -> (r: Result<(), PipelineError>)
    ensures
        !is_file ==> (r matches Err(e) && is_input_validation(e, "not a file"@)),
        is_file && len > image_size_limit() ==> (r matches Err(e) && is_input_validation(
            e,
            "file too large"@,
        )),
        is_file && len <= image_size_limit() ==> r is Ok,
{
    if !is_file {
        Err(PipelineError::InputValidation(String::from_str("not a file")))
    } else if len > 20971520 {
        Err(PipelineError::InputValidation(String::from_str("file too large")))
    } else {
        Ok(())
    }
}

} // verus!
