use vstd::prelude::*;
use crate::chars::{
    trim_in, ws_set, trim_ws_str, trim_char_str, spec_u64_string, u64_to_string,
};
use crate::errors::{PipelineError, is_remote_failure};
use crate::paths::{
    spec_extension_lower_or_bin, extension_lower_or_bin, spec_file_stem_or_image,
    file_stem_or_image,
};
use crate::sanitize::{spec_sanitize_git_path_component, sanitize_git_path_component};
use crate::compress::{compress_image_to_jpeg_under_limit, spec_compress_result};

verus! {

/// The version header value sent with every request to the content host.
pub fn github_api_version() -> (r: String)
    ensures
        r@ == "2022-11-28"@,
{
    String::from_str("2022-11-28")
}

/// The client-identifying user agent sent with every request.
pub fn user_agent() -> (r: String)
    ensures
        r@ == "Carbo Markdown Editor"@,
{
    String::from_str("Carbo Markdown Editor")
}

/// The metadata endpoint of a repository.
pub open spec fn spec_repo_api_url(owner: Seq<char>, repo: Seq<char>) -> Seq<char> {
    "https://api.github.com/repos/"@ + owner + seq!['/'] + repo
}

/// Builds the metadata endpoint of a repository.
pub fn repo_api_url(owner: &str, repo: &str) -> (r: String)
    ensures
        r@ == spec_repo_api_url(owner@, repo@),
{
    let mut out = String::from_str("https://api.github.com/repos/");
    out.append(owner);
    out.push('/');
    out.append(repo);
    proof {
        assert(out@ =~= spec_repo_api_url(owner@, repo@));
    }
    out
}

/// The create-or-update endpoint of one content path in a repository.
pub open spec fn spec_contents_url(owner: Seq<char>, repo: Seq<char>, path: Seq<char>) -> Seq<
    char,
> {
    spec_repo_api_url(owner, repo) + "/contents/"@ + path
}

/// Builds the create-or-update endpoint of one content path.
pub fn contents_url(owner: &str, repo: &str, path: &str) -> (r: String)
    ensures
        r@ == spec_contents_url(owner@, repo@, path@),
{
    let mut out = repo_api_url(owner, repo);
    out.append("/contents/");
    out.append(path);
    proof {
        assert(out@ =~= spec_contents_url(owner@, repo@, path@));
    }
    out
}

/// The durable raw-content retrieval URL: a pure function of owner, repo,
/// branch and the content path, with the path embedded verbatim.
pub open spec fn spec_raw_content_url(
    owner: Seq<char>,
    repo: Seq<char>,
    branch: Seq<char>,
    path: Seq<char>,
) -> Seq<char> {
    "https://raw.githubusercontent.com/"@ + owner + seq!['/'] + repo + seq!['/'] + branch + seq![
        '/',
    ] + path
}

/// Builds the raw-content retrieval URL.
pub fn raw_content_url(owner: &str, repo: &str, branch: &str, path: &str) -> (r: String)
    ensures
        r@ == spec_raw_content_url(owner@, repo@, branch@, path@),
{
    let mut out = String::from_str("https://raw.githubusercontent.com/");
    out.append(owner);
    out.push('/');
    out.append(repo);
    out.push('/');
    out.append(branch);
    out.push('/');
    out.append(path);
    proof {
        assert(out@ =~= spec_raw_content_url(owner@, repo@, branch@, path@));
    }
    out
}

/// The branch a publish targets: the given one with surrounding whitespace
/// trimmed, or "master" where that leaves nothing.
pub open spec fn spec_default_branch(branch: Seq<char>) -> Seq<char> {
    let t = trim_in(branch, ws_set());
    if t.len() == 0 {
        "master"@
    } else {
        t
    }
}

/// Applies the branch default.
pub fn default_branch(branch: &str) -> (r: String)
    ensures
        r@ == spec_default_branch(branch@),
{
    let t = trim_ws_str(branch);
    if t.as_str().unicode_len() == 0 {
        String::from_str("master")
    } else {
        t
    }
}

/// The path prefix a publish uses: the given one with surrounding whitespace
/// and slashes trimmed, or "images" where that leaves nothing.
pub open spec fn spec_default_prefix(prefix: Seq<char>) -> Seq<char> {
    let t = trim_in(trim_in(prefix, ws_set()), set!['/']);
    if t.len() == 0 {
        "images"@
    } else {
        t
    }
}

/// Applies the path-prefix default.
pub fn default_prefix(prefix: &str) -> (r: String)
    ensures
        r@ == spec_default_prefix(prefix@),
{
    let t1 = trim_ws_str(prefix);
    let t = trim_char_str(t1.as_str(), '/');
    if t.as_str().unicode_len() == 0 {
        String::from_str("images")
    } else {
        t
    }
}

/// The content-addressed destination of one publish: prefix, timestamp, the
/// sanitized stem and the chosen extension.
pub open spec fn spec_destination_path(
    prefix: Seq<char>,
    ts: int,
    stem: Seq<char>,
    ext: Seq<char>,
) -> Seq<char> {
    spec_default_prefix(prefix) + seq!['/'] + spec_u64_string(ts) + seq!['-'] + stem + seq!['.']
        + ext
}

/// Builds the destination path of one publish; `stem` must already be
/// sanitized.
pub fn destination_path(prefix: &str, ts: u64, stem: &str, ext: &str) -> (r: String)
    ensures
        r@ == spec_destination_path(prefix@, ts as int, stem@, ext@),
{
    let mut out = default_prefix(prefix);
    out.push('/');
    let ts_str = u64_to_string(ts);
    out.append(ts_str.as_str());
    out.push('-');
    out.append(stem);
    out.push('.');
    out.append(ext);
    proof {
        assert(out@ =~= spec_destination_path(prefix@, ts as int, stem@, ext@));
    }
    out
}

/// The fixed commit-message template, with the destination path embedded.
pub open spec fn spec_commit_message(dst: Seq<char>) -> Seq<char> {
    "chore(images): add "@ + dst
}

/// Builds the commit message of one publish.
pub fn commit_message(dst: &str) -> (r: String)
    ensures
        r@ == spec_commit_message(dst@),
{
    let mut out = String::from_str("chore(images): add ");
    out.append(dst);
    proof {
        assert(out@ =~= spec_commit_message(dst@));
    }
    out
}

/// The character for one hexadecimal digit.
pub open spec fn spec_hex_digit(d: int) -> char {
    if d == 0 {
        '0'
    } else if d == 1 {
        '1'
    } else if d == 2 {
        '2'
    } else if d == 3 {
        '3'
    } else if d == 4 {
        '4'
    } else if d == 5 {
        '5'
    } else if d == 6 {
        '6'
    } else if d == 7 {
        '7'
    } else if d == 8 {
        '8'
    } else if d == 9 {
        '9'
    } else if d == 10 {
        'a'
    } else if d == 11 {
        'b'
    } else if d == 12 {
        'c'
    } else if d == 13 {
        'd'
    } else if d == 14 {
        'e'
    } else {
        'f'
    }
}

/// Executable hexadecimal digit character.
fn hex_digit(d: u32) -> (r: char)
    requires
        d < 16,
    ensures
        r == spec_hex_digit(d as int),
{
    if d == 0 {
        '0'
    } else if d == 1 {
        '1'
    } else if d == 2 {
        '2'
    } else if d == 3 {
        '3'
    } else if d == 4 {
        '4'
    } else if d == 5 {
        '5'
    } else if d == 6 {
        '6'
    } else if d == 7 {
        '7'
    } else if d == 8 {
        '8'
    } else if d == 9 {
        '9'
    } else if d == 10 {
        'a'
    } else if d == 11 {
        'b'
    } else if d == 12 {
        'c'
    } else if d == 13 {
        'd'
    } else if d == 14 {
        'e'
    } else {
        'f'
    }
}

/// The JSON escape of one character: quotes, backslashes and control
/// characters are escaped, everything else stands for itself.
pub open spec fn spec_escape_char(c: char) -> Seq<char> {
    if c == '"' {
        seq!['\\', '"']
    } else if c == '\\' {
        seq!['\\', '\\']
    } else if c == '\n' {
        seq!['\\', 'n']
    } else if c == '\r' {
        seq!['\\', 'r']
    } else if c == '\t' {
        seq!['\\', 't']
    } else if (c as u32) < 32 {
        seq!['\\', 'u', '0', '0', spec_hex_digit((c as u32) as int / 16), spec_hex_digit(
            (c as u32) as int % 16,
        )]
    } else {
        seq![c]
    }
}

/// The JSON escape of a whole string.
pub open spec fn spec_json_escaped(s: Seq<char>) -> Seq<char>
    decreases s.len(),
{
    if s.len() == 0 {
        Seq::<char>::empty()
    } else {
        spec_json_escaped(s.drop_last()) + spec_escape_char(s.last())
    }
}

/// Escapes a string for embedding in a JSON string literal.
pub fn json_escape_str(s: &str) -> (r: String)
    ensures
        r@ == spec_json_escaped(s@),
{
    let n = s.unicode_len();
    let mut out = String::new();
    let mut i: usize = 0;
    while i < n
        invariant
            i <= n,
            n == s@.len(),
            out@ == spec_json_escaped(s@.take(i as int)),
        decreases n - i,
    {
        let c = s.get_char(i);
        if c == '"' {
            out.push('\\');
            out.push('"');
        } else if c == '\\' {
            out.push('\\');
            out.push('\\');
        } else if c == '\n' {
            out.push('\\');
            out.push('n');
        } else if c == '\r' {
            out.push('\\');
            out.push('r');
        } else if c == '\t' {
            out.push('\\');
            out.push('t');
        } else if (c as u32) < 32 {
            let u = c as u32;
            out.push('\\');
            out.push('u');
            out.push('0');
            out.push('0');
            out.push(hex_digit(u / 16));
            out.push(hex_digit(u % 16));
        } else {
            out.push(c);
        }
        proof {
            assert(s@.take(i + 1 as int).drop_last() =~= s@.take(i as int));
            assert(s@.take(i + 1 as int).last() == s@[i as int]);
            assert(out@ =~= spec_json_escaped(s@.take(i as int)) + spec_escape_char(s@[i as int]));
        }
        i = i + 1;
    }
    proof {
        assert(s@.take(n as int) =~= s@);
    }
    out
}

/// The JSON body of a create-or-update-content request, with every field
/// escaped.
pub open spec fn spec_put_content_body(
    message: Seq<char>,
    content_b64: Seq<char>,
    branch: Seq<char>,
) -> Seq<char> {
    "{\"message\":\""@ + spec_json_escaped(message) + "\",\"content\":\""@ + spec_json_escaped(
        content_b64,
    ) + "\",\"branch\":\""@ + spec_json_escaped(branch) + "\"}"@
}

/// Builds the JSON body of a create-or-update-content request.
pub fn put_content_body(message: &str, content_b64: &str, branch: &str) -> (r: String)
    ensures
        r@ == spec_put_content_body(message@, content_b64@, branch@),
{
    let mut out = String::from_str("{\"message\":\"");
    let em = json_escape_str(message);
    out.append(em.as_str());
    out.append("\",\"content\":\"");
    let ec = json_escape_str(content_b64);
    out.append(ec.as_str());
    out.append("\",\"branch\":\"");
    let eb = json_escape_str(branch);
    out.append(eb.as_str());
    out.append("\"}");
    proof {
        assert(out@ =~= spec_put_content_body(message@, content_b64@, branch@));
    }
    out
}

/// The standard padded base64 rendering of a byte string; a pure function of
/// the bytes, named here and computed only by the outside encoder.
pub uninterp spec fn base64_standard_of(bytes: Seq<u8>) -> Seq<char>;

/// Relies on base64's standard-alphabet padded engine: the encoding depends
/// on the bytes alone, and the padded output holds four characters for every
/// three input bytes begun.
#[verifier::external_body]
fn base64_encode(bytes: &[u8]) -> (r: String)
    ensures
        r@ == base64_standard_of(bytes@),
        r@.len() == 4 * ((bytes@.len() + 2) / 3),
{
    base64::Engine::encode(&base64::engine::general_purpose::STANDARD, bytes)
}

/// Whether the response body parses as a JSON document; parsing depends on
/// the text alone.
pub uninterp spec fn json_body_parses(body: Seq<char>) -> bool;

/// The parse error message on a body that does not parse.
pub uninterp spec fn json_error_of(body: Seq<char>) -> Seq<char>;

/// The boolean at permissions.push in the body, where the body carries one.
pub uninterp spec fn push_flag_of(body: Seq<char>) -> Option<bool>;

/// The boolean at permissions.admin in the body, where the body carries one.
pub uninterp spec fn admin_flag_of(body: Seq<char>) -> Option<bool>;

/// The string at content.path in the body, where the body carries one.
pub uninterp spec fn content_path_of(body: Seq<char>) -> Option<Seq<char>>;

/// Relies on serde_json::from_str and Value::get/as_bool: parsing and the
/// two flag lookups depend on the body text alone; a flag that is absent or
/// not a boolean reads as None.
#[verifier::external_body]
fn extract_permission_flags(body: &str) -> (r: Result<(Option<bool>, Option<bool>), String>)
    ensures
        r is Ok == json_body_parses(body@),
        r matches Ok(f) ==> f.0 == push_flag_of(body@) && f.1 == admin_flag_of(body@),
        r matches Err(m) ==> m@ == json_error_of(body@),
{
    let v: serde_json::Value = match serde_json::from_str(body) {
        Ok(v) => v,
        Err(e) => return Err(e.to_string()),
    };
    let p = v.get("permissions");
    let push = p.and_then(|p| p.get("push")).and_then(|b| b.as_bool());
    let admin = p.and_then(|p| p.get("admin")).and_then(|b| b.as_bool());
    Ok((push, admin))
}

/// Relies on serde_json::from_str and Value::get/as_str: parsing and the
/// confirmed-path lookup depend on the body text alone; an absent or
/// non-string path reads as None.
#[verifier::external_body]
fn extract_content_path(body: &str) -> (r: Result<Option<String>, String>)
    ensures
        r is Ok == json_body_parses(body@),
        r matches Ok(p) ==> match p {
            Some(s) => content_path_of(body@) == Some(s@),
            None => content_path_of(body@) is None,
        },
        r matches Err(m) ==> m@ == json_error_of(body@),
{
    let v: serde_json::Value = match serde_json::from_str(body) {
        Ok(v) => v,
        Err(e) => return Err(e.to_string()),
    };
    match v.get("content").and_then(|c| c.get("path")).and_then(|p| p.as_str()) {
        Some(s) => Ok(Some(s.to_owned())),
        None => Ok(None),
    }
}

/// The permission flags of a repository, as the metadata endpoint reports
/// them.
#[derive(PartialEq, Eq, Structural, Clone, Copy, Debug)]
pub struct GitHubValidateRepoResult {
    pub push: bool,
    pub admin: bool,
}

/// Fail-closed reading of the permission flags: a flag counts as granted only
/// where the response carried an explicit `true`; an absent or non-boolean
/// flag counts as denied.
pub fn access_from_flags(push: Option<bool>, admin: Option<bool>) -> (r: GitHubValidateRepoResult)
    ensures
        r.push == (push == Some(true)),
        r.admin == (admin == Some(true)),
{
    GitHubValidateRepoResult {
        push: match push {
            Some(b) => b,
            None => false,
        },
        admin: match admin {
            Some(b) => b,
            None => false,
        },
    }
}

/// A status in the HTTP success range.
pub open spec fn spec_status_success(status: int) -> bool {
    200 <= status < 300
}

/// The message of a failed metadata fetch, carrying status and body.
pub open spec fn spec_validate_failure_message(status: int, body: Seq<char>) -> Seq<char> {
    "github validate failed: "@ + spec_u64_string(status) + seq![' '] + body
}

/// The message of a failed content upload, carrying status and body.
pub open spec fn spec_upload_failure_message(status: int, body: Seq<char>) -> Seq<char> {
    "github upload failed: "@ + spec_u64_string(status) + seq![' '] + body
}

/// Interprets the response of the repository metadata fetch: a non-success
/// status fails with status and body; a success status whose body parses
/// yields exactly the body's permission flags, read fail-closed; a success
/// status whose body does not parse fails with the parse error.
pub fn interpret_validate_response(status: u16, body: &str) -> (r: Result<
    GitHubValidateRepoResult,
    PipelineError,
>)
    ensures
        !spec_status_success(status as int) ==> (r matches Err(e) && is_remote_failure(
            e,
            spec_validate_failure_message(status as int, body@),
        )),
        spec_status_success(status as int) && json_body_parses(body@) ==> (r matches Ok(a)
            && a.push == (push_flag_of(body@) == Some(true)) && a.admin == (admin_flag_of(body@)
            == Some(true))),
        spec_status_success(status as int) && !json_body_parses(body@) ==> (r matches Err(e)
            && is_remote_failure(e, json_error_of(body@))),
{
    if !(status >= 200 && status < 300) {
        let mut m = String::from_str("github validate failed: ");
        let s = u64_to_string(status as u64);
        m.append(s.as_str());
        m.push(' ');
        m.append(body);
        proof {
            assert(m@ =~= spec_validate_failure_message(status as int, body@));
        }
        return Err(PipelineError::RemoteFailure(m));
    }
    match extract_permission_flags(body) {
        Ok((push, admin)) => Ok(access_from_flags(push, admin)),
        Err(m) => Err(PipelineError::RemoteFailure(m)),
    }
}

/// Interprets the response of the content upload: a non-success status fails
/// with status and body; on a success status whose body carries the
/// confirmed content path, the returned URL embeds exactly that path,
/// verbatim, in the raw-content URL template; a success body without it, or
/// one that does not parse, is a remote failure.
pub fn interpret_upload_response(
    status: u16,
    body: &str,
    owner: &str,
    repo: &str,
    branch: &str,
) -> (r: Result<String, PipelineError>)
    ensures
        !spec_status_success(status as int) ==> (r matches Err(e) && is_remote_failure(
            e,
            spec_upload_failure_message(status as int, body@),
        )),
        spec_status_success(status as int) && json_body_parses(body@) ==> (content_path_of(
            body@,
        ) matches Some(p) ==> (r matches Ok(url) && url@ == spec_raw_content_url(
            owner@,
            repo@,
            branch@,
            p,
        ))),
        spec_status_success(status as int) && json_body_parses(body@) && content_path_of(body@)
            is None ==> (r matches Err(e) && is_remote_failure(
            e,
            "github upload failed: malformed response body"@,
        )),
        spec_status_success(status as int) && !json_body_parses(body@) ==> (r matches Err(e)
            && is_remote_failure(e, json_error_of(body@))),
{
    if !(status >= 200 && status < 300) {
        let mut m = String::from_str("github upload failed: ");
        let s = u64_to_string(status as u64);
        m.append(s.as_str());
        m.push(' ');
        m.append(body);
        proof {
            assert(m@ =~= spec_upload_failure_message(status as int, body@));
        }
        return Err(PipelineError::RemoteFailure(m));
    }
    match extract_content_path(body) {
        Ok(Some(path)) => Ok(raw_content_url(owner, repo, branch, path.as_str())),
        Ok(None) => Err(
            PipelineError::RemoteFailure(
                String::from_str("github upload failed: malformed response body"),
            ),
        ),
        Err(m) => Err(PipelineError::RemoteFailure(m)),
    }
}

/// Gate run on the publish source's metadata before its bytes are read: only
/// a regular file is published.
pub fn check_upload_source(is_file: bool) -> (r: Result<(), PipelineError>)
    ensures
        r is Ok <==> is_file,
        r matches Err(e) ==> crate::errors::is_input_validation(e, "not a file"@),
{
    if is_file {
        Ok(())
    } else {
        Err(PipelineError::InputValidation(String::from_str("not a file")))
    }
}

/// What one publish sends: the chosen bytes and the extension they carry.
pub struct EncodedAsset {
    /// The bytes to upload.
    pub bytes: Vec<u8>,
    /// The lower-case extension of the destination path.
    pub extension: String,
}

/// Chooses what a publish uploads. A file already within the budget is taken
/// unchanged, under its own lower-cased extension ("bin" where it has none).
/// An oversized file becomes exactly the compressor's JPEG under the budget,
/// or the whole publish fails: the chosen bytes never exceed the budget.
pub fn choose_upload_encoding(original: Vec<u8>, path: &str, max_bytes: u64) -> (r: Result<
    EncodedAsset,
    PipelineError,
>)
    ensures
        r matches Ok(a) ==> a.bytes@.len() <= max_bytes,
        original@.len() <= max_bytes ==> (r matches Ok(a) && a.bytes@ == original@ && a.extension@
            == spec_extension_lower_or_bin(path@)),
        original@.len() > max_bytes ==> match spec_compress_result(original@, max_bytes as int) {
            Some(v) => (r matches Ok(a) && a.bytes@ == v && a.extension@ == "jpg"@),
            None => (r matches Err(e) && e is EncodingFailure),
        },
        r matches Err(e) ==> original@.len() > max_bytes && e is EncodingFailure,
{
    if (original.len() as u64) <= max_bytes {
        let ext = extension_lower_or_bin(path);
        Ok(EncodedAsset { bytes: original, extension: ext })
    } else {
        match compress_image_to_jpeg_under_limit(original.as_slice(), max_bytes) {
            Ok(out) => Ok(EncodedAsset { bytes: out, extension: String::from_str("jpg") }),
            Err(e) => Err(e),
        }
    }
}

/// One fully assembled create-or-update-content request.
pub struct PublishRequest {
    /// The contents endpoint the body is sent to.
    pub url: String,
    /// The JSON request body.
    pub body: String,
    /// The repository-relative destination path that was requested.
    pub destination_path: String,
    /// The branch targeted, after the default was applied.
    pub branch: String,
}

/// Assembles the upload request of one publish from the file's bytes and
/// name: chooses the bytes and extension under the budget, derives the
/// content-addressed destination path, and builds the endpoint and the JSON
/// body around the base64 of the chosen bytes — the file's own bytes within
/// the budget, the compressor's exact output above it. Fails only where an
/// oversized file cannot be brought under the budget.
pub fn prepare_publish(
    owner: &str,
    repo: &str,
    branch: &str,
    path_prefix: &str,
    local_path: &str,
    file_bytes: Vec<u8>,
    max_bytes: u64,
    ts: u64,
) -> (r: Result<PublishRequest, PipelineError>)
    ensures
        ({
            let stem = spec_sanitize_git_path_component(spec_file_stem_or_image(local_path@));
            let b = spec_default_branch(branch@);
            &&& (r matches Ok(pr) ==> {
                &&& pr.branch@ == b
                &&& pr.url@ == spec_contents_url(owner@, repo@, pr.destination_path@)
                &&& (file_bytes@.len() <= max_bytes ==> pr.destination_path@
                    == spec_destination_path(
                    path_prefix@,
                    ts as int,
                    stem,
                    spec_extension_lower_or_bin(local_path@),
                ) && pr.body@ == spec_put_content_body(
                    spec_commit_message(pr.destination_path@),
                    base64_standard_of(file_bytes@),
                    b,
                ))
            })
            &&& (file_bytes@.len() > max_bytes ==> match spec_compress_result(
                file_bytes@,
                max_bytes as int,
            ) {
                Some(v) => (r matches Ok(pr) && pr.destination_path@ == spec_destination_path(
                    path_prefix@,
                    ts as int,
                    stem,
                    "jpg"@,
                ) && pr.body@ == spec_put_content_body(
                    spec_commit_message(pr.destination_path@),
                    base64_standard_of(v),
                    b,
                )),
                None => (r matches Err(e) && e is EncodingFailure),
            })
            &&& (file_bytes@.len() <= max_bytes ==> r is Ok)
            &&& (r matches Err(e) ==> file_bytes@.len() > max_bytes && e is EncodingFailure)
        }),
{
    let asset = match choose_upload_encoding(file_bytes, local_path, max_bytes) {
        Ok(a) => a,
        Err(e) => {
            return Err(e);
        },
    };
    let stem_raw = file_stem_or_image(local_path);
    let stem = sanitize_git_path_component(stem_raw.as_str());
    let b = default_branch(branch);
    let dst = destination_path(path_prefix, ts, stem.as_str(), asset.extension.as_str());
    let content = base64_encode(asset.bytes.as_slice());
    let msg = commit_message(dst.as_str());
    let body = put_content_body(msg.as_str(), content.as_str(), b.as_str());
    let url = contents_url(owner, repo, dst.as_str());
    Ok(PublishRequest { url, body, destination_path: dst, branch: b })
}

} // verus!
