use vstd::prelude::*;
use crate::chars::{trim_in, ws_set, trim_ws_str};
use crate::errors::{PipelineError, is_input_validation};

verus! {

/// The maximal non-empty runs of non-'/' characters of `s`, in order: the
/// slash-delimited segments, with empty segments dropped.
pub open spec fn slash_segments(s: Seq<char>) -> Seq<Seq<char>>
    decreases s.len(),
{
    if s.len() == 0 {
        Seq::<Seq<char>>::empty()
    } else {
        let rest = slash_segments(s.drop_last());
        let c = s.last();
        if c == '/' {
            rest
        } else if s.len() >= 2 && s[s.len() - 2] != '/' && rest.len() > 0 {
            rest.update(rest.len() - 1, rest.last().push(c))
        } else {
            rest.push(seq![c])
        }
    }
}

/// The segments of a repository spec, after trimming surrounding whitespace.
pub open spec fn spec_repo_segments(s: Seq<char>) -> Seq<Seq<char>> {
    slash_segments(trim_in(s, ws_set()))
}

/// The message returned for a malformed repository spec.
pub open spec fn repo_format_message() -> Seq<char> {
    "repo must be in the format owner/repo"@
}

/// Parses an `owner/repo` spec: the trimmed input must split into exactly two
/// non-empty slash-delimited segments, which become the owner and the
/// repository name; anything else is rejected before any network work.
pub fn parse_github_repo(repo: &str) -> (r: Result<(String, String), PipelineError>)
    ensures
        ({
            let segs = spec_repo_segments(repo@);
            match r {
                Ok(p) => segs.len() == 2 && p.0@ == segs[0] && p.1@ == segs[1],
                Err(e) => segs.len() != 2 && is_input_validation(e, repo_format_message()),
            }
        }),
{
    let t = trim_ws_str(repo);
    let n = t.as_str().unicode_len();
    let mut seg1 = String::new();
    let mut seg2 = String::new();
    let mut count: usize = 0;
    let mut i: usize = 0;
    while i < n
        invariant
            i <= n,
            count <= i,
            n == t@.len(),
            count == slash_segments(t@.take(i as int)).len(),
            i > 0 && t@[i as int - 1] != '/' ==> count >= 1,
            count == 0 ==> seg1@ == Seq::<char>::empty(),
            count <= 1 ==> seg2@ == Seq::<char>::empty(),
            count >= 1 ==> seg1@ == slash_segments(t@.take(i as int))[0],
            count >= 2 ==> seg2@ == slash_segments(t@.take(i as int))[1],
        decreases n - i,
    {
        let ghost pre = t@.take(i as int);
        let ghost post = t@.take(i as int + 1);
        proof {
            assert(post.drop_last() =~= pre);
            assert(post.last() == t@[i as int]);
        }
        let c = t.as_str().get_char(i);
        let prev_slash = if i == 0 {
            true
        } else {
            t.as_str().get_char(i - 1) == '/'
        };
        if c != '/' {
            proof {
                if prev_slash {
                    assert(slash_segments(post) == slash_segments(pre).push(seq![t@[i as int]]));
                } else {
                    let rest = slash_segments(pre);
                    assert(post.len() >= 2 && post[post.len() - 2] != '/' && rest.len() > 0);
                    assert(slash_segments(post) == rest.update(
                        rest.len() - 1,
                        rest.last().push(t@[i as int]),
                    ));
                }
            }
            if prev_slash {
                count = count + 1;
                if count == 1 {
                    seg1.push(c);
                    proof {
                        assert(seg1@ =~= seq![t@[i as int]]);
                    }
                } else if count == 2 {
                    seg2.push(c);
                    proof {
                        assert(seg2@ =~= seq![t@[i as int]]);
                    }
                }
            } else {
                if count == 1 {
                    seg1.push(c);
                } else if count == 2 {
                    seg2.push(c);
                }
            }
        } else {
            proof {
                assert(slash_segments(post) == slash_segments(pre));
            }
        }
        i = i + 1;
    }
    proof {
        assert(t@.take(n as int) =~= t@);
    }
    if count == 2 {
        Ok((seg1, seg2))
    } else {
        Err(PipelineError::InputValidation(String::from_str("repo must be in the format owner/repo")))
    }
}

} // verus!
