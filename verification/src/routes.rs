//! The route handlers: echo, user-agent reflection, file read and file
//! write.  File contents come and go as plain byte strings; the surrounding
//! program does the actual filesystem work.
use vstd::prelude::*;

use crate::headers::{get_header, spec_get_header};
use crate::lit::{
    crlf_crlf, crlf_crlf_bytes, echo_prefix_bytes, files_prefix, files_prefix_bytes,
    not_found_response, not_found_response_bytes, octet_stream, octet_stream_bytes, text_plain,
    text_plain_bytes, user_agent_name, user_agent_name_bytes,
};
use crate::response::{build_content_response, spec_build_response};
use crate::scan::{append_slice, find_last_sub, is_prefix, rfind_sub_in, starts_with};
use vstd::slice::{slice_subrange, slice_to_vec};

verus! {

/// One normalization pass over `s`: every doubled path separator `//`,
/// scanning left to right without overlap, becomes a single `/`.
pub open spec fn collapse_slashes(s: Seq<u8>) -> Seq<u8>
    decreases s.len(),
{
    if s.len() < 2 {
        s
    } else if s[0] == 47u8 && s[1] == 47u8 {
        seq![47u8] + collapse_slashes(s.skip(2))
    } else {
        seq![s[0]] + collapse_slashes(s.skip(1))
    }
}

/// `path` with a leading `/files/` stripped; any other path is kept as it is.
pub open spec fn strip_files_prefix(path: Seq<u8>) -> Seq<u8> {
    if starts_with(path, files_prefix_bytes()) {
        path.skip(7)
    } else {
        path
    }
}

/// The filesystem path a `/files/{name}` request resolves to: the serving
/// root `dir` followed by the stripped name, doubled separators collapsed.
pub open spec fn spec_filename(dir: Seq<u8>, path: Seq<u8>) -> Seq<u8> {
    collapse_slashes(dir + strip_files_prefix(path))
}

/// Resolves the file name of a `/files/` request against the serving root.
pub fn generate_filename(dir: &[u8], path: &[u8]) -> (r: Vec<u8>)
    ensures
        r@ == spec_filename(dir@, path@),
{
    let mut joined = slice_to_vec(dir);
    if is_prefix(path, files_prefix().as_slice()) {
        append_slice(&mut joined, slice_subrange(path, 7, path.len()));
        proof {
            assert(path@.subrange(7, path@.len() as int) =~= path@.skip(7));
        }
    } else {
        append_slice(&mut joined, path);
    }
    let ghost whole = joined@;
    let mut out: Vec<u8> = Vec::new();
    let mut pos: usize = 0;
    proof {
        assert(whole.skip(0) =~= whole);
    }
    while joined.len() - pos >= 2
        invariant
            pos <= joined.len(),
            whole == joined@,
            collapse_slashes(whole) == out@ + collapse_slashes(whole.skip(pos as int)),
        decreases joined.len() - pos,
    {
        let ghost suf = whole.skip(pos as int);
        if joined[pos] == 47u8 && joined[pos + 1] == 47u8 {
            out.push(47u8);
            proof {
                assert(suf.skip(2) =~= whole.skip(pos + 2));
                assert(out@ + collapse_slashes(whole.skip(pos + 2)) =~= collapse_slashes(whole));
            }
            pos = pos + 2;
        } else {
            out.push(joined[pos]);
            proof {
                assert(suf.skip(1) =~= whole.skip(pos + 1));
                assert(out@ + collapse_slashes(whole.skip(pos + 1)) =~= collapse_slashes(whole));
            }
            pos = pos + 1;
        }
    }
    if pos < joined.len() {
        out.push(joined[pos]);
        proof {
            assert(whole.skip(pos as int).len() == 1);
            assert(collapse_slashes(whole.skip(pos as int)) =~= seq![whole[pos as int]]);
            assert(out@ =~= collapse_slashes(whole));
        }
    } else {
        proof {
            assert(whole.skip(pos as int).len() == 0);
            assert(out@ =~= collapse_slashes(whole));
        }
    }
    out
}

/// The request body a POST carries: everything after the *last* occurrence
/// of the blank-line separator, or the whole request when none occurs.
pub open spec fn spec_post_body(req: Seq<u8>) -> Seq<u8> {
    let j = find_last_sub(req, crlf_crlf_bytes());
    if j >= 0 {
        req.skip(j + 4)
    } else {
        req
    }
}

/// Extracts the body of a POST request, per `spec_post_body`.
pub fn post_body(request: &[u8]) -> (r: Vec<u8>)
    ensures
        r@ == spec_post_body(request@),
{
    let sep = crlf_crlf();
    match rfind_sub_in(request, sep.as_slice()) {
        Some(i) => {
            let end = request.len();
            assert(i + 4 <= request@.len());
            let r = slice_to_vec(slice_subrange(request, i + 4, end));
            proof {
                assert(request@.subrange(i + 4, request@.len() as int) =~= request@.skip(i + 4));
            }
            r
        },
        None => slice_to_vec(request),
    }
}

/// The echo response: the path with its `/echo/` prefix removed, framed as a
/// `text/plain` 200 response.
pub fn handle_echo(path: &[u8], request: &[u8]) -> (r: Vec<u8>)
    requires
        starts_with(path@, echo_prefix_bytes()),
    ensures
        r@ == spec_build_response(request@, path@.skip(6), text_plain_bytes()),
{
    let text = slice_subrange(path, 6, path.len());
    proof {
        assert(text@ =~= path@.skip(6));
    }
    build_content_response(request, text, text_plain().as_slice())
}

/// The user-agent response: the request's `User-Agent` value, framed as a
/// `text/plain` 200 response, or the 404 literal when the header is absent
/// or empty.
pub open spec fn spec_user_agent_response(req: Seq<u8>) -> Seq<u8> {
    let ua = spec_get_header(req, user_agent_name_bytes(), Seq::empty());
    if ua.len() == 0 {
        not_found_response_bytes()
    } else {
        spec_build_response(req, ua, text_plain_bytes())
    }
}

/// Reflects the request's `User-Agent` header, per
/// `spec_user_agent_response`.
pub fn handle_user_agent(request: &[u8]) -> (r: Vec<u8>)
    ensures
        r@ == spec_user_agent_response(request@),
{
    let user_agent = get_header(request, user_agent_name().as_slice());
    if user_agent.len() == 0 {
        not_found_response()
    } else {
        build_content_response(request, user_agent.as_slice(), text_plain().as_slice())
    }
}

/// The file-read response: the contents handed back by the reader framed as
/// an `application/octet-stream` 200 response, or the 404 literal when the
/// file could not be read.
pub open spec fn spec_file_response(req: Seq<u8>, file: Option<Seq<u8>>) -> Seq<u8> {
    match file {
        Some(c) => spec_build_response(req, c, octet_stream_bytes()),
        None => not_found_response_bytes(),
    }
}

/// Frames the outcome of a file read, per `spec_file_response`.
pub fn handle_file(request: &[u8], file: Option<&Vec<u8>>) -> (r: Vec<u8>)
    ensures
        r@ == spec_file_response(
            request@,
            match file {
                Some(c) => Some(c@),
                None => None,
            },
        ),
{
    match file {
        Some(contents) => build_content_response(
            request,
            contents.as_slice(),
            octet_stream().as_slice(),
        ),
        None => not_found_response(),
    }
}

} // verus!
