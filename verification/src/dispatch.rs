//! The request dispatcher: parses the request line, selects method and path,
//! and decides what the connection's owner must do.  Everything that touches
//! a socket or the filesystem stays outside; the decision comes back as an
//! `Action` over plain byte strings.
use vstd::prelude::*;

use crate::headers::{line_at, spec_line_at};
use crate::lit::{
    echo_prefix, echo_prefix_bytes, files_prefix, files_prefix_bytes, method_get,
    method_get_bytes, method_post, method_post_bytes, not_found_response,
    not_found_response_bytes, ok_response, ok_response_bytes, root_path, root_path_bytes,
    text_plain_bytes, user_agent_path, user_agent_path_bytes,
};
use crate::response::spec_build_response;
use crate::routes::{
    generate_filename, handle_echo, handle_user_agent, post_body, spec_filename, spec_post_body,
    spec_user_agent_response,
};
use crate::scan::{bytes_eq, is_prefix, starts_with};
use vstd::slice::{slice_subrange, slice_to_vec};

verus! {

/// True of the ASCII whitespace bytes (space, tab, line feed, vertical tab,
/// form feed, carriage return), the separators of the request line's tokens.
pub open spec fn is_ws(b: u8) -> bool {
    b == 32 || b == 9 || b == 10 || b == 11 || b == 12 || b == 13
}

/// Decides `is_ws`.
pub fn is_ws_byte(b: u8) -> (r: bool)
    ensures
        r == is_ws(b),
{
    b == 32 || b == 9 || b == 10 || b == 11 || b == 12 || b == 13
}

/// Length of the run of non-whitespace bytes at the head of `s`.
pub open spec fn token_len(s: Seq<u8>) -> int
    decreases s.len(),
{
    if s.len() == 0 || is_ws(s[0]) {
        0
    } else {
        1 + token_len(s.skip(1))
    }
}

pub proof fn lemma_token_len_determined(s: Seq<u8>, k: int)
    requires
        0 <= k <= s.len(),
        forall|j: int| 0 <= j < k ==> !is_ws(s[j]),
        k < s.len() ==> is_ws(s[k]),
    ensures
        token_len(s) == k,
    decreases s.len(),
{
    if s.len() == 0 {
    } else if is_ws(s[0]) {
        assert(k == 0);
    } else {
        assert(k >= 1) by {
            if k == 0 {
                assert(is_ws(s[0]));
            }
        }
        assert forall|j: int| 0 <= j < k - 1 implies !is_ws(s.skip(1)[j]) by {
            assert(s.skip(1)[j] == s[j + 1]);
        }
        if k - 1 < s.len() - 1 {
            assert(s.skip(1)[k - 1] == s[k]);
        }
        lemma_token_len_determined(s.skip(1), k - 1);
    }
}

/// The whitespace-separated tokens of `s`, in order, without empty tokens.
pub open spec fn ws_tokens(s: Seq<u8>) -> Seq<Seq<u8>>
    decreases s.len(),
{
    if s.len() == 0 {
        Seq::empty()
    } else if is_ws(s[0]) {
        ws_tokens(s.skip(1))
    } else {
        let k = token_len(s);
        if 1 <= k <= s.len() {
            seq![s.take(k)] + ws_tokens(s.skip(k))
        } else {
            // never taken: a head token holds at least one byte and at
            // most all of them
            seq![s]
        }
    }
}

/// First index at or after `from` holding an ASCII whitespace byte, or
/// `s.len()` when no such index exists.
fn find_ws_from(s: &[u8], from: usize) -> (r: usize)
    requires
        from <= s.len(),
    ensures
        from <= r <= s.len(),
        forall|j: int| from <= j < r ==> !is_ws(s@[j]),
        r < s.len() ==> is_ws(s@[r as int]),
{
    let mut i: usize = from;
    while i < s.len()
        invariant
            from <= i <= s.len(),
            forall|j: int| from <= j < i ==> !is_ws(s@[j]),
        decreases s.len() - i,
    {
        if is_ws_byte(s[i]) {
            return i;
        }
        i += 1;
    }
    i
}

/// Splits `s` at runs of ASCII whitespace, as `str::split_whitespace` does.
pub fn split_ws(s: &[u8]) -> (r: Vec<Vec<u8>>)
    ensures
        r@.len() == ws_tokens(s@).len(),
        forall|i: int| 0 <= i < r@.len() ==> r@[i]@ == ws_tokens(s@)[i],
{
    let mut r: Vec<Vec<u8>> = Vec::new();
    let ghost mut views: Seq<Seq<u8>> = Seq::empty();
    let mut pos: usize = 0;
    proof {
        assert(s@.skip(0) =~= s@);
        assert(views + ws_tokens(s@) =~= ws_tokens(s@));
    }
    loop
        invariant
            pos <= s.len(),
            views.len() == r@.len(),
            forall|i: int| 0 <= i < r@.len() ==> r@[i]@ == views[i],
            ws_tokens(s@) == views + ws_tokens(s@.skip(pos as int)),
        decreases s.len() - pos,
    {
        let ghost suf = s@.skip(pos as int);
        if pos == s.len() {
            proof {
                assert(suf =~= Seq::<u8>::empty());
                assert(views + ws_tokens(suf) =~= views);
            }
            return r;
        }
        assert(suf[0] == s@[pos as int]);
        if is_ws_byte(s[pos]) {
            proof {
                assert(suf.skip(1) =~= s@.skip(pos + 1));
            }
            pos = pos + 1;
        } else {
            let e = find_ws_from(s, pos);
            assert(e > pos);
            proof {
                let k = e - pos;
                assert forall|j: int| 0 <= j < k implies !is_ws(suf[j]) by {
                    assert(suf[j] == s@[pos + j]);
                }
                if k < suf.len() {
                    assert(suf[k] == s@[e as int]);
                }
                lemma_token_len_determined(suf, k);
                assert(suf.take(k) =~= s@.subrange(pos as int, e as int));
                assert(suf.skip(k) =~= s@.skip(e as int));
            }
            let token = slice_to_vec(slice_subrange(s, pos, e));
            r.push(token);
            proof {
                let k = e - pos;
                views = views + seq![suf.take(k)];
                assert(views + ws_tokens(s@.skip(e as int)) =~= ws_tokens(s@));
            }
            pos = e;
        }
    }
}

/// What the connection's owner must do after one request is parsed and
/// routed.
pub enum Action {
    /// Write these bytes to the client and close.
    Respond(Vec<u8>),
    /// Read the file at `path` and frame the outcome with
    /// `routes::handle_file`.
    ReadFile { path: Vec<u8> },
    /// Create or truncate the file at `path`, write `body` to it, and
    /// acknowledge with the 201 literal; a write failure ends the connection
    /// unanswered.
    WriteFile { path: Vec<u8>, body: Vec<u8> },
    /// Close without writing anything.
    NoResponse,
}

/// Parses the request line and routes one request.
///
/// A GET is routed to the root, echo, user-agent or file endpoints, anything
/// else to the 404 literal; a POST is routed to the file endpoint and to no
/// response at all elsewhere; any other method gets the 404 literal, as does
/// a request line of fewer than three tokens.  An empty request gets no
/// response.
pub fn dispatch_request(dir: &[u8], request: &[u8]) -> (r: Action)
    ensures
        request@.len() == 0 ==> r matches Action::NoResponse,
        ({
            let toks = ws_tokens(spec_line_at(request@));
            &&& (request@.len() > 0 && toks.len() < 3) ==> (r matches Action::Respond(b)
                && b@ == not_found_response_bytes())
            &&& (request@.len() > 0 && toks.len() >= 3) ==> {
                let m = toks[0];
                let p = toks[1];
                if m == method_get_bytes() {
                    if p == root_path_bytes() {
                        r matches Action::Respond(b) && b@ == ok_response_bytes()
                    } else if starts_with(p, echo_prefix_bytes()) {
                        r matches Action::Respond(b) && b@ == spec_build_response(
                            request@,
                            p.skip(6),
                            text_plain_bytes(),
                        )
                    } else if p == user_agent_path_bytes() {
                        r matches Action::Respond(b) && b@ == spec_user_agent_response(request@)
                    } else if starts_with(p, files_prefix_bytes()) {
                        r matches Action::ReadFile { path } && path@ == spec_filename(dir@, p)
                    } else {
                        r matches Action::Respond(b) && b@ == not_found_response_bytes()
                    }
                } else if m == method_post_bytes() {
                    if starts_with(p, files_prefix_bytes()) {
                        r matches Action::WriteFile { path, body } && path@ == spec_filename(
                            dir@,
                            p,
                        ) && body@ == spec_post_body(request@)
                    } else {
                        r matches Action::NoResponse
                    }
                } else {
                    r matches Action::Respond(b) && b@ == not_found_response_bytes()
                }
            }
        }),
{
    if request.len() == 0 {
        return Action::NoResponse;
    }
    let line = line_at(request);
    let toks = split_ws(line);
    if toks.len() < 3 {
        return Action::Respond(not_found_response());
    }
    let method = &toks[0];
    let path = &toks[1];
    if bytes_eq(method.as_slice(), method_get().as_slice()) {
        if bytes_eq(path.as_slice(), root_path().as_slice()) {
            Action::Respond(ok_response())
        } else if is_prefix(path.as_slice(), echo_prefix().as_slice()) {
            Action::Respond(handle_echo(path.as_slice(), request))
        } else if bytes_eq(path.as_slice(), user_agent_path().as_slice()) {
            Action::Respond(handle_user_agent(request))
        } else if is_prefix(path.as_slice(), files_prefix().as_slice()) {
            Action::ReadFile { path: generate_filename(dir, path.as_slice()) }
        } else {
            Action::Respond(not_found_response())
        }
    } else if bytes_eq(method.as_slice(), method_post().as_slice()) {
        if is_prefix(path.as_slice(), files_prefix().as_slice()) {
            Action::WriteFile {
                path: generate_filename(dir, path.as_slice()),
                body: post_body(request),
            }
        } else {
            Action::NoResponse
        }
    } else {
        Action::Respond(not_found_response())
    }
}

} // verus!
