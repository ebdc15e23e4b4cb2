//! Response framing: the 200 status line, `Content-Type`, the negotiated
//! `Content-Encoding`, a `Content-Length` computed from the final body, the
//! blank line, and the body itself.  Only 200 responses are framed here; 404
//! and 201 are fixed literals emitted by the callers.
use vstd::prelude::*;

use crate::encoding::{accepts_gzip, compress_body, get_compression, gzip_of};
use crate::lit::{
    content_encoding_gzip_bytes, content_length_prefix, content_length_prefix_bytes,
    content_type_prefix, content_type_prefix_bytes, crlf, crlf_bytes, status_ok, status_ok_bytes,
};
use crate::scan::append_slice;

verus! {

/// The decimal digits of `n`, most significant first, as ASCII bytes.
pub open spec fn dec_of(n: nat) -> Seq<u8>
    decreases n,
{
    if n < 10 {
        seq![(48 + n) as u8]
    } else {
        dec_of(n / 10) + seq![(48 + n % 10) as u8]
    }
}

/// Appends the decimal rendering of `n` to `out`.
pub fn push_dec(n: usize, out: &mut Vec<u8>)
    ensures
        final(out)@ == old(out)@ + dec_of(n as nat),
    decreases n,
{
    if n < 10 {
        out.push(48 + n as u8);
        assert(old(out)@ + dec_of(n as nat) =~= old(out)@.push((48 + n) as u8));
    } else {
        assert(n / 10 < n) by (nonlinear_arith)
            requires
                n >= 10,
        ;
        let ghost mid = old(out)@ + dec_of((n / 10) as nat);
        push_dec(n / 10, out);
        out.push(48 + (n % 10) as u8);
        assert(old(out)@ + dec_of(n as nat) =~= mid.push((48 + (n as nat) % 10) as u8));
    }
}

/// The head of a 200 response without compression: status line, content
/// type, content length `n`, blank line.
pub open spec fn spec_plain_head(ctype: Seq<u8>, n: nat) -> Seq<u8> {
    status_ok_bytes() + crlf_bytes() + content_type_prefix_bytes() + ctype + crlf_bytes()
        + content_length_prefix_bytes() + dec_of(n) + crlf_bytes() + crlf_bytes()
}

/// The head of a 200 response whose gzip body has `n` bytes: status line,
/// content type, `Content-Encoding: gzip`, content length, blank line.
pub open spec fn spec_gzip_head(ctype: Seq<u8>, n: nat) -> Seq<u8> {
    status_ok_bytes() + crlf_bytes() + content_type_prefix_bytes() + ctype + crlf_bytes()
        + content_encoding_gzip_bytes() + crlf_bytes() + content_length_prefix_bytes() + dec_of(n)
        + crlf_bytes() + crlf_bytes()
}

/// The complete 200 response for `content` with type `ctype`: the body is
/// gzip-compressed exactly when `req` accepts gzip, and the content length
/// counts the final (possibly compressed) body bytes.
pub open spec fn spec_build_response(req: Seq<u8>, content: Seq<u8>, ctype: Seq<u8>) -> Seq<u8> {
    if accepts_gzip(req) {
        spec_gzip_head(ctype, gzip_of(content).len()) + gzip_of(content)
    } else {
        spec_plain_head(ctype, content.len()) + content
    }
}

/// Assembles the complete 200 response for `content`, negotiating gzip from
/// the request's `Accept-Encoding` header.
pub fn build_content_response(request: &[u8], content: &[u8], content_type: &[u8]) -> (r: Vec<u8>)
    ensures
        r@ == spec_build_response(request@, content@, content_type@),
{
    let mut compression = get_compression(request);
    let mut resp = status_ok();
    let mut piece = crlf();
    resp.append(&mut piece);
    let mut piece = content_type_prefix();
    resp.append(&mut piece);
    append_slice(&mut resp, content_type);
    if compression.len() > 0 {
        assert(accepts_gzip(request@));
        let body = compress_body(content);
        let mut piece = crlf();
        resp.append(&mut piece);
        resp.append(&mut compression);
        let mut piece = crlf();
        resp.append(&mut piece);
        let mut piece = content_length_prefix();
        resp.append(&mut piece);
        push_dec(body.len(), &mut resp);
        let mut piece = crlf();
        resp.append(&mut piece);
        let mut piece = crlf();
        resp.append(&mut piece);
        append_slice(&mut resp, body.as_slice());
        proof {
            assert(resp@ =~= spec_gzip_head(content_type@, gzip_of(content@).len()) + gzip_of(
                content@,
            ));
        }
        resp
    } else {
        assert(!accepts_gzip(request@));
        let mut piece = crlf();
        resp.append(&mut piece);
        let mut piece = content_length_prefix();
        resp.append(&mut piece);
        push_dec(content.len(), &mut resp);
        let mut piece = crlf();
        resp.append(&mut piece);
        let mut piece = crlf();
        resp.append(&mut piece);
        append_slice(&mut resp, content);
        proof {
            assert(resp@ =~= spec_plain_head(content_type@, content@.len()) + content@);
        }
        resp
    }
}

} // verus!
