//! The library's stated laws: general properties of header extraction,
//! content negotiation and response framing, each proved once and for all
//! inputs the statement admits.
use vstd::prelude::*;

use crate::encoding::{accepts_gzip, gzip_of, split_seq};
use crate::headers::{
    header_line_value, spec_get_header, spec_line_at, spec_rest_after_line, spec_strip_cr,
};
use crate::lit::{
    accept_encoding_name_bytes, comma_space_bytes, crlf_bytes, gzip_token_bytes,
    not_found_response_bytes, octet_stream_bytes, status_ok_bytes, text_plain_bytes,
    user_agent_name_bytes,
};
use crate::response::{spec_build_response, spec_gzip_head, spec_plain_head};
use crate::routes::{spec_file_response, spec_user_agent_response};
use crate::scan::{find_byte, lemma_find_byte_determined, starts_with};

verus! {

/// A response is framed with the gzip header and a compressed body exactly
/// when a `gzip` token stands anywhere in the comma-separated
/// `Accept-Encoding` list; any other list — `identity`, `br`, or none at
/// all — leaves the body as it is and adds no encoding header.
pub proof fn lemma_compression_negotiation(req: Seq<u8>, content: Seq<u8>, ctype: Seq<u8>)
    ensures
        accepts_gzip(req) == split_seq(
            spec_get_header(req, accept_encoding_name_bytes(), Seq::empty()),
            comma_space_bytes(),
        ).contains(gzip_token_bytes()),
        accepts_gzip(req) ==> spec_build_response(req, content, ctype) == spec_gzip_head(
            ctype,
            gzip_of(content).len(),
        ) + gzip_of(content),
        !accepts_gzip(req) ==> spec_build_response(req, content, ctype) == spec_plain_head(
            ctype,
            content.len(),
        ) + content,
{
}

/// Without gzip negotiated, the response for text `t` is the plain 200 head
/// — the given content type and a content length of `t.len()` — followed by
/// exactly `t`.
pub proof fn lemma_plain_response_body(req: Seq<u8>, t: Seq<u8>, ctype: Seq<u8>)
    requires
        !accepts_gzip(req),
    ensures
        ({
            let r = spec_build_response(req, t, ctype);
            &&& r == spec_plain_head(ctype, t.len()) + t
            &&& starts_with(r, status_ok_bytes())
            &&& r.skip(r.len() - t.len()) == t
        }),
{
    let head = spec_plain_head(ctype, t.len());
    let r = spec_build_response(req, t, ctype);
    assert(r.subrange(0, status_ok_bytes().len() as int) =~= status_ok_bytes());
    assert(r.skip(r.len() - t.len()) =~= t);
}

/// With gzip negotiated, the response's body is exactly the gzip stream of
/// `t`, and the content length counts the compressed bytes.  That the
/// stream decompresses back to `t` is the encoder's inverse, exercised by
/// the tests against the real encoder and decoder.
pub proof fn lemma_gzip_response_body(req: Seq<u8>, t: Seq<u8>, ctype: Seq<u8>)
    requires
        accepts_gzip(req),
    ensures
        ({
            let r = spec_build_response(req, t, ctype);
            &&& r == spec_gzip_head(ctype, gzip_of(t).len()) + gzip_of(t)
            &&& starts_with(r, status_ok_bytes())
            &&& r.skip(r.len() - gzip_of(t).len()) == gzip_of(t)
        }),
{
    let r = spec_build_response(req, t, ctype);
    assert(r.subrange(0, status_ok_bytes().len() as int) =~= status_ok_bytes());
    assert(r.skip(r.len() - gzip_of(t).len()) =~= gzip_of(t));
}

/// A missing `User-Agent` header yields the 404 literal; a present one is
/// reflected as the body of a plain 200 response.
pub proof fn lemma_user_agent_reflection(req: Seq<u8>)
    ensures
        ({
            let ua = spec_get_header(req, user_agent_name_bytes(), Seq::empty());
            &&& ua.len() == 0 ==> spec_user_agent_response(req) == not_found_response_bytes()
            &&& (ua.len() > 0 && !accepts_gzip(req)) ==> spec_user_agent_response(req)
                == spec_plain_head(text_plain_bytes(), ua.len()) + ua
        }),
{
}

/// A file the reader supplied is served back byte for byte: for a reader
/// without gzip, the 200 response ends in exactly the stored body and
/// counts it in its content length.  A file the reader could not supply
/// yields the 404 literal.
pub proof fn lemma_file_service(req: Seq<u8>, body: Seq<u8>)
    requires
        !accepts_gzip(req),
    ensures
        ({
            let r = spec_file_response(req, Some(body));
            &&& r == spec_plain_head(octet_stream_bytes(), body.len()) + body
            &&& starts_with(r, status_ok_bytes())
            &&& r.skip(r.len() - body.len()) == body
        }),
        spec_file_response(req, None) == not_found_response_bytes(),
{
    let r = spec_file_response(req, Some(body));
    assert(r.subrange(0, status_ok_bytes().len() as int) =~= status_ok_bytes());
    assert(r.skip(r.len() - body.len()) =~= body);
}

/// One step of the header scan: a nonempty leading CRLF-terminated line
/// contributes its value and the scan continues behind it.
pub proof fn lemma_header_scan_step(line: Seq<u8>, rest: Seq<u8>, pat: Seq<u8>, acc: Seq<u8>)
    requires
        !line.contains(10u8),
        !line.contains(13u8),
        line.len() > 0,
    ensures
        spec_get_header(line + crlf_bytes() + rest, pat, acc) == spec_get_header(
            rest,
            pat,
            header_line_value(line, pat, acc),
        ),
{
    let s = line + crlf_bytes() + rest;
    assert forall|j: int| 0 <= j < line.len() + 1 implies s[j] != 10u8 by {
        if j < line.len() {
            assert(s[j] == line[j]);
            if line[j] == 10u8 {
                assert(line.contains(10u8));
            }
        } else {
            assert(s[j] == 13u8);
        }
    }
    assert(s[line.len() as int + 1] == 10u8);
    lemma_find_byte_determined(s, 10u8, line.len() as int + 1);
    assert(s.take(line.len() as int + 1) =~= line + seq![13u8]);
    assert(spec_strip_cr(line + seq![13u8]) =~= line);
    assert(spec_line_at(s) == line);
    assert(spec_rest_after_line(s) =~= rest);
}

/// Of two header lines that both match the wanted name, the *last* one's
/// value is the one the scan returns: the scan does not stop at the first
/// match.
pub proof fn lemma_last_header_wins(pat: Seq<u8>, v1: Seq<u8>, v2: Seq<u8>, tail: Seq<u8>)
    requires
        pat.len() > 0,
        !pat.contains(10u8),
        !pat.contains(13u8),
        !pat.contains(32u8),
        !v1.contains(10u8),
        !v1.contains(13u8),
        !v2.contains(10u8),
        !v2.contains(13u8),
    ensures
        ({
            let req = pat + seq![32u8] + v1 + crlf_bytes() + pat + seq![32u8] + v2 + crlf_bytes()
                + crlf_bytes() + tail;
            spec_get_header(req, pat, Seq::empty()) == v2
        }),
{
    let req = pat + seq![32u8] + v1 + crlf_bytes() + pat + seq![32u8] + v2 + crlf_bytes()
        + crlf_bytes() + tail;
    let line1 = pat + seq![32u8] + v1;
    let line2 = pat + seq![32u8] + v2;
    let rest2 = crlf_bytes() + tail;
    assert(req =~= line1 + crlf_bytes() + (line2 + crlf_bytes() + rest2));

    assert forall|i: int| 0 <= i < line1.len() implies line1[i] != 10u8 && line1[i] != 13u8 by {
        if i < pat.len() {
            assert(line1[i] == pat[i]);
            if pat[i] == 10u8 {
                assert(pat.contains(10u8));
            }
            if pat[i] == 13u8 {
                assert(pat.contains(13u8));
            }
        } else if i == pat.len() {
            assert(line1[i] == 32u8);
        } else {
            assert(line1[i] == v1[i - pat.len() - 1]);
            if v1[i - pat.len() - 1] == 10u8 {
                assert(v1.contains(10u8));
            }
            if v1[i - pat.len() - 1] == 13u8 {
                assert(v1.contains(13u8));
            }
        }
    }
    assert(!line1.contains(10u8));
    assert(!line1.contains(13u8));
    assert forall|i: int| 0 <= i < line2.len() implies line2[i] != 10u8 && line2[i] != 13u8 by {
        if i < pat.len() {
            assert(line2[i] == pat[i]);
            if pat[i] == 10u8 {
                assert(pat.contains(10u8));
            }
            if pat[i] == 13u8 {
                assert(pat.contains(13u8));
            }
        } else if i == pat.len() {
            assert(line2[i] == 32u8);
        } else {
            assert(line2[i] == v2[i - pat.len() - 1]);
            if v2[i - pat.len() - 1] == 10u8 {
                assert(v2.contains(10u8));
            }
            if v2[i - pat.len() - 1] == 13u8 {
                assert(v2.contains(13u8));
            }
        }
    }
    assert(!line2.contains(10u8));
    assert(!line2.contains(13u8));

    lemma_header_scan_step(line1, line2 + crlf_bytes() + rest2, pat, Seq::empty());
    lemma_line_value_is_suffix(pat, v1, Seq::empty());
    lemma_header_scan_step(line2, rest2, pat, v1);
    lemma_line_value_is_suffix(pat, v2, v1);

    // the scan now faces the blank line and stops with v2
    assert forall|j: int| 0 <= j < 1 implies rest2[j] != 10u8 by {
        assert(rest2[0] == 13u8);
    }
    assert(rest2[1] == 10u8);
    lemma_find_byte_determined(rest2, 10u8, 1);
    assert(spec_line_at(rest2) =~= Seq::<u8>::empty());
    assert(spec_get_header(rest2, pat, v2) == v2);
}

/// A line formed of the wanted name, one space and a value contributes
/// exactly that value to the scan.
proof fn lemma_line_value_is_suffix(pat: Seq<u8>, v: Seq<u8>, acc: Seq<u8>)
    requires
        pat.len() > 0,
        !pat.contains(32u8),
    ensures
        header_line_value(pat + seq![32u8] + v, pat, acc) == v,
{
    let line = pat + seq![32u8] + v;
    assert(line.subrange(0, pat.len() as int) =~= pat);
    assert forall|j: int| 0 <= j < pat.len() implies line[j] != 32u8 by {
        assert(line[j] == pat[j]);
        if pat[j] == 32u8 {
            assert(pat.contains(32u8));
        }
    }
    assert(line[pat.len() as int] == 32u8);
    lemma_find_byte_determined(line, 32u8, pat.len() as int);
    assert(find_byte(line, 32u8) == pat.len());
    assert(line.skip(pat.len() as int + 1) =~= v);
}

} // verus!
