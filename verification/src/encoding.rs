//! Content negotiation and the gzip body encoder.
//!
//! The client's `Accept-Encoding` value is split at the literal `", "` and
//! compression is chosen exactly when one token equals `gzip` — no
//! wildcards, no quality values, no other encodings.
use vstd::prelude::*;

use crate::headers::{get_header, spec_get_header};
use crate::lit::{
    accept_encoding_name, accept_encoding_name_bytes, comma_space, comma_space_bytes,
    content_encoding_gzip, content_encoding_gzip_bytes, gzip_token, gzip_token_bytes,
};
use crate::scan::{find_sub, find_sub_in};
use crate::scan::bytes_eq;
use std::io::Write;
use vstd::slice::slice_subrange;

verus! {

/// The tokens of `s` split at every occurrence of `sep`, leftmost first and
/// non-overlapping.  The token list is never empty; splitting the empty
/// string yields one empty token.
pub open spec fn split_seq(s: Seq<u8>, sep: Seq<u8>) -> Seq<Seq<u8>>
    decreases s.len(),
{
    let i = find_sub(s, sep);
    if sep.len() > 0 && 0 <= i && i + sep.len() <= s.len() {
        seq![s.take(i)] + split_seq(s.skip(i + sep.len()), sep)
    } else {
        seq![s]
    }
}

/// True when the request's `Accept-Encoding` value, split at `", "`, has a
/// token equal to `gzip`.
pub open spec fn accepts_gzip(req: Seq<u8>) -> bool {
    split_seq(
        spec_get_header(req, accept_encoding_name_bytes(), Seq::empty()),
        comma_space_bytes(),
    ).contains(gzip_token_bytes())
}

proof fn lemma_contains_cons(h: Seq<u8>, rest: Seq<Seq<u8>>, x: Seq<u8>)
    ensures
        (seq![h] + rest).contains(x) == (h == x || rest.contains(x)),
{
    let c = seq![h] + rest;
    if h == x {
        assert(c[0] == x);
    }
    if rest.contains(x) {
        let i = choose|i: int| 0 <= i < rest.len() && rest[i] == x;
        assert(c[i + 1] == x);
    }
    if c.contains(x) {
        let i = choose|i: int| 0 <= i < c.len() && c[i] == x;
        if i > 0 {
            assert(rest[i - 1] == x);
        }
    }
}

/// True when `tok` is one of the `sep`-separated tokens of `s`.
pub fn contains_token(s: &[u8], tok: &[u8], sep: &[u8]) -> (r: bool)
    requires
        sep.len() > 0,
    ensures
        r == split_seq(s@, sep@).contains(tok@),
{
    let mut pos: usize = 0;
    proof {
        assert(s@.skip(0) =~= s@);
    }
    loop
        invariant
            sep.len() > 0,
            pos <= s.len(),
            split_seq(s@, sep@).contains(tok@) == split_seq(s@.skip(pos as int), sep@).contains(
                tok@,
            ),
        decreases s.len() - pos,
    {
        let suf = slice_subrange(s, pos, s.len());
        proof {
            assert(suf@ =~= s@.skip(pos as int));
        }
        let ghost sufv = suf@;
        let i = find_sub_in(suf, sep);
        if sep.len() <= suf.len() && i <= suf.len() - sep.len() {
            let token = slice_subrange(suf, 0, i);
            proof {
                assert(token@ =~= sufv.take(i as int));
                lemma_contains_cons(
                    sufv.take(i as int),
                    split_seq(sufv.skip(i + sep@.len()), sep@),
                    tok@,
                );
            }
            if bytes_eq(token, tok) {
                return true;
            }
            let step = i + sep.len();
            proof {
                assert(sufv.skip(step as int) =~= s@.skip(pos + step));
            }
            pos = pos + step;
        } else {
            proof {
                assert(split_seq(sufv, sep@) =~= seq![sufv]);
                lemma_contains_cons(sufv, Seq::<Seq<u8>>::empty(), tok@);
                assert(seq![sufv] =~= seq![sufv] + Seq::<Seq<u8>>::empty());
            }
            let r = bytes_eq(suf, tok);
            return r;
        }
    }
}

/// The `Content-Encoding: gzip` header fragment when the request accepts
/// gzip, the empty byte string otherwise.
pub fn get_compression(request: &[u8]) -> (r: Vec<u8>)
    ensures
        accepts_gzip(request@) ==> r@ == content_encoding_gzip_bytes(),
        !accepts_gzip(request@) ==> r@ == Seq::<u8>::empty(),
{
    let value = get_header(request, accept_encoding_name().as_slice());
    let tok = gzip_token();
    let sep = comma_space();
    if contains_token(value.as_slice(), tok.as_slice(), sep.as_slice()) {
        content_encoding_gzip()
    } else {
        Vec::new()
    }
}

/// The gzip stream that flate2's encoder produces from `data` at the default
/// compression level.
pub uninterp spec fn gzip_of(data: Seq<u8>) -> Seq<u8>;

/// Relies on flate2's `write::GzEncoder` (`new` at the default level,
/// `write_all`, `finish`).  With a `Vec<u8>` sink no write can fail, so the
/// two unwraps never abort; flate2 fixes the header's timestamp to zero and
/// its operating-system byte to 255, and the pinned pure-Rust backend makes
/// the stream a function of the input bytes and the compression level alone.
#[verifier::external_body]
pub(crate) fn compress_body(input: &[u8]) -> (r: Vec<u8>)
    ensures
        r@ == gzip_of(input@),
{
    let mut encoder = flate2::write::GzEncoder::new(Vec::new(), flate2::Compression::default());
    encoder.write_all(input).unwrap();
    encoder.finish().unwrap()
}

} // verus!
