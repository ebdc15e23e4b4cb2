//! Header extraction from the raw request text.
//!
//! A request is scanned line by line up to the first empty line (the
//! header/body boundary).  Every line that starts with the wanted header
//! name contributes the text after the line's first space, and the *last*
//! matching line wins.  Two deliberate robustness choices, both weaker than
//! aborting the connection: reaching the end of the input counts as the
//! boundary, and a matching line without a space is ignored.
use vstd::prelude::*;

use crate::scan::{find_byte, find_byte_from, is_prefix, starts_with};
use vstd::slice::{slice_subrange, slice_to_vec};

verus! {

/// `line` with a single trailing carriage return dropped.
pub open spec fn spec_strip_cr(line: Seq<u8>) -> Seq<u8> {
    if line.len() > 0 && line[line.len() - 1] == 13u8 {
        line.take(line.len() - 1)
    } else {
        line
    }
}

/// The first line of `s`, as `str::lines` yields it: everything up to the
/// first line feed, with a carriage return immediately before that line feed
/// dropped.  Without a line feed the whole of `s` is the line.
pub open spec fn spec_line_at(s: Seq<u8>) -> Seq<u8> {
    let nl = find_byte(s, 10u8);
    if 0 <= nl < s.len() {
        spec_strip_cr(s.take(nl))
    } else {
        s
    }
}

/// What remains of `s` after its first line and that line's line feed.
pub open spec fn spec_rest_after_line(s: Seq<u8>) -> Seq<u8> {
    let nl = find_byte(s, 10u8);
    if 0 <= nl < s.len() {
        s.skip(nl + 1)
    } else {
        Seq::empty()
    }
}

/// The value one header line contributes to the scan: when the line starts
/// with `pat` and holds a space, everything after the line's first space;
/// otherwise the running value `acc` is kept.
pub open spec fn header_line_value(line: Seq<u8>, pat: Seq<u8>, acc: Seq<u8>) -> Seq<u8> {
    let sp = find_byte(line, 32u8);
    if starts_with(line, pat) && 0 <= sp < line.len() {
        line.skip(sp + 1)
    } else {
        acc
    }
}

/// The header scan: walks the lines of `s` up to the first empty line or the
/// end of the input, keeping the value of the last line that matches `pat`.
pub open spec fn spec_get_header(s: Seq<u8>, pat: Seq<u8>, acc: Seq<u8>) -> Seq<u8>
    decreases s.len(),
{
    if s.len() == 0 {
        acc
    } else {
        let line = spec_line_at(s);
        if line.len() == 0 {
            acc
        } else {
            spec_get_header(spec_rest_after_line(s), pat, header_line_value(line, pat, acc))
        }
    }
}

/// The first line of `s`, per `spec_line_at`.
pub fn line_at<'a>(s: &'a [u8]) -> (r: &'a [u8])
    ensures
        r@ == spec_line_at(s@),
{
    proof {
        assert(s@.skip(0) =~= s@);
    }
    let nl = find_byte_from(s, 0, 10u8);
    if nl < s.len() {
        let mut e = nl;
        if e > 0 && s[e - 1] == 13u8 {
            e = e - 1;
        }
        let r = slice_subrange(s, 0, e);
        proof {
            assert(s@.take(nl as int) =~= s@.subrange(0, nl as int));
            if nl > 0 && s@[nl - 1] == 13u8 {
                assert(s@.take(nl as int).take(nl - 1) =~= s@.subrange(0, nl - 1));
            }
        }
        r
    } else {
        let r = slice_subrange(s, 0, s.len());
        proof {
            assert(s@.subrange(0, s@.len() as int) =~= s@);
        }
        r
    }
}

/// The value of the last header line that starts with `pattern`, or the
/// empty byte string when no line up to the header/body boundary matches.
pub fn get_header(request: &[u8], pattern: &[u8]) -> (r: Vec<u8>)
    ensures
        r@ == spec_get_header(request@, pattern@, Seq::<u8>::empty()),
{
    let mut pos: usize = 0;
    let mut value: Vec<u8> = Vec::new();
    proof {
        assert(request@.skip(0) =~= request@);
    }
    loop
        invariant
            pos <= request.len(),
            spec_get_header(request@.skip(pos as int), pattern@, value@) == spec_get_header(
                request@,
                pattern@,
                Seq::<u8>::empty(),
            ),
        decreases request.len() - pos,
    {
        let ghost suf = request@.skip(pos as int);
        if pos == request.len() {
            assert(suf =~= Seq::<u8>::empty());
            return value;
        }
        let nl = find_byte_from(request, pos, 10u8);
        let line: &[u8];
        let new_pos: usize;
        if nl < request.len() {
            let mut e = nl;
            if e > pos && request[e - 1] == 13u8 {
                e = e - 1;
            }
            line = slice_subrange(request, pos, e);
            new_pos = nl + 1;
            proof {
                let nl_rel = nl - pos;
                assert(suf.take(nl_rel) =~= request@.subrange(pos as int, nl as int));
                if nl > pos && request@[nl - 1] == 13u8 {
                    assert(suf.take(nl_rel)[nl_rel - 1] == request@[nl - 1]);
                    assert(suf.take(nl_rel).take(nl_rel - 1) =~= request@.subrange(
                        pos as int,
                        nl - 1,
                    ));
                } else if nl > pos {
                    assert(suf.take(nl_rel)[nl_rel - 1] == request@[nl - 1]);
                }
                assert(line@ == spec_line_at(suf));
                assert(suf.skip(nl_rel + 1) =~= request@.skip(new_pos as int));
                assert(spec_rest_after_line(suf) == request@.skip(new_pos as int));
            }
        } else {
            line = slice_subrange(request, pos, request.len());
            new_pos = request.len();
            proof {
                assert(request@.subrange(pos as int, request@.len() as int) =~= suf);
                assert(line@ == spec_line_at(suf));
                assert(spec_rest_after_line(suf) =~= request@.skip(new_pos as int));
            }
        }
        if line.len() == 0 {
            return value;
        }
        let ghost value_before = value@;
        if is_prefix(line, pattern) {
            proof {
                assert(line@.skip(0) =~= line@);
            }
            let sp = find_byte_from(line, 0, 32u8);
            if sp < line.len() {
                value = slice_to_vec(slice_subrange(line, sp + 1, line.len()));
                proof {
                    assert(line@.subrange(sp + 1, line@.len() as int) =~= line@.skip(sp + 1));
                }
            }
        }
        assert(value@ == header_line_value(line@, pattern@, value_before));
        assert(spec_get_header(suf, pattern@, value_before) == spec_get_header(
            request@.skip(new_pos as int),
            pattern@,
            value@,
        ));
        pos = new_pos;
    }
}

} // verus!
