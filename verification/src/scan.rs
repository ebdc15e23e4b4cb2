//! Byte-level search primitives: prefix tests, first/last occurrence of a
//! byte or of a byte pattern, and slice equality, each with an exact
//! mathematical description.
use vstd::prelude::*;

verus! {

/// True when `pre` is a prefix of `s`.
pub open spec fn starts_with(s: Seq<u8>, pre: Seq<u8>) -> bool {
    pre.len() <= s.len() && s.subrange(0, pre.len() as int) == pre
}

/// Decides whether `pre` is a prefix of `s`.
pub fn is_prefix(s: &[u8], pre: &[u8]) -> (r: bool)
    ensures
        r == starts_with(s@, pre@),
{
    if pre.len() > s.len() {
        return false;
    }
    let mut i: usize = 0;
    while i < pre.len()
        invariant
            i <= pre.len() <= s.len(),
            forall|j: int| 0 <= j < i ==> s@[j] == pre@[j],
        decreases pre.len() - i,
    {
        if s[i] != pre[i] {
            assert(s@.subrange(0, pre@.len() as int)[i as int] != pre@[i as int]);
            return false;
        }
        i += 1;
    }
    assert(s@.subrange(0, pre@.len() as int) =~= pre@);
    true
}

/// Decides whether two byte strings are equal.
pub fn bytes_eq(a: &[u8], b: &[u8]) -> (r: bool)
    ensures
        r == (a@ == b@),
{
    if a.len() != b.len() {
        return false;
    }
    let mut i: usize = 0;
    while i < a.len()
        invariant
            i <= a.len() == b.len(),
            forall|j: int| 0 <= j < i ==> a@[j] == b@[j],
        decreases a.len() - i,
    {
        if a[i] != b[i] {
            return false;
        }
        i += 1;
    }
    assert(a@ =~= b@);
    true
}

/// Index of the first occurrence of byte `b` in `s`, or `s.len()` when `b`
/// does not occur.
pub open spec fn find_byte(s: Seq<u8>, b: u8) -> int
    decreases s.len(),
{
    if s.len() == 0 {
        0
    } else if s[0] == b {
        0
    } else {
        1 + find_byte(s.skip(1), b)
    }
}

pub proof fn lemma_find_byte_determined(s: Seq<u8>, b: u8, i: int)
    requires
        0 <= i <= s.len(),
        forall|j: int| 0 <= j < i ==> s[j] != b,
        i < s.len() ==> s[i] == b,
    ensures
        find_byte(s, b) == i,
    decreases s.len(),
{
    if s.len() == 0 {
    } else if s[0] == b {
        assert(i == 0);
    } else {
        assert(i >= 1) by {
            if i == 0 {
                assert(s[0] == b);
            }
        }
        assert forall|j: int| 0 <= j < i - 1 implies s.skip(1)[j] != b by {
            assert(s.skip(1)[j] == s[j + 1]);
        }
        if i - 1 < s.len() - 1 {
            assert(s.skip(1)[i - 1] == s[i]);
        }
        lemma_find_byte_determined(s.skip(1), b, i - 1);
    }
}

/// First index at or after `from` holding byte `b`, or `s.len()` when no such
/// index exists.
pub fn find_byte_from(s: &[u8], from: usize, b: u8) -> (r: usize)
    requires
        from <= s.len(),
    ensures
        from <= r <= s.len(),
        r - from == find_byte(s@.skip(from as int), b),
        r < s.len() ==> s@[r as int] == b,
        forall|j: int| from <= j < r ==> s@[j] != b,
{
    let mut i: usize = from;
    while i < s.len()
        invariant
            from <= i <= s.len(),
            forall|j: int| from <= j < i ==> s@[j] != b,
        decreases s.len() - i,
    {
        if s[i] == b {
            proof {
                let suf = s@.skip(from as int);
                assert forall|j: int| 0 <= j < i - from implies suf[j] != b by {
                    assert(suf[j] == s@[j + from]);
                }
                assert(suf[i - from] == s@[i as int]);
                lemma_find_byte_determined(suf, b, i - from);
            }
            return i;
        }
        i += 1;
    }
    proof {
        let suf = s@.skip(from as int);
        assert forall|j: int| 0 <= j < suf.len() implies suf[j] != b by {
            assert(suf[j] == s@[j + from]);
        }
        lemma_find_byte_determined(suf, b, suf.len() as int);
    }
    s.len()
}

/// True when `pat` occurs in `s` at index `i`.
pub open spec fn occurs_at(s: Seq<u8>, pat: Seq<u8>, i: int) -> bool {
    0 <= i && i + pat.len() <= s.len() && s.subrange(i, i + pat.len()) == pat
}

/// Index of the first occurrence of `pat` in `s`, or `s.len()` when `pat`
/// does not occur.
pub open spec fn find_sub(s: Seq<u8>, pat: Seq<u8>) -> int
    decreases s.len(),
{
    if s.len() < pat.len() {
        s.len() as int
    } else if s.subrange(0, pat.len() as int) == pat {
        0
    } else if s.len() == 0 {
        0
    } else {
        1 + find_sub(s.skip(1), pat)
    }
}

proof fn lemma_occurs_skip(s: Seq<u8>, pat: Seq<u8>, j: int)
    requires
        s.len() > 0,
        1 <= j,
    ensures
        occurs_at(s, pat, j) == occurs_at(s.skip(1), pat, j - 1),
{
    if occurs_at(s, pat, j) {
        assert(s.skip(1).subrange(j - 1, j - 1 + pat.len()) =~= s.subrange(j, j + pat.len()));
    }
    if occurs_at(s.skip(1), pat, j - 1) {
        assert(s.subrange(j, j + pat.len()) =~= s.skip(1).subrange(j - 1, j - 1 + pat.len()));
    }
}

pub proof fn lemma_find_sub_props(s: Seq<u8>, pat: Seq<u8>)
    requires
        pat.len() > 0,
    ensures
        0 <= find_sub(s, pat) <= s.len(),
        find_sub(s, pat) + pat.len() <= s.len() ==> occurs_at(s, pat, find_sub(s, pat)),
        find_sub(s, pat) + pat.len() > s.len() ==> find_sub(s, pat) == s.len(),
        forall|j: int| 0 <= j < find_sub(s, pat) ==> !occurs_at(s, pat, j),
    decreases s.len(),
{
    if s.len() < pat.len() {
    } else if s.subrange(0, pat.len() as int) == pat {
    } else {
        lemma_find_sub_props(s.skip(1), pat);
        let f = find_sub(s, pat);
        assert forall|j: int| 0 <= j < f implies !occurs_at(s, pat, j) by {
            if j == 0 {
                assert(s.subrange(0, pat.len() as int) != pat);
            } else {
                lemma_occurs_skip(s, pat, j);
            }
        }
        if f + pat.len() <= s.len() {
            lemma_occurs_skip(s, pat, f);
        }
    }
}

pub proof fn lemma_find_sub_determined(s: Seq<u8>, pat: Seq<u8>, i: int)
    requires
        pat.len() > 0,
        occurs_at(s, pat, i),
        forall|j: int| 0 <= j < i ==> !occurs_at(s, pat, j),
    ensures
        find_sub(s, pat) == i,
    decreases s.len(),
{
    if s.subrange(0, pat.len() as int) == pat {
        assert(occurs_at(s, pat, 0));
        assert(i == 0);
    } else {
        assert(i >= 1) by {
            if i == 0 {
                assert(s.subrange(0, pat.len() as int) == pat);
            }
        }
        lemma_occurs_skip(s, pat, i);
        assert forall|j: int| 0 <= j < i - 1 implies !occurs_at(s.skip(1), pat, j) by {
            lemma_occurs_skip(s, pat, j + 1);
        }
        lemma_find_sub_determined(s.skip(1), pat, i - 1);
    }
}

pub proof fn lemma_find_sub_absent(s: Seq<u8>, pat: Seq<u8>)
    requires
        pat.len() > 0,
        forall|j: int| !occurs_at(s, pat, j),
    ensures
        find_sub(s, pat) == s.len(),
    decreases s.len(),
{
    if s.len() < pat.len() {
    } else if s.subrange(0, pat.len() as int) == pat {
        assert(occurs_at(s, pat, 0));
    } else {
        assert forall|j: int| !occurs_at(s.skip(1), pat, j) by {
            if 0 <= j {
                lemma_occurs_skip(s, pat, j + 1);
            }
        }
        lemma_find_sub_absent(s.skip(1), pat);
    }
}

/// First index at which `pat` occurs in `s`, or `s.len()` when it does not.
pub fn find_sub_in(s: &[u8], pat: &[u8]) -> (r: usize)
    requires
        pat.len() > 0,
    ensures
        r == find_sub(s@, pat@),
        0 <= r <= s.len(),
        r + pat.len() <= s.len() ==> occurs_at(s@, pat@, r as int),
        r + pat.len() > s.len() ==> r == s.len(),
{
    proof {
        lemma_find_sub_props(s@, pat@);
    }
    if s.len() < pat.len() {
        proof {
            assert forall|j: int| !occurs_at(s@, pat@, j) by {}
            lemma_find_sub_absent(s@, pat@);
        }
        return s.len();
    }
    let mut i: usize = 0;
    while i <= s.len() - pat.len()
        invariant
            pat.len() > 0,
            pat.len() <= s.len(),
            i <= s.len() - pat.len() + 1,
            forall|j: int| 0 <= j < i ==> !occurs_at(s@, pat@, j),
        decreases s.len() - i,
    {
        let window = vstd::slice::slice_subrange(s, i, i + pat.len());
        if bytes_eq(window, pat) {
            proof {
                assert(occurs_at(s@, pat@, i as int));
                lemma_find_sub_determined(s@, pat@, i as int);
            }
            return i;
        }
        assert(!occurs_at(s@, pat@, i as int));
        i += 1;
    }
    proof {
        assert forall|j: int| !occurs_at(s@, pat@, j) by {}
        lemma_find_sub_absent(s@, pat@);
    }
    s.len()
}

/// Index of the last occurrence of `pat` in `s`, or `-1` when `pat` does not
/// occur.
pub open spec fn find_last_sub(s: Seq<u8>, pat: Seq<u8>) -> int
    decreases s.len(),
{
    if pat.len() == 0 || s.len() < pat.len() {
        -1
    } else if s.subrange(s.len() - pat.len(), s.len() as int) == pat {
        s.len() - pat.len()
    } else {
        find_last_sub(s.take(s.len() - 1), pat)
    }
}

proof fn lemma_occurs_take(s: Seq<u8>, pat: Seq<u8>, j: int)
    requires
        s.len() > 0,
        j + pat.len() <= s.len() - 1,
        0 <= j,
    ensures
        occurs_at(s, pat, j) == occurs_at(s.take(s.len() - 1), pat, j),
{
    assert(s.take(s.len() - 1).subrange(j, j + pat.len()) =~= s.subrange(j, j + pat.len()));
}

pub proof fn lemma_find_last_sub_props(s: Seq<u8>, pat: Seq<u8>)
    requires
        pat.len() > 0,
    ensures
        find_last_sub(s, pat) >= -1,
        find_last_sub(s, pat) >= 0 ==> find_last_sub(s, pat) + pat.len() <= s.len(),
        find_last_sub(s, pat) == -1 ==> forall|j: int| !occurs_at(s, pat, j),
        find_last_sub(s, pat) >= 0 ==> occurs_at(s, pat, find_last_sub(s, pat)),
        forall|j: int| j > find_last_sub(s, pat) ==> !occurs_at(s, pat, j),
    decreases s.len(),
{
    if s.len() < pat.len() {
    } else if s.subrange(s.len() - pat.len(), s.len() as int) == pat {
        assert(occurs_at(s, pat, s.len() - pat.len()));
    } else {
        lemma_find_last_sub_props(s.take(s.len() - 1), pat);
        let f = find_last_sub(s, pat);
        if f >= 0 {
            lemma_occurs_take(s, pat, f);
        }
        assert forall|j: int| j > f implies !occurs_at(s, pat, j) by {
            if 0 <= j && j + pat.len() <= s.len() - 1 {
                lemma_occurs_take(s, pat, j);
            } else if 0 <= j && j + pat.len() <= s.len() {
                assert(j == s.len() - pat.len());
            }
        }
        if f == -1 {
            assert forall|j: int| !occurs_at(s, pat, j) by {
                if 0 <= j && j + pat.len() <= s.len() - 1 {
                    lemma_occurs_take(s, pat, j);
                } else if 0 <= j && j + pat.len() <= s.len() {
                    assert(j == s.len() - pat.len());
                }
            }
        }
    }
}

pub proof fn lemma_find_last_sub_determined(s: Seq<u8>, pat: Seq<u8>, i: int)
    requires
        pat.len() > 0,
        occurs_at(s, pat, i),
        forall|j: int| j > i ==> !occurs_at(s, pat, j),
    ensures
        find_last_sub(s, pat) == i,
{
    lemma_find_last_sub_props(s, pat);
    let f = find_last_sub(s, pat);
    if f > i {
        assert(!occurs_at(s, pat, f));
    }
    if f < i {
        assert(!occurs_at(s, pat, i));
    }
}

/// Index of the last occurrence of `pat` in `s`, or `None` when it does not
/// occur.
pub fn rfind_sub_in(s: &[u8], pat: &[u8]) -> (r: Option<usize>)
    requires
        pat.len() > 0,
    ensures
        match r {
            Some(i) => i == find_last_sub(s@, pat@) && occurs_at(s@, pat@, i as int),
            None => find_last_sub(s@, pat@) == -1,
        },
{
    if s.len() < pat.len() {
        proof {
            lemma_find_last_sub_props(s@, pat@);
            if find_last_sub(s@, pat@) >= 0 {
                assert(occurs_at(s@, pat@, find_last_sub(s@, pat@)));
            }
        }
        return None;
    }
    let mut p: usize = s.len() - pat.len() + 1;
    while p > 0
        invariant
            pat.len() > 0,
            pat.len() <= s.len(),
            p <= s.len() - pat.len() + 1,
            forall|j: int| j >= p ==> !occurs_at(s@, pat@, j),
        decreases p,
    {
        p = p - 1;
        let window = vstd::slice::slice_subrange(s, p, p + pat.len());
        if bytes_eq(window, pat) {
            proof {
                assert(occurs_at(s@, pat@, p as int));
                lemma_find_last_sub_determined(s@, pat@, p as int);
            }
            return Some(p);
        }
        assert(!occurs_at(s@, pat@, p as int));
    }
    proof {
        lemma_find_last_sub_props(s@, pat@);
        if find_last_sub(s@, pat@) >= 0 {
            assert(!occurs_at(s@, pat@, find_last_sub(s@, pat@)));
        }
    }
    None
}

/// Appends every byte of `s` to `out`.
pub fn append_slice(out: &mut Vec<u8>, s: &[u8])
    ensures
        final(out)@ == old(out)@ + s@,
{
    let mut i: usize = 0;
    while i < s.len()
        invariant
            i <= s.len(),
            out@ == old(out)@ + s@.subrange(0, i as int),
        decreases s.len() - i,
    {
        out.push(s[i]);
        assert(old(out)@ + s@.subrange(0, i + 1) =~= (old(out)@ + s@.subrange(0, i as int)).push(
            s@[i as int],
        ));
        i += 1;
    }
    assert(s@.subrange(0, s@.len() as int) =~= s@);
}

} // verus!
