//! Normalization of a resolved file name into a filesystem-safe slug.
//!
//! Lower-case letters, digits and the dot are kept; upper-case letters are
//! lowered; blanks, underscores, dashes and non-ASCII bytes become the
//! separator; all other ASCII bytes are dropped.  Runs of separators then
//! collapse to a single separator, and leading and trailing separators are
//! trimmed.

use vstd::prelude::*;

verus! {

/// What one input byte contributes to the normalized text: itself, its
/// lower-case form, one separator, or nothing.
pub open spec fn slug_class(b: u8, sep: u8) -> Seq<u8> {
    if (('a' as u8) <= b && b <= ('z' as u8)) || (('0' as u8) <= b && b <= ('9' as u8)) || b == (
    '.' as u8) {
        seq![b]
    } else if ('A' as u8) <= b && b <= ('Z' as u8) {
        seq![(b + 32) as u8]
    } else if b == (' ' as u8) || b == ('_' as u8) || b == ('-' as u8) || b >= 128 {
        seq![sep]
    } else {
        seq![]
    }
}

/// The input with every byte normalized and the dropped bytes removed;
/// separator runs are not collapsed yet.
pub open spec fn slug_norm(s: Seq<u8>, sep: u8) -> Seq<u8>
    decreases s.len(),
{
    if s.len() == 0 {
        seq![]
    } else {
        slug_norm(s.drop_last(), sep) + slug_class(s.last(), sep)
    }
}

/// First position at or after `i` that does not hold the separator.
pub open spec fn sep_run_end(t: Seq<u8>, sep: u8, i: int) -> int
    decreases t.len() - i,
        when 0 <= i <= t.len()
{
    if i >= t.len() {
        i
    } else if t[i] != sep {
        i
    } else {
        sep_run_end(t, sep, i + 1)
    }
}

/// First position at or after `i` that holds the separator (or the end).
pub open spec fn seg_end(t: Seq<u8>, sep: u8, i: int) -> int
    decreases t.len() - i,
        when 0 <= i <= t.len()
{
    if i >= t.len() {
        i
    } else if t[i] == sep {
        i
    } else {
        seg_end(t, sep, i + 1)
    }
}

proof fn lemma_sep_run_end(t: Seq<u8>, sep: u8, i: int)
    requires
        0 <= i <= t.len(),
    ensures
        i <= sep_run_end(t, sep, i) <= t.len(),
        sep_run_end(t, sep, i) < t.len() ==> t[sep_run_end(t, sep, i)] != sep,
    decreases t.len() - i,
{
    if i < t.len() && t[i] == sep {
        lemma_sep_run_end(t, sep, i + 1);
    }
}

proof fn lemma_seg_end(t: Seq<u8>, sep: u8, i: int)
    requires
        0 <= i <= t.len(),
    ensures
        i <= seg_end(t, sep, i) <= t.len(),
        forall|k: int| i <= k < seg_end(t, sep, i) ==> t[k] != sep,
        seg_end(t, sep, i) < t.len() ==> t[seg_end(t, sep, i)] == sep,
        i < t.len() && t[i] != sep ==> seg_end(t, sep, i) > i,
    decreases t.len() - i,
{
    if i < t.len() && t[i] != sep {
        lemma_seg_end(t, sep, i + 1);
    }
}

proof fn lemma_seg_end_eq(t: Seq<u8>, sep: u8, start: int, e: int)
    requires
        0 <= start <= e <= t.len(),
        forall|k: int| start <= k < e ==> t[k] != sep,
        e < t.len() ==> t[e] == sep,
    ensures
        seg_end(t, sep, start) == e,
    decreases e - start,
{
    if start < e {
        lemma_seg_end_eq(t, sep, start + 1, e);
    }
}

/// The normalized text from position `i` on, with separator runs
/// collapsed, leading and trailing separators trimmed, and the remaining
/// segments joined by one separator each.
pub open spec fn collapse_from(t: Seq<u8>, sep: u8, i: int) -> Seq<u8>
    decreases t.len() - i,
        when 0 <= i <= t.len()
        via collapse_from_decreases
{
    let j = sep_run_end(t, sep, i);
    if j >= t.len() {
        seq![]
    } else {
        let k = seg_end(t, sep, j);
        let rest = collapse_from(t, sep, k);
        if rest.len() == 0 {
            t.subrange(j, k)
        } else {
            t.subrange(j, k) + seq![sep] + rest
        }
    }
}

#[via_fn]
proof fn collapse_from_decreases(t: Seq<u8>, sep: u8, i: int) {
    lemma_sep_run_end(t, sep, i);
    let j = sep_run_end(t, sep, i);
    if j < t.len() {
        lemma_seg_end(t, sep, j);
    }
}

/// The slug of a byte string: normalization, then collapse and trim.
pub open spec fn spec_slugify(s: Seq<u8>, sep: u8) -> Seq<u8> {
    collapse_from(slug_norm(s, sep), sep, 0)
}

/// Normalize a resolved file name into a filesystem-safe slug.
pub fn slugify(input: &[u8], sep: u8) -> (r: Vec<u8>)
    ensures
        r@ == spec_slugify(input@, sep),
{
    // First pass: normalize byte by byte.
    let n = input.len();
    let mut t: Vec<u8> = Vec::new();
    let mut i: usize = 0;
    proof {
        assert(input@.take(0) =~= Seq::<u8>::empty());
        assert(t@ =~= slug_norm(input@.take(0), sep));
    }
    while i < n
        invariant
            n == input@.len(),
            i <= n,
            t@ == slug_norm(input@.take(i as int), sep),
        decreases n - i,
    {
        let b = input[i];
        proof {
            assert(input@.take(i + 1).drop_last() =~= input@.take(i as int));
            assert(input@.take(i + 1).last() == input@[i as int]);
        }
        let ghost t0 = t@;
        if (('a' as u8) <= b && b <= ('z' as u8)) || (('0' as u8) <= b && b <= ('9' as u8)) || b
            == ('.' as u8) {
            t.push(b);
            proof {
                assert(t@ =~= t0 + slug_class(b, sep));
            }
        } else if ('A' as u8) <= b && b <= ('Z' as u8) {
            t.push(b + 32);
            proof {
                assert(t@ =~= t0 + slug_class(b, sep));
            }
        } else if b == (' ' as u8) || b == ('_' as u8) || b == ('-' as u8) || b >= 128 {
            t.push(sep);
            proof {
                assert(t@ =~= t0 + slug_class(b, sep));
            }
        } else {
            proof {
                assert(t@ =~= t0 + slug_class(b, sep));
            }
        }
        i += 1;
    }
    proof {
        assert(input@.take(n as int) =~= input@);
    }
    // Second pass: collapse separator runs and trim the ends.
    let ghost tv = t@;
    let m = t.len();
    let mut out: Vec<u8> = Vec::new();
    let mut i: usize = 0;
    while i < m
        invariant
            m == t@.len(),
            tv == t@,
            i <= m,
            out@.len() == 0 ==> collapse_from(tv, sep, 0) == collapse_from(tv, sep, i as int),
            out@.len() > 0 ==> (collapse_from(tv, sep, i as int).len() == 0 ==> collapse_from(
                tv,
                sep,
                0,
            ) == out@) && (collapse_from(tv, sep, i as int).len() > 0 ==> collapse_from(tv, sep, 0)
                == out@ + seq![sep] + collapse_from(tv, sep, i as int)),
        decreases m - i,
    {
        if t[i] == sep {
            proof {
                assert(sep_run_end(tv, sep, i as int) == sep_run_end(tv, sep, i + 1));
                assert(collapse_from(tv, sep, i as int) == collapse_from(tv, sep, i + 1));
            }
            i += 1;
        } else {
            // Scan one segment.
            let start = i;
            let mut seg: Vec<u8> = Vec::new();
            proof {
                assert(seg@ =~= tv.subrange(start as int, start as int));
            }
            while i < m && t[i] != sep
                invariant
                    m == tv.len(),
                    tv == t@,
                    start <= i <= m,
                    start < m,
                    tv[start as int] != sep,
                    seg@ == tv.subrange(start as int, i as int),
                    forall|k: int| start <= k < i ==> tv[k] != sep,
                decreases m - i,
            {
                seg.push(t[i]);
                proof {
                    assert(tv.subrange(start as int, i + 1) =~= tv.subrange(
                        start as int,
                        i as int,
                    ).push(tv[i as int]));
                }
                i += 1;
            }
            proof {
                lemma_seg_end_eq(tv, sep, start as int, i as int);
                assert(sep_run_end(tv, sep, start as int) == start);
                assert(collapse_from(tv, sep, start as int) == (if collapse_from(
                    tv,
                    sep,
                    i as int,
                ).len() == 0 {
                    seg@
                } else {
                    seg@ + seq![sep] + collapse_from(tv, sep, i as int)
                }));
                assert(seg@.len() > 0);
            }
            let ghost out0 = out@;
            if out.len() == 0 {
                let mut k: usize = 0;
                let sl = seg.len();
                while k < sl
                    invariant
                        sl == seg@.len(),
                        k <= sl,
                        out@ == seg@.take(k as int),
                    decreases sl - k,
                {
                    out.push(seg[k]);
                    proof {
                        assert(seg@.take(k + 1) =~= seg@.take(k as int).push(seg@[k as int]));
                    }
                    k += 1;
                }
                proof {
                    assert(out@ =~= seg@);
                }
            } else {
                out.push(sep);
                let mut k: usize = 0;
                let sl = seg.len();
                while k < sl
                    invariant
                        sl == seg@.len(),
                        k <= sl,
                        out@ == out0 + seq![sep] + seg@.take(k as int),
                    decreases sl - k,
                {
                    proof {
                        assert((out0 + seq![sep] + seg@.take(k + 1)) =~= (out0 + seq![sep]
                            + seg@.take(k as int)).push(seg@[k as int]));
                    }
                    out.push(seg[k]);
                    k += 1;
                }
                proof {
                    assert(out@ =~= out0 + seq![sep] + seg@);
                }
            }
            proof {
                let rest = collapse_from(tv, sep, i as int);
                if out0.len() == 0 {
                    assert(collapse_from(tv, sep, 0) == collapse_from(tv, sep, start as int));
                    if rest.len() > 0 {
                        assert(collapse_from(tv, sep, 0) =~= out@ + seq![sep] + rest);
                    }
                } else {
                    assert(collapse_from(tv, sep, 0) == out0 + seq![sep] + collapse_from(
                        tv,
                        sep,
                        start as int,
                    ));
                    if rest.len() == 0 {
                        assert(collapse_from(tv, sep, 0) =~= out@);
                    } else {
                        assert(collapse_from(tv, sep, 0) =~= out@ + seq![sep] + rest);
                    }
                }
            }
        }
    }
    proof {
        assert(collapse_from(tv, sep, i as int) =~= Seq::<u8>::empty());
        if out@.len() == 0 {
            assert(out@ =~= collapse_from(tv, sep, 0));
        }
    }
    out
}

} // verus!
