//! Parser for the line-oriented progress protocol of the external download
//! tool.
//!
//! Each progress tick is one line: a fixed sentinel token, then, separated
//! by whitespace, a percentage (optionally ending in `%`), a total-size
//! string, a speed string, the literal `ETA`, and an eta string.  A line
//! without the sentinel, or with fewer than five fields after it, carries no
//! update and is silently dropped.  Percentages are held in hundredths of a
//! percent; unparsable numeric text counts as zero and values above one
//! hundred percent saturate at [`FULL_PROGRESS`].

use vstd::prelude::*;
use vstd::string::StringSliceAdditionalSpecFns;

use crate::bytes_util::{byte_is_space, is_digit, is_space, starts_with};
use crate::status::FULL_PROGRESS;

verus! {

/// The sentinel that marks a progress line in the tool's output.
pub const SENTINEL: &'static str = "[CUPCAKE]";

// --- Whitespace tokenization -------------------------------------------

/// First position at or after `i` that does not hold whitespace.
pub open spec fn space_end(s: Seq<u8>, i: int) -> int
    decreases s.len() - i,
        when 0 <= i <= s.len()
{
    if i >= s.len() {
        i
    } else if !is_space(s[i]) {
        i
    } else {
        space_end(s, i + 1)
    }
}

/// First position at or after `i` that holds whitespace (or the end).
pub open spec fn token_end(s: Seq<u8>, i: int) -> int
    decreases s.len() - i,
        when 0 <= i <= s.len()
{
    if i >= s.len() {
        i
    } else if is_space(s[i]) {
        i
    } else {
        token_end(s, i + 1)
    }
}

pub proof fn lemma_space_end(s: Seq<u8>, i: int)
    requires
        0 <= i <= s.len(),
    ensures
        i <= space_end(s, i) <= s.len(),
        forall|k: int| i <= k < space_end(s, i) ==> is_space(s[k]),
        space_end(s, i) < s.len() ==> !is_space(s[space_end(s, i)]),
    decreases s.len() - i,
{
    if i < s.len() && is_space(s[i]) {
        lemma_space_end(s, i + 1);
    }
}

pub proof fn lemma_token_end(s: Seq<u8>, i: int)
    requires
        0 <= i <= s.len(),
    ensures
        i <= token_end(s, i) <= s.len(),
        forall|k: int| i <= k < token_end(s, i) ==> !is_space(s[k]),
        token_end(s, i) < s.len() ==> is_space(s[token_end(s, i)]),
        i < s.len() && !is_space(s[i]) ==> token_end(s, i) > i,
    decreases s.len() - i,
{
    if i < s.len() && !is_space(s[i]) {
        lemma_token_end(s, i + 1);
    }
}

/// A run of non-blank bytes bounded exactly by `[start, e)` ends there.
pub proof fn lemma_token_end_eq(s: Seq<u8>, start: int, e: int)
    requires
        0 <= start <= e <= s.len(),
        forall|k: int| start <= k < e ==> !is_space(s[k]),
        e < s.len() ==> is_space(s[e]),
    ensures
        token_end(s, start) == e,
    decreases e - start,
{
    if start < e {
        lemma_token_end_eq(s, start + 1, e);
    }
}

/// The whitespace-separated tokens of `s`, from position `i` on.
pub open spec fn tokens_from(s: Seq<u8>, i: int) -> Seq<Seq<u8>>
    decreases s.len() - i,
        when 0 <= i <= s.len()
        via tokens_from_decreases
{
    let j = space_end(s, i);
    if j >= s.len() {
        seq![]
    } else {
        seq![s.subrange(j, token_end(s, j))] + tokens_from(s, token_end(s, j))
    }
}

#[via_fn]
proof fn tokens_from_decreases(s: Seq<u8>, i: int) {
    lemma_space_end(s, i);
    let j = space_end(s, i);
    if j < s.len() {
        lemma_token_end(s, j);
    }
}

/// Split a byte string into its whitespace-separated tokens.
pub fn tokenize(s: &[u8]) -> (r: Vec<Vec<u8>>)
    ensures
        r.deep_view() == tokens_from(s@, 0),
{
    let n = s.len();
    let mut toks: Vec<Vec<u8>> = Vec::new();
    let mut i: usize = 0;
    proof {
        assert(toks.deep_view() =~= Seq::<Seq<u8>>::empty());
    }
    while i < n
        invariant
            n == s@.len(),
            i <= n,
            tokens_from(s@, 0) == toks.deep_view() + tokens_from(s@, i as int),
        decreases n - i,
    {
        if byte_is_space(s[i]) {
            proof {
                assert(space_end(s@, i as int) == space_end(s@, i + 1));
                assert(tokens_from(s@, i as int) == tokens_from(s@, i + 1));
            }
            i += 1;
        } else {
            let start = i;
            let mut tok: Vec<u8> = Vec::new();
            proof {
                assert(tok@ =~= s@.subrange(start as int, start as int));
            }
            while i < n && !byte_is_space(s[i])
                invariant
                    n == s@.len(),
                    start <= i <= n,
                    start < n,
                    tok@ == s@.subrange(start as int, i as int),
                    forall|k: int| start <= k < i ==> !is_space(s@[k]),
                decreases n - i,
            {
                tok.push(s[i]);
                proof {
                    assert(s@.subrange(start as int, i + 1) =~= s@.subrange(
                        start as int,
                        i as int,
                    ).push(s@[i as int]));
                }
                i += 1;
            }
            proof {
                lemma_token_end_eq(s@, start as int, i as int);
                assert(space_end(s@, start as int) == start) by {
                    lemma_space_end(s@, start as int);
                }
                assert(tokens_from(s@, start as int) == seq![tok@] + tokens_from(s@, i as int));
                assert((toks.deep_view().push(tok@)) + tokens_from(s@, i as int) =~= toks.deep_view()
                    + tokens_from(s@, start as int));
            }
            let ghost old_toks = toks.deep_view();
            toks.push(tok);
            proof {
                assert(toks.deep_view() =~= old_toks.push(toks@[toks@.len() - 1].deep_view()));
                assert(toks@[toks@.len() - 1].deep_view() =~= toks@[toks@.len() - 1]@);
            }
        }
    }
    proof {
        assert(tokens_from(s@, i as int) =~= Seq::<Seq<u8>>::empty());
        assert(toks.deep_view() + tokens_from(s@, i as int) =~= toks.deep_view());
    }
    toks
}

// --- Fixed-point percentage parsing ------------------------------------

/// Every byte is an ASCII digit.
pub open spec fn all_digits(t: Seq<u8>) -> bool {
    forall|k: int| 0 <= k < t.len() ==> is_digit(#[trigger] t[k])
}

/// Numeric value of a digit string.
pub open spec fn digits_val(t: Seq<u8>) -> int
    decreases t.len(),
{
    if t.len() == 0 {
        0
    } else {
        digits_val(t.take(t.len() - 1)) * 10 + (t[t.len() - 1] - ('0' as u8))
    }
}

pub proof fn lemma_digits_val_nonneg(t: Seq<u8>)
    requires
        all_digits(t),
    ensures
        digits_val(t) >= 0,
    decreases t.len(),
{
    if t.len() > 0 {
        assert(all_digits(t.take(t.len() - 1)));
        lemma_digits_val_nonneg(t.take(t.len() - 1));
    }
}

/// Hundredths contributed by the fraction digits: only the first two count.
pub open spec fn frac_hundredths(t: Seq<u8>) -> int {
    if t.len() == 0 {
        0
    } else if t.len() == 1 {
        (t[0] - ('0' as u8)) * 10
    } else {
        (t[0] - ('0' as u8)) * 10 + (t[1] - ('0' as u8))
    }
}

/// The token with every trailing `%` removed.
pub open spec fn strip_percents(t: Seq<u8>) -> Seq<u8>
    decreases t.len(),
{
    if t.len() > 0 && t[t.len() - 1] == ('%' as u8) {
        strip_percents(t.take(t.len() - 1))
    } else {
        t
    }
}

/// A decimal point sits at `d` with digits on both sides.
pub open spec fn dot_at(u: Seq<u8>, d: int) -> bool {
    &&& 0 <= d < u.len()
    &&& u.len() > 1
    &&& u[d] == ('.' as u8)
    &&& all_digits(u.take(d))
    &&& all_digits(u.skip(d + 1))
}

/// A plain decimal numeral: digits, or digits around a single point.
pub open spec fn is_valid_decimal(u: Seq<u8>) -> bool {
    (u.len() > 0 && all_digits(u)) || (exists|d: int| dot_at(u, d))
}

/// Value of a valid decimal numeral in hundredths.
pub open spec fn decimal_hundredths(u: Seq<u8>) -> int {
    if u.len() > 0 && all_digits(u) {
        digits_val(u) * 100
    } else {
        let d = choose|d: int| dot_at(u, d);
        digits_val(u.take(d)) * 100 + frac_hundredths(u.skip(d + 1))
    }
}

/// Only one position can carry the decimal point of a valid numeral.
pub proof fn lemma_dot_unique(u: Seq<u8>, d1: int, d2: int)
    requires
        dot_at(u, d1),
        dot_at(u, d2),
    ensures
        d1 == d2,
{
    if d1 < d2 {
        assert(is_digit(u.take(d2)[d1]));
    } else if d2 < d1 {
        assert(is_digit(u.take(d1)[d2]));
    }
}

/// Progress clamped to the reportable range.
pub open spec fn clamp_progress(v: int) -> u32 {
    if v > FULL_PROGRESS {
        FULL_PROGRESS
    } else if v < 0 {
        0
    } else {
        v as u32
    }
}

/// Hundredths of a percent carried by a percentage token: trailing `%`
/// stripped, an invalid numeral counting as zero, the result saturating at
/// one hundred percent.
pub open spec fn percent_of_token(t: Seq<u8>) -> u32 {
    let u = strip_percents(t);
    if is_valid_decimal(u) {
        clamp_progress(decimal_hundredths(u))
    } else {
        0
    }
}

/// Parse a percentage token into hundredths of a percent.
pub fn parse_percent(tok: &[u8]) -> (p: u32)
    ensures
        p == percent_of_token(tok@),
        p <= FULL_PROGRESS,
{
    let n = tok.len();
    // Strip the trailing percent signs.
    let mut e = n;
    proof {
        assert(tok@.take(n as int) =~= tok@);
    }
    while e > 0 && tok[e - 1] == ('%' as u8)
        invariant
            n == tok@.len(),
            e <= n,
            strip_percents(tok@) == strip_percents(tok@.take(e as int)),
        decreases e,
    {
        proof {
            assert(tok@.take(e as int).take(e - 1) =~= tok@.take(e - 1));
        }
        e -= 1;
    }
    let ghost u = tok@.take(e as int);
    proof {
        assert(strip_percents(u) == u);
    }
    // Locate the first decimal point, if any.
    let mut dot: Option<usize> = None;
    let mut k: usize = 0;
    while k < e && dot.is_none()
        invariant
            e <= n == tok@.len(),
            k <= e,
            u == tok@.take(e as int),
            match dot {
                Some(d) => d == k && k < e && u[d as int] == ('.' as u8) && (forall|j: int|
                    0 <= j < d ==> u[j] != ('.' as u8)),
                None => forall|j: int| 0 <= j < k ==> u[j] != ('.' as u8),
            },
        decreases (if dot is None { 1int } else { 0int }), e - k,
    {
        proof {
            assert(u[k as int] == tok@.take(e as int)[k as int]);
        }
        if tok[k] == ('.' as u8) {
            dot = Some(k);
        } else {
            k += 1;
        }
    }
    // Bounds of the integer and fraction parts.
    let int_end: usize = match dot {
        Some(d) => d,
        None => e,
    };
    let frac_start: usize = match dot {
        Some(d) => d + 1,
        None => e,
    };
    // Check the digits; a failure anywhere makes the token count as zero.
    let ghost init_ok = e > 0 && (dot is None || e > 1);
    let mut ok: bool = e > 0 && (dot.is_none() || e > 1);
    let mut k: usize = 0;
    while k < int_end
        invariant
            int_end <= e <= n == tok@.len(),
            k <= int_end,
            u == tok@.take(e as int),
            ok == (init_ok && (forall|j: int| 0 <= j < k ==> is_digit(#[trigger] u[j]))),
        decreases int_end - k,
    {
        proof {
            assert(u[k as int] == tok@.take(e as int)[k as int]);
        }
        if !(('0' as u8) <= tok[k] && tok[k] <= ('9' as u8)) {
            ok = false;
        }
        k += 1;
    }
    let ghost int_ok = init_ok && (forall|j: int| 0 <= j < int_end ==> is_digit(#[trigger] u[j]));
    let mut k: usize = frac_start;
    while k < e
        invariant
            frac_start <= e <= n == tok@.len(),
            frac_start <= k <= e,
            u == tok@.take(e as int),
            ok == (int_ok && (forall|j: int| frac_start <= j < k ==> is_digit(#[trigger] u[j]))),
        decreases e - k,
    {
        proof {
            assert(u[k as int] == tok@.take(e as int)[k as int]);
        }
        if !(('0' as u8) <= tok[k] && tok[k] <= ('9' as u8)) {
            ok = false;
        }
        k += 1;
    }
    if !ok {
        proof {
            lemma_invalid_when_not_ok(u, dot, int_end as int, frac_start as int, e as int);
        }
        return 0;
    }
    proof {
        lemma_valid_when_ok(u, dot, int_end as int, frac_start as int, e as int);
    }
    // Integer part, saturating just above one hundred percent.
    let mut int_acc: u32 = 0;
    let mut k: usize = 0;
    while k < int_end
        invariant
            int_end <= e <= n == tok@.len(),
            k <= int_end,
            u == tok@.take(e as int),
            forall|j: int| 0 <= j < int_end ==> is_digit(#[trigger] u[j]),
            ({
                let iv = digits_val(u.take(k as int));
                iv >= 0 && (iv <= 100 ==> int_acc == iv) && (iv > 100 ==> int_acc == 101)
            }),
            int_acc <= 101,
        decreases int_end - k,
    {
        proof {
            assert(is_digit(u[k as int]));
            assert(u.take(k + 1).take(k as int) =~= u.take(k as int));
        }
        let d: u32 = (tok[k] - ('0' as u8)) as u32;
        let next = int_acc * 10 + d;
        int_acc = if next > 101 {
            101
        } else {
            next
        };
        k += 1;
    }
    // Fraction part: the first two digits after the point.
    let ghost frac = u.skip(frac_start as int);
    let mut frac_acc: u32 = 0;
    if frac_start < e {
        proof {
            assert(is_digit(u[frac_start as int]));
        }
        frac_acc = ((tok[frac_start] - ('0' as u8)) as u32) * 10;
        if frac_start + 1 < e {
            proof {
                assert(is_digit(u[frac_start + 1]));
            }
            frac_acc = frac_acc + ((tok[frac_start + 1] - ('0' as u8)) as u32);
        }
    }
    proof {
        assert(frac.len() == e - frac_start);
        assert(forall|j: int| 0 <= j < frac.len() ==> frac[j] == u[frac_start + j]);
        assert(frac_acc == frac_hundredths(frac));
        assert(frac_acc <= 99);
    }
    // Combine and clamp.
    let result: u32 = if int_acc > 100 {
        FULL_PROGRESS
    } else {
        let total = int_acc * 100 + frac_acc;
        if total > FULL_PROGRESS {
            FULL_PROGRESS
        } else {
            total
        }
    };
    proof {
        let iv = digits_val(u.take(int_end as int));
        match dot {
            Some(d) => {
                let sd = choose|sd: int| dot_at(u, sd);
                lemma_dot_unique(u, sd, d as int);
                assert(decimal_hundredths(u) == iv * 100 + frac_hundredths(frac));
            },
            None => {
                assert(u.take(e as int) =~= u);
                assert(frac =~= Seq::<u8>::empty());
                assert(decimal_hundredths(u) == iv * 100);
            },
        }
        assert(result == clamp_progress(decimal_hundredths(u)));
    }
    result
}

/// When the scans fail, no reading of the token is a valid numeral.
proof fn lemma_invalid_when_not_ok(u: Seq<u8>, dot: Option<usize>, int_end: int, frac_start: int, e: int)
    requires
        e == u.len(),
        match dot {
            Some(d) => int_end == d && frac_start == d + 1 && d < e && u[d as int] == ('.' as u8)
                && forall|j: int| 0 <= j < d ==> u[j] != ('.' as u8),
            None => int_end == e && frac_start == e && forall|j: int|
                0 <= j < e ==> u[j] != ('.' as u8),
        },
        !((e > 0 && (dot is None || e > 1)) && (forall|j: int|
            0 <= j < int_end ==> is_digit(#[trigger] u[j])) && (forall|j: int|
            frac_start <= j < e ==> is_digit(#[trigger] u[j]))),
    ensures
        !is_valid_decimal(u),
{
    match dot {
        Some(d) => {
            assert(!all_digits(u)) by {
                assert(u[d as int] == ('.' as u8));
                assert(!is_digit(u[d as int]));
            }
            if exists|x: int| dot_at(u, x) {
                let x = choose|x: int| dot_at(u, x);
                assert(x == d) by {
                    if x < d {
                        assert(u[x] == ('.' as u8));
                        assert(u[x] != ('.' as u8));
                    } else if x > d {
                        assert(is_digit(u.take(x)[d as int]));
                        assert(!is_digit(u[d as int]));
                    }
                }
                assert forall|j: int| 0 <= j < int_end implies is_digit(#[trigger] u[j]) by {
                    assert(u[j] == u.take(d as int)[j]);
                }
                assert forall|j: int| frac_start <= j < e implies is_digit(#[trigger] u[j]) by {
                    assert(u[j] == u.skip(d + 1)[j - d - 1]);
                }
                assert(u.len() > 1);
                assert(false);
            }
        },
        None => {
            if exists|x: int| dot_at(u, x) {
                let x = choose|x: int| dot_at(u, x);
                assert(u[x] == ('.' as u8));
                assert(false);
            }
            if e > 0 && all_digits(u) {
                assert(false);
            }
        },
    }
}

/// When the scans pass, the token is a valid numeral with the found point.
proof fn lemma_valid_when_ok(u: Seq<u8>, dot: Option<usize>, int_end: int, frac_start: int, e: int)
    requires
        e == u.len(),
        match dot {
            Some(d) => int_end == d && frac_start == d + 1 && d < e && u[d as int] == ('.' as u8)
                && forall|j: int| 0 <= j < d ==> u[j] != ('.' as u8),
            None => int_end == e && frac_start == e && forall|j: int|
                0 <= j < e ==> u[j] != ('.' as u8),
        },
        e > 0,
        dot is Some ==> e > 1,
        forall|j: int| 0 <= j < int_end ==> is_digit(#[trigger] u[j]),
        forall|j: int| frac_start <= j < e ==> is_digit(#[trigger] u[j]),
    ensures
        is_valid_decimal(u),
        match dot {
            Some(d) => dot_at(u, d as int) && !(u.len() > 0 && all_digits(u)),
            None => all_digits(u),
        },
{
    match dot {
        Some(d) => {
            assert(dot_at(u, d as int)) by {
                assert(forall|j: int|
                    0 <= j < d ==> #[trigger] u.take(d as int)[j] == u[j]);
                assert(forall|j: int|
                    0 <= j < e - d - 1 ==> #[trigger] u.skip(d + 1)[j] == u[j + d + 1]);
            }
            assert(!is_digit(u[d as int]));
        },
        None => {
        },
    }
}

// --- Progress line parsing ---------------------------------------------

/// Model of a structured progress update.
pub ghost struct ProgressModel {
    pub progress_percent: u32,
    pub file_size: Seq<u8>,
    pub download_speed: Seq<u8>,
    pub estimated_time: Seq<u8>,
}

/// A structured update parsed from one progress line.
#[derive(Debug)]
pub struct ProgressUpdate {
    pub progress_percent: u32,
    pub file_size: Vec<u8>,
    pub download_speed: Vec<u8>,
    pub estimated_time: Vec<u8>,
}

impl View for ProgressUpdate {
    type V = ProgressModel;

    open spec fn view(&self) -> ProgressModel {
        ProgressModel {
            progress_percent: self.progress_percent,
            file_size: self.file_size@,
            download_speed: self.download_speed@,
            estimated_time: self.estimated_time@,
        }
    }
}

/// What one line of tool output means.  A line is an update exactly when it
/// is longer than the sentinel, starts with it, and the text after the
/// sentinel's separator splits into at least five fields; the update then
/// carries the percentage of field zero and the size, speed and eta strings
/// of fields one, two and four.
pub open spec fn spec_parse_progress_line(s: Seq<u8>) -> Option<ProgressModel> {
    let sent = SENTINEL.spec_bytes();
    if s.len() > sent.len() && s.take(sent.len() as int) == sent {
        let toks = tokens_from(s.skip(sent.len() as int + 1), 0);
        if toks.len() >= 5 {
            Some(
                ProgressModel {
                    progress_percent: percent_of_token(toks[0]),
                    file_size: toks[1],
                    download_speed: toks[2],
                    estimated_time: toks[4],
                },
            )
        } else {
            None
        }
    } else {
        None
    }
}

/// Parse one line of tool output into a structured update, if it is one.
pub fn parse_progress_line(line: &[u8]) -> (r: Option<ProgressUpdate>)
    ensures
        match r {
            Some(u) => spec_parse_progress_line(line@) == Some(u@) && u@.progress_percent
                <= FULL_PROGRESS,
            None => spec_parse_progress_line(line@) is None,
        },
{
    let sent = SENTINEL.as_bytes();
    if line.len() <= sent.len() {
        return None;
    }
    if !starts_with(line, sent) {
        return None;
    }
    // Skip the sentinel and the separator after it.
    let mut rest: Vec<u8> = Vec::new();
    let mut i: usize = sent.len() + 1;
    while i < line.len()
        invariant
            sent.len() + 1 <= i <= line@.len(),
            rest@ == line@.subrange(SENTINEL.spec_bytes().len() as int + 1, i as int),
            sent@ == SENTINEL.spec_bytes(),
        decreases line@.len() - i,
    {
        rest.push(line[i]);
        proof {
            assert(line@.subrange(SENTINEL.spec_bytes().len() as int + 1, i + 1) =~= line@.subrange(
                SENTINEL.spec_bytes().len() as int + 1,
                i as int,
            ).push(line@[i as int]));
        }
        i += 1;
    }
    proof {
        assert(rest@ =~= line@.skip(SENTINEL.spec_bytes().len() as int + 1));
    }
    let toks = tokenize(&rest);
    if toks.len() < 5 {
        proof {
            assert(toks.deep_view().len() == toks@.len());
        }
        return None;
    }
    proof {
        assert(toks.deep_view().len() == toks@.len());
        assert(toks.deep_view()[0] == toks@[0]@);
        assert(toks.deep_view()[1] == toks@[1]@);
        assert(toks.deep_view()[2] == toks@[2]@);
        assert(toks.deep_view()[4] == toks@[4]@);
    }
    let progress = parse_percent(&toks[0]);
    Some(
        ProgressUpdate {
            progress_percent: progress,
            file_size: toks[1].clone(),
            download_speed: toks[2].clone(),
            estimated_time: toks[4].clone(),
        },
    )
}

} // verus!
