//! The textual AT wire format.
//!
//! Command lines have the shape `AT<prefix>=<f0>,<f1>,...\r\n` (or
//! `AT<prefix>\r\n` for bare commands). Reply lines carry comma-separated
//! fields after an optional `+<TOKEN>:` prefix; string fields are quoted,
//! numeric fields are unquoted decimal. This module gives the byte-level
//! building blocks: decimal rendering and parsing, whitespace trimming,
//! quoted-string handling, top-level field splitting, and prefix stripping,
//! each as an executable function proved against a direct specification.

use vstd::prelude::*;

verus! {

pub const SPACE: u8 = 32;

pub const QUOTE: u8 = 34;

pub const PLUS: u8 = 43;

pub const COMMA: u8 = 44;

pub const COLON: u8 = 58;

pub const CR: u8 = 13;

pub const LF: u8 = 10;

pub const HYPHEN: u8 = 45;

// ---------------------------------------------------------------------------
// Decimal rendering and parsing
// ---------------------------------------------------------------------------

pub open spec fn is_digit(b: u8) -> bool {
    48 <= b <= 57
}

pub open spec fn all_digits(s: Seq<u8>) -> bool {
    forall|i: int| 0 <= i < s.len() ==> is_digit(#[trigger] s[i])
}

/// The decimal rendering of `n`, most significant digit first.
pub open spec fn dec_digits(n: nat) -> Seq<u8>
    decreases n,
{
    if n < 10 {
        seq![(48 + n) as u8]
    } else {
        dec_digits(n / 10).push((48 + n % 10) as u8)
    }
}

/// The numeric value of a digit string, read in base ten.
pub open spec fn dec_value(s: Seq<u8>) -> nat
    decreases s.len(),
{
    if s.len() == 0 {
        0
    } else {
        dec_value(s.drop_last()) * 10 + ((s.last() - 48) as nat)
    }
}

/// Every byte of a decimal rendering is a digit, the rendering is non-empty,
/// and reading it back gives the rendered number.
pub proof fn lemma_dec_digits(n: nat)
    ensures
        dec_digits(n).len() >= 1,
        all_digits(dec_digits(n)),
        dec_value(dec_digits(n)) == n,
    decreases n,
{
    if n < 10 {
        let e = dec_digits(n);
        assert(e == seq![(48 + n) as u8]);
        assert(e.drop_last() =~= Seq::<u8>::empty());
        assert(e.last() == (48 + n) as u8);
        assert(dec_value(e) == dec_value(Seq::<u8>::empty()) * 10 + (((48 + n) as u8 - 48) as nat));
        assert(dec_value(e) == n);
    } else {
        lemma_dec_digits(n / 10);
        let d = dec_digits(n / 10);
        let b = (48 + n % 10) as u8;
        assert(dec_digits(n) == d.push(b));
        assert(dec_digits(n).drop_last() =~= d);
        assert(dec_digits(n).last() == b);
        assert((b - 48) as nat == n % 10);
        assert(dec_value(dec_digits(n)) == dec_value(d) * 10 + n % 10);
        assert(dec_value(dec_digits(n)) == (n / 10) * 10 + n % 10);
        assert(n == (n / 10) * 10 + n % 10);
        assert(forall|i: int|
            0 <= i < dec_digits(n).len() ==> is_digit(#[trigger] dec_digits(n)[i]));
    }
}

/// Appending one more digit multiplies the value by ten and adds the digit.
pub proof fn lemma_dec_value_push(s: Seq<u8>, b: u8)
    requires
        is_digit(b),
    ensures
        dec_value(s.push(b)) == dec_value(s) * 10 + (b - 48),
{
    assert(s.push(b).drop_last() =~= s);
}

/// A digit string is worth at least any of its prefixes.
pub proof fn lemma_dec_value_prefix_le(s: Seq<u8>, k: int)
    requires
        0 <= k <= s.len(),
        all_digits(s),
    ensures
        dec_value(s.subrange(0, k)) <= dec_value(s),
    decreases s.len() - k,
{
    if k < s.len() {
        lemma_dec_value_prefix_le(s, k + 1);
        let p = s.subrange(0, k);
        let q = s.subrange(0, k + 1);
        assert(q.drop_last() =~= p);
        assert(dec_value(q) == dec_value(p) * 10 + (s[k] - 48));
        assert(dec_value(p) * 10 >= dec_value(p)) by (nonlinear_arith);
    } else {
        assert(s.subrange(0, k) =~= s);
    }
}

/// Appends the decimal rendering of `n` to `out`.
pub fn push_dec_u64(out: &mut Vec<u8>, n: u64)
    ensures
        final(out)@ == old(out)@ + dec_digits(n as nat),
    decreases n,
{
    if n < 10 {
        out.push(48 + (n as u8));
        assert(final(out)@ =~= old(out)@ + dec_digits(n as nat));
    } else {
        push_dec_u64(out, n / 10);
        out.push(48 + ((n % 10) as u8));
        assert(final(out)@ =~= old(out)@ + dec_digits(n as nat));
    }
}

/// The decimal rendering of a signed number: a leading hyphen when
/// negative, then the digits of the magnitude.
pub open spec fn dec_digits_signed(n: int) -> Seq<u8> {
    if n < 0 {
        seq![HYPHEN] + dec_digits((-n) as nat)
    } else {
        dec_digits(n as nat)
    }
}

/// Appends the decimal rendering of the signed `n` to `out`.
pub fn push_dec_i64(out: &mut Vec<u8>, n: i64)
    ensures
        final(out)@ == old(out)@ + dec_digits_signed(n as int),
{
    if n < 0 {
        out.push(HYPHEN);
        let mag: u64 = ((-(n as i128)) as u64);
        assert(mag as nat == (-(n as int)) as nat);
        push_dec_u64(out, mag);
        assert(out@ =~= old(out)@ + dec_digits_signed(n as int));
    } else {
        push_dec_u64(out, n as u64);
    }
}

// ---------------------------------------------------------------------------
// Whitespace trimming
// ---------------------------------------------------------------------------

pub open spec fn trim_front(s: Seq<u8>) -> Seq<u8>
    decreases s.len(),
{
    if s.len() > 0 && s[0] == SPACE {
        trim_front(s.drop_first())
    } else {
        s
    }
}

pub open spec fn trim_back(s: Seq<u8>) -> Seq<u8>
    decreases s.len(),
{
    if s.len() > 0 && s.last() == SPACE {
        trim_back(s.drop_last())
    } else {
        s
    }
}

/// `s` with leading and trailing spaces removed.
pub open spec fn trim(s: Seq<u8>) -> Seq<u8> {
    trim_back(trim_front(s))
}

pub proof fn lemma_trim_front_range(s: Seq<u8>, lo: int)
    requires
        0 <= lo <= s.len(),
        forall|k: int| 0 <= k < lo ==> s[k] == SPACE,
        lo == s.len() || s[lo] != SPACE,
    ensures
        trim_front(s) == s.subrange(lo, s.len() as int),
    decreases lo,
{
    if lo == 0 {
        if s.len() == 0 || s[0] != SPACE {
            assert(trim_front(s) == s);
            assert(s.subrange(0, s.len() as int) =~= s);
        }
    } else {
        assert(s[0] == SPACE);
        let t = s.drop_first();
        lemma_trim_front_range(t, lo - 1);
        assert(t.subrange(lo - 1, t.len() as int) =~= s.subrange(lo, s.len() as int));
    }
}

pub proof fn lemma_trim_back_range(s: Seq<u8>, hi: int)
    requires
        0 <= hi <= s.len(),
        forall|k: int| hi <= k < s.len() ==> s[k] == SPACE,
        hi == 0 || s[hi - 1] != SPACE,
    ensures
        trim_back(s) == s.subrange(0, hi),
    decreases s.len() - hi,
{
    if hi == s.len() {
        if s.len() == 0 || s.last() != SPACE {
            assert(trim_back(s) == s);
            assert(s.subrange(0, hi) =~= s);
        }
    } else {
        assert(s.last() == SPACE);
        let t = s.drop_last();
        lemma_trim_back_range(t, hi);
        assert(t.subrange(0, hi) =~= s.subrange(0, hi));
    }
}

/// The bounds of the space-trimmed middle of `s`: `trim(s@)` is exactly
/// `s@.subrange(r.0, r.1)`.
pub fn trim_bounds(s: &[u8]) -> (r: (usize, usize))
    ensures
        r.0 <= r.1 <= s@.len(),
        trim(s@) == s@.subrange(r.0 as int, r.1 as int),
{
    let n = s.len();
    let mut lo: usize = 0;
    while lo < n && s[lo] == SPACE
        invariant
            0 <= lo <= n,
            n == s@.len(),
            forall|k: int| 0 <= k < lo ==> s@[k] == SPACE,
        decreases n - lo,
    {
        lo = lo + 1;
    }
    let mut hi: usize = n;
    while hi > lo && s[hi - 1] == SPACE
        invariant
            lo <= hi <= n,
            n == s@.len(),
            forall|k: int| hi <= k < n ==> s@[k] == SPACE,
        decreases hi,
    {
        hi = hi - 1;
    }
    proof {
        lemma_trim_front_range(s@, lo as int);
        let u = s@.subrange(lo as int, n as int);
        lemma_trim_back_range(u, hi - lo);
        assert(u.subrange(0, hi - lo) =~= s@.subrange(lo as int, hi as int));
    }
    (lo, hi)
}

// ---------------------------------------------------------------------------
// Numeric fields
// ---------------------------------------------------------------------------

/// The value of a numeric field: the field trimmed of spaces must be a
/// non-empty digit string. Values beyond the machine range are handled by
/// the executable parsers, which reject them.
pub open spec fn spec_parse_num(s: Seq<u8>) -> Option<nat> {
    let t = trim(s);
    if t.len() > 0 && all_digits(t) {
        Some(dec_value(t))
    } else {
        None
    }
}

/// `spec_parse_num` restricted to values that fit in a `u64`.
pub open spec fn spec_parse_u64(s: Seq<u8>) -> Option<u64> {
    match spec_parse_num(s) {
        Some(v) => if v <= u64::MAX {
            Some(v as u64)
        } else {
            None
        },
        None => None,
    }
}

/// Parses a numeric field: optional surrounding spaces, then decimal digits.
pub fn parse_u64(s: &[u8]) -> (r: Option<u64>)
    ensures
        r == spec_parse_u64(s@),
{
    let (lo, hi) = trim_bounds(s);
    let ghost t = trim(s@);
    if lo == hi {
        return None;
    }
    let mut acc: u128 = 0;
    let mut i = lo;
    proof {
        assert(t.subrange(0, 0) =~= Seq::<u8>::empty());
    }
    while i < hi
        invariant
            lo <= i <= hi <= s@.len(),
            t == s@.subrange(lo as int, hi as int),
            t == trim(s@),
            lo < hi,
            all_digits(t.subrange(0, i - lo)),
            acc == dec_value(t.subrange(0, i - lo)),
            acc <= u64::MAX,
        decreases hi - i,
    {
        let b = s[i];
        if b < 48 || b > 57 {
            proof {
                assert(t[i - lo] == b);
                assert(!is_digit(t[i - lo]));
                assert(!all_digits(t));
            }
            return None;
        }
        let d = (b - 48) as u128;
        let next = acc * 10 + d;
        proof {
            lemma_dec_value_push(t.subrange(0, i - lo), b);
            assert(t.subrange(0, i - lo).push(b) =~= t.subrange(0, i - lo + 1));
        }
        if next > u64::MAX as u128 {
            proof {
                assert(dec_value(t.subrange(0, i - lo + 1)) == acc * 10 + ((b - 48) as nat));
                if all_digits(t) {
                    lemma_dec_value_prefix_le(t, i - lo + 1);
                    assert(dec_value(t) > u64::MAX);
                }
            }
            return None;
        }
        acc = next;
        i = i + 1;
    }
    proof {
        assert(t.subrange(0, hi - lo) =~= t);
    }
    Some(acc as u64)
}

/// `spec_parse_u64` further restricted to `u8`.
pub open spec fn spec_parse_u8(s: Seq<u8>) -> Option<u8> {
    match spec_parse_num(s) {
        Some(v) => if v <= u8::MAX {
            Some(v as u8)
        } else {
            None
        },
        None => None,
    }
}

pub fn parse_u8(s: &[u8]) -> (r: Option<u8>)
    ensures
        r == spec_parse_u8(s@),
{
    match parse_u64(s) {
        Some(v) => if v <= u8::MAX as u64 {
            Some(v as u8)
        } else {
            None
        },
        None => None,
    }
}

/// `spec_parse_u64` further restricted to `usize`.
pub open spec fn spec_parse_usize(s: Seq<u8>) -> Option<usize> {
    match spec_parse_num(s) {
        Some(v) => if v <= usize::MAX {
            Some(v as usize)
        } else {
            None
        },
        None => None,
    }
}

pub fn parse_usize(s: &[u8]) -> (r: Option<usize>)
    ensures
        r == spec_parse_usize(s@),
{
    match parse_u64(s) {
        Some(v) => if v <= usize::MAX as u64 {
            Some(v as usize)
        } else {
            None
        },
        None => None,
    }
}

/// The value of a signed numeric field: an optional hyphen directly before
/// the digits, within the `i64` range.
pub open spec fn spec_parse_i64(s: Seq<u8>) -> Option<i64> {
    let t = trim(s);
    if t.len() > 0 && t[0] == HYPHEN {
        let u = t.subrange(1, t.len() as int);
        if u.len() > 0 && all_digits(u) && dec_value(u) <= 9223372036854775808 {
            Some((-(dec_value(u) as int)) as i64)
        } else {
            None
        }
    } else {
        match spec_parse_num(s) {
            Some(v) => if v <= i64::MAX {
                Some(v as i64)
            } else {
                None
            },
            None => None,
        }
    }
}

/// Parses a signed numeric field.
pub fn parse_i64(s: &[u8]) -> (r: Option<i64>)
    ensures
        r == spec_parse_i64(s@),
{
    let (lo, hi) = trim_bounds(s);
    let ghost t = trim(s@);
    if lo == hi || s[lo] != HYPHEN {
        return match parse_u64(s) {
            Some(v) => if v <= i64::MAX as u64 {
                Some(v as i64)
            } else {
                None
            },
            None => None,
        };
    }
    let ghost u = t.subrange(1, t.len() as int);
    if lo + 1 == hi {
        proof {
            assert(u.len() == 0);
        }
        return None;
    }
    let mut acc: u128 = 0;
    let mut i = lo + 1;
    proof {
        assert(u =~= s@.subrange(lo + 1, hi as int));
        assert(u.subrange(0, 0) =~= Seq::<u8>::empty());
    }
    while i < hi
        invariant
            lo + 1 <= i <= hi <= s@.len(),
            lo + 1 < hi,
            t == s@.subrange(lo as int, hi as int),
            t == trim(s@),
            t[0] == HYPHEN,
            u == t.subrange(1, t.len() as int),
            u =~= s@.subrange(lo + 1, hi as int),
            all_digits(u.subrange(0, i - (lo + 1))),
            acc == dec_value(u.subrange(0, i - (lo + 1))),
            acc <= 9223372036854775808,
        decreases hi - i,
    {
        let b = s[i];
        if b < 48 || b > 57 {
            proof {
                assert(u[i - (lo + 1)] == b);
                assert(!all_digits(u));
            }
            return None;
        }
        let d = (b - 48) as u128;
        let next = acc * 10 + d;
        proof {
            lemma_dec_value_push(u.subrange(0, i - (lo + 1)), b);
            assert(u.subrange(0, i - (lo + 1)).push(b) =~= u.subrange(0, i - (lo + 1) + 1));
        }
        if next > 9223372036854775808u128 {
            proof {
                assert(dec_value(u.subrange(0, i - (lo + 1) + 1)) == acc * 10 + ((b - 48) as nat));
                if all_digits(u) {
                    lemma_dec_value_prefix_le(u, i - (lo + 1) + 1);
                    assert(dec_value(u) > 9223372036854775808);
                }
            }
            return None;
        }
        acc = next;
        i = i + 1;
    }
    proof {
        assert(u.subrange(0, hi - (lo + 1)) =~= u);
    }
    if acc == 9223372036854775808u128 {
        Some(i64::MIN)
    } else {
        Some(-(acc as i64))
    }
}

// ---------------------------------------------------------------------------
// Copying a range of a byte slice
// ---------------------------------------------------------------------------

pub fn copy_range(s: &[u8], a: usize, b: usize) -> (r: Vec<u8>)
    requires
        a <= b <= s@.len(),
    ensures
        r@ == s@.subrange(a as int, b as int),
{
    let mut r: Vec<u8> = Vec::new();
    let mut i = a;
    while i < b
        invariant
            a <= i <= b <= s@.len(),
            r@ == s@.subrange(a as int, i as int),
        decreases b - i,
    {
        r.push(s[i]);
        proof {
            assert(r@ =~= s@.subrange(a as int, i + 1));
        }
        i = i + 1;
    }
    r
}

// ---------------------------------------------------------------------------
// Quoted string fields
// ---------------------------------------------------------------------------

pub open spec fn quote_free(s: Seq<u8>) -> bool {
    forall|i: int| 0 <= i < s.len() ==> (#[trigger] s[i]) != QUOTE
}

/// The rendering of a string field: the bytes between double quotes.
pub open spec fn quoted(s: Seq<u8>) -> Seq<u8> {
    seq![QUOTE] + s + seq![QUOTE]
}

/// The content of a string field: the field trimmed of surrounding spaces
/// must open and close with a double quote, with none in between.
pub open spec fn spec_parse_quoted(s: Seq<u8>) -> Option<Seq<u8>> {
    let t = trim(s);
    if t.len() >= 2 && t[0] == QUOTE && t.last() == QUOTE && quote_free(
        t.subrange(1, t.len() - 1),
    ) {
        Some(t.subrange(1, t.len() - 1))
    } else {
        None
    }
}

pub fn parse_quoted(s: &[u8]) -> (r: Option<Vec<u8>>)
    ensures
        match r {
            Some(v) => spec_parse_quoted(s@) == Some(v@),
            None => spec_parse_quoted(s@) is None,
        },
{
    let (lo, hi) = trim_bounds(s);
    let ghost t = trim(s@);
    if hi - lo < 2 {
        return None;
    }
    if s[lo] != QUOTE || s[hi - 1] != QUOTE {
        return None;
    }
    let mut i = lo + 1;
    while i < hi - 1
        invariant
            lo + 1 <= i <= hi - 1,
            hi <= s@.len(),
            t == s@.subrange(lo as int, hi as int),
            t == trim(s@),
            forall|k: int| lo + 1 <= k < i ==> s@[k] != QUOTE,
        decreases hi - i,
    {
        if s[i] == QUOTE {
            proof {
                assert(t.subrange(1, t.len() - 1)[i - lo - 1] == QUOTE);
            }
            return None;
        }
        i = i + 1;
    }
    let v = copy_range(s, lo + 1, hi - 1);
    proof {
        assert(v@ =~= t.subrange(1, t.len() - 1));
        assert(forall|k: int|
            0 <= k < t.len() - 2 ==> #[trigger] t.subrange(1, t.len() - 1)[k] == s@[lo + 1 + k]);
    }
    Some(v)
}

/// Pushes `s` as a quoted string field.
pub fn push_quoted(out: &mut Vec<u8>, s: &[u8])
    ensures
        final(out)@ == old(out)@ + quoted(s@),
{
    out.push(QUOTE);
    let mut i: usize = 0;
    while i < s.len()
        invariant
            0 <= i <= s@.len(),
            out@ == old(out)@ + seq![QUOTE] + s@.subrange(0, i as int),
        decreases s@.len() - i,
    {
        out.push(s[i]);
        proof {
            assert(out@ =~= old(out)@ + seq![QUOTE] + s@.subrange(0, i + 1));
        }
        i = i + 1;
    }
    out.push(QUOTE);
    proof {
        assert(out@ =~= old(out)@ + quoted(s@));
    }
}

// ---------------------------------------------------------------------------
// Top-level field splitting
// ---------------------------------------------------------------------------

/// The fields of `s[i..]` given the current quote state and the bytes of the
/// field under construction: a comma outside quotes ends a field, every other
/// byte (quotes included) belongs to the field it occurs in.
pub open spec fn fields_from(s: Seq<u8>, i: int, inq: bool, cur: Seq<u8>) -> Seq<Seq<u8>>
    decreases s.len() - i,
{
    if i < 0 || i >= s.len() {
        seq![cur]
    } else if s[i] == COMMA && !inq {
        seq![cur] + fields_from(s, i + 1, false, seq![])
    } else if s[i] == QUOTE {
        fields_from(s, i + 1, !inq, cur.push(s[i]))
    } else {
        fields_from(s, i + 1, inq, cur.push(s[i]))
    }
}

/// The comma-separated fields of a line, with commas inside double quotes
/// belonging to their field. Every line has at least one field; an empty
/// line has exactly one empty field.
pub open spec fn spec_fields(s: Seq<u8>) -> Seq<Seq<u8>> {
    fields_from(s, 0, false, Seq::<u8>::empty())
}

pub fn split_fields(s: &[u8]) -> (r: Vec<Vec<u8>>)
    ensures
        r@.len() == spec_fields(s@).len(),
        forall|k: int| 0 <= k < r@.len() ==> (#[trigger] r@[k])@ == spec_fields(s@)[k],
        r@.len() >= 1,
{
    let mut done: Vec<Vec<u8>> = Vec::new();
    let ghost mut dv: Seq<Seq<u8>> = Seq::empty();
    let mut cur: Vec<u8> = Vec::new();
    let mut inq = false;
    let mut i: usize = 0;
    while i < s.len()
        invariant
            0 <= i <= s@.len(),
            done@.len() == dv.len(),
            forall|k: int| 0 <= k < dv.len() ==> (#[trigger] done@[k])@ == dv[k],
            spec_fields(s@) == dv + fields_from(s@, i as int, inq, cur@),
        decreases s@.len() - i,
    {
        let b = s[i];
        if b == COMMA && !inq {
            let ghost rest = fields_from(s@, i + 1, false, Seq::<u8>::empty());
            let finished = cur;
            proof {
                assert(dv + (seq![finished@] + rest) =~= dv.push(finished@) + rest);
            }
            done.push(finished);
            cur = Vec::new();
            proof {
                dv = dv.push(finished@);
            }
        } else if b == QUOTE {
            cur.push(b);
            inq = !inq;
        } else {
            cur.push(b);
        }
        i = i + 1;
    }
    let finished = cur;
    proof {
        assert(dv + seq![finished@] =~= dv.push(finished@));
    }
    done.push(finished);
    done
}

// ---------------------------------------------------------------------------
// Prefix recognition
// ---------------------------------------------------------------------------

pub open spec fn starts_with(s: Seq<u8>, p: Seq<u8>) -> bool {
    s.len() >= p.len() && s.subrange(0, p.len() as int) == p
}

pub fn slice_starts_with(s: &[u8], p: &[u8]) -> (b: bool)
    ensures
        b == starts_with(s@, p@),
{
    if s.len() < p.len() {
        return false;
    }
    let mut i: usize = 0;
    while i < p.len()
        invariant
            0 <= i <= p@.len() <= s@.len(),
            forall|k: int| 0 <= k < i ==> s@[k] == p@[k],
        decreases p@.len() - i,
    {
        if s[i] != p[i] {
            proof {
                assert(s@.subrange(0, p@.len() as int)[i as int] == s@[i as int]);
            }
            return false;
        }
        i = i + 1;
    }
    proof {
        assert(s@.subrange(0, p@.len() as int) =~= p@);
    }
    true
}

// ---------------------------------------------------------------------------
// Reply-line prefix
// ---------------------------------------------------------------------------

/// The index of the first occurrence of `b` in `s` at or after `i`, or -1.
pub open spec fn find_byte(s: Seq<u8>, b: u8, i: int) -> int
    decreases s.len() - i,
{
    if i < 0 || i >= s.len() {
        -1
    } else if s[i] == b {
        i
    } else {
        find_byte(s, b, i + 1)
    }
}

pub proof fn lemma_find_byte_props(s: Seq<u8>, b: u8, i: int)
    requires
        0 <= i <= s.len(),
    ensures
        find_byte(s, b, i) == -1 || find_byte(s, b, i) >= i,
        find_byte(s, b, i) == -1 ==> forall|k: int| i <= k < s.len() ==> s[k] != b,
        find_byte(s, b, i) >= 0 ==> i <= find_byte(s, b, i) < s.len() && s[find_byte(s, b, i)]
            == b && forall|k: int| i <= k < find_byte(s, b, i) ==> s[k] != b,
    decreases s.len() - i,
{
    if i < s.len() && s[i] != b {
        lemma_find_byte_props(s, b, i + 1);
    }
}

/// The payload of a reply line: the bytes after a leading `+<TOKEN>:` prefix,
/// or the whole line when the line does not open with `+` or has no colon.
pub open spec fn spec_payload(s: Seq<u8>) -> Seq<u8> {
    let j = find_byte(s, COLON, 0);
    if s.len() > 0 && s[0] == PLUS && j >= 0 {
        s.subrange(j + 1, s.len() as int)
    } else {
        s
    }
}

pub fn payload(s: &[u8]) -> (r: Vec<u8>)
    ensures
        r@ == spec_payload(s@),
{
    if s.len() == 0 || s[0] != PLUS {
        return copy_range(s, 0, s.len());
    }
    let mut j: usize = 0;
    while j < s.len() && s[j] != COLON
        invariant
            0 <= j <= s@.len(),
            forall|k: int| 0 <= k < j ==> s@[k] != COLON,
        decreases s@.len() - j,
    {
        j = j + 1;
    }
    proof {
        lemma_find_byte_skip(s@, COLON, 0, j as int);
    }
    if j == s.len() {
        copy_range(s, 0, s.len())
    } else {
        copy_range(s, j + 1, s.len())
    }
}

proof fn lemma_find_byte_skip(s: Seq<u8>, b: u8, i: int, j: int)
    requires
        0 <= i <= j <= s.len(),
        forall|k: int| i <= k < j ==> s[k] != b,
    ensures
        find_byte(s, b, i) == find_byte(s, b, j),
    decreases j - i,
{
    if i < j {
        lemma_find_byte_skip(s, b, i + 1, j);
    }
}

// ---------------------------------------------------------------------------
// Field-splitting lemmas for whole lines
// ---------------------------------------------------------------------------

/// Scanning a comma-free, quote-free stretch only extends the current field.
pub proof fn lemma_fields_plain(s: Seq<u8>, i: int, j: int, cur: Seq<u8>)
    requires
        0 <= i <= j <= s.len(),
        forall|k: int| i <= k < j ==> s[k] != COMMA && s[k] != QUOTE,
    ensures
        fields_from(s, i, false, cur) == fields_from(s, j, false, cur + s.subrange(i, j)),
    decreases j - i,
{
    if i == j {
        assert(cur + s.subrange(i, j) =~= cur);
    } else {
        lemma_fields_plain(s, i + 1, j, cur.push(s[i]));
        assert(cur.push(s[i]) + s.subrange(i + 1, j) =~= cur + s.subrange(i, j));
    }
}

proof fn lemma_fields_inq(s: Seq<u8>, i: int, j: int, cur: Seq<u8>)
    requires
        0 <= i <= j <= s.len(),
        forall|k: int| i <= k < j ==> s[k] != QUOTE,
    ensures
        fields_from(s, i, true, cur) == fields_from(s, j, true, cur + s.subrange(i, j)),
    decreases j - i,
{
    if i == j {
        assert(cur + s.subrange(i, j) =~= cur);
    } else {
        lemma_fields_inq(s, i + 1, j, cur.push(s[i]));
        assert(cur.push(s[i]) + s.subrange(i + 1, j) =~= cur + s.subrange(i, j));
    }
}

/// Scanning a whole quoted region (both quotes included, no quote between)
/// only extends the current field, commas inside included.
pub proof fn lemma_fields_quoted(s: Seq<u8>, i: int, j: int, cur: Seq<u8>)
    requires
        0 <= i,
        i + 2 <= j <= s.len(),
        s[i] == QUOTE,
        s[j - 1] == QUOTE,
        forall|k: int| i < k < j - 1 ==> s[k] != QUOTE,
    ensures
        fields_from(s, i, false, cur) == fields_from(s, j, false, cur + s.subrange(i, j)),
{
    assert(fields_from(s, i, false, cur) == fields_from(s, i + 1, true, cur.push(QUOTE)));
    lemma_fields_inq(s, i + 1, j - 1, cur.push(QUOTE));
    let mid = cur.push(QUOTE) + s.subrange(i + 1, j - 1);
    assert(fields_from(s, j - 1, true, mid) == fields_from(s, j, false, mid.push(QUOTE)));
    assert(mid.push(QUOTE) =~= cur + s.subrange(i, j));
}

/// Reaching the end of the line finishes the last field.
pub proof fn lemma_fields_end(s: Seq<u8>, cur: Seq<u8>)
    ensures
        fields_from(s, s.len() as int, false, cur) == seq![cur],
{
}

} // verus!
