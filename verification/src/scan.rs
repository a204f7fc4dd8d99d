//! Character-level scanning over the expression text: character classes,
//! fixed-token lookahead, whitespace and digit runs, and the numeric value
//! of a run of decimal digits.

use vstd::prelude::*;
use vstd::string::StrSliceExecFns;

verus! {

// ---------- character classes ----------

pub open spec fn is_space_char(c: char) -> bool {
    c == ' ' || c == '\t' || c == '\n' || c == '\r'
}

pub open spec fn is_digit_char(c: char) -> bool {
    48 <= c as int && c as int <= 57
}

/// Characters allowed in an identifier: ASCII letters, `.` and `_`.
pub open spec fn is_ident_char(c: char) -> bool {
    (65 <= c as int && c as int <= 90) || (97 <= c as int && c as int <= 122) || c == '.'
        || c == '_'
}

pub(crate) fn digit_char(c: char) -> (r: bool)
    ensures
        r == is_digit_char(c),
{
    let u = c as u32;
    48 <= u && u <= 57
}

pub(crate) fn ident_char(c: char) -> (r: bool)
    ensures
        r == is_ident_char(c),
{
    let u = c as u32;
    (65 <= u && u <= 90) || (97 <= u && u <= 122) || c == '.' || c == '_'
}

// ---------- fixed-token lookahead ----------

pub open spec fn lit1_at(s: Seq<char>, pos: int, c: char) -> bool {
    0 <= pos && pos + 1 <= s.len() && s[pos] == c
}

pub open spec fn lit2_at(s: Seq<char>, pos: int, c0: char, c1: char) -> bool {
    0 <= pos && pos + 2 <= s.len() && s[pos] == c0 && s[pos + 1] == c1
}

/// The exact token `true` starts at `pos` (with no word-boundary check,
/// so it also fires on a longer word such as `truex`).
pub open spec fn lit_true_at(s: Seq<char>, pos: int) -> bool {
    0 <= pos && pos + 4 <= s.len() && s[pos] == 't' && s[pos + 1] == 'r' && s[pos + 2] == 'u'
        && s[pos + 3] == 'e'
}

/// The exact token `false` starts at `pos`.
pub open spec fn lit_false_at(s: Seq<char>, pos: int) -> bool {
    0 <= pos && pos + 5 <= s.len() && s[pos] == 'f' && s[pos + 1] == 'a' && s[pos + 2] == 'l'
        && s[pos + 3] == 's' && s[pos + 4] == 'e'
}

pub(crate) fn has_lit1(s: &str, pos: usize, c: char) -> (r: bool)
    requires
        pos <= s@.len(),
    ensures
        r == lit1_at(s@, pos as int, c),
{
    let n = s.unicode_len();
    pos < n && s.get_char(pos) == c
}

pub(crate) fn has_lit2(s: &str, pos: usize, c0: char, c1: char) -> (r: bool)
    requires
        pos <= s@.len(),
    ensures
        r == lit2_at(s@, pos as int, c0, c1),
{
    let n = s.unicode_len();
    pos < n && s.get_char(pos) == c0 && pos + 1 < n && s.get_char(pos + 1) == c1
}

pub(crate) fn has_true(s: &str, pos: usize) -> (r: bool)
    requires
        pos <= s@.len(),
    ensures
        r == lit_true_at(s@, pos as int),
{
    let n = s.unicode_len();
    pos < n && s.get_char(pos) == 't' && pos + 1 < n && s.get_char(pos + 1) == 'r' && pos + 2 < n
        && s.get_char(pos + 2) == 'u' && pos + 3 < n && s.get_char(pos + 3) == 'e'
}

pub(crate) fn has_false(s: &str, pos: usize) -> (r: bool)
    requires
        pos <= s@.len(),
    ensures
        r == lit_false_at(s@, pos as int),
{
    let n = s.unicode_len();
    pos < n && s.get_char(pos) == 'f' && pos + 1 < n && s.get_char(pos + 1) == 'a' && pos + 2 < n
        && s.get_char(pos + 2) == 'l' && pos + 3 < n && s.get_char(pos + 3) == 's' && pos + 4 < n
        && s.get_char(pos + 4) == 'e'
}

// ---------- whitespace and character runs ----------

/// First position at or after `pos` that does not hold whitespace.
pub open spec fn spec_skip_ws(s: Seq<char>, pos: int) -> int
    decreases s.len() - pos,
    when 0 <= pos <= s.len()
{
    if pos < s.len() && is_space_char(s[pos]) {
        spec_skip_ws(s, pos + 1)
    } else {
        pos
    }
}

/// End of the run of decimal digits starting at `pos`.
pub open spec fn spec_scan_digits(s: Seq<char>, pos: int) -> int
    decreases s.len() - pos,
    when 0 <= pos <= s.len()
{
    if pos < s.len() && is_digit_char(s[pos]) {
        spec_scan_digits(s, pos + 1)
    } else {
        pos
    }
}

/// End of the run of identifier characters starting at `pos`.
pub open spec fn spec_scan_ident(s: Seq<char>, pos: int) -> int
    decreases s.len() - pos,
    when 0 <= pos <= s.len()
{
    if pos < s.len() && is_ident_char(s[pos]) {
        spec_scan_ident(s, pos + 1)
    } else {
        pos
    }
}

/// End of the run of non-quote characters starting at `pos` (the body of a
/// single-quoted string literal).
pub open spec fn spec_scan_string_body(s: Seq<char>, pos: int) -> int
    decreases s.len() - pos,
    when 0 <= pos <= s.len()
{
    if pos < s.len() && s[pos] != '\'' {
        spec_scan_string_body(s, pos + 1)
    } else {
        pos
    }
}

pub proof fn lemma_scan_digits_props(s: Seq<char>, pos: int)
    requires
        0 <= pos <= s.len(),
    ensures
        pos <= spec_scan_digits(s, pos) <= s.len(),
        forall|i: int| pos <= i < spec_scan_digits(s, pos) ==> is_digit_char(s[i]),
        spec_scan_digits(s, pos) == s.len() || !is_digit_char(s[spec_scan_digits(s, pos)]),
    decreases s.len() - pos,
{
    if pos < s.len() && is_digit_char(s[pos]) {
        lemma_scan_digits_props(s, pos + 1);
    }
}

pub(crate) fn skip_ws(s: &str, pos: usize) -> (r: usize)
    requires
        pos <= s@.len(),
    ensures
        r == spec_skip_ws(s@, pos as int),
        pos <= r <= s@.len(),
    decreases s@.len() - pos,
{
    let n = s.unicode_len();
    if pos < n {
        let c = s.get_char(pos);
        if c == ' ' || c == '\t' || c == '\n' || c == '\r' {
            return skip_ws(s, pos + 1);
        }
    }
    pos
}

pub(crate) fn scan_digits(s: &str, pos: usize) -> (r: usize)
    requires
        pos <= s@.len(),
    ensures
        r == spec_scan_digits(s@, pos as int),
        pos <= r <= s@.len(),
    decreases s@.len() - pos,
{
    let n = s.unicode_len();
    if pos < n && digit_char(s.get_char(pos)) {
        return scan_digits(s, pos + 1);
    }
    pos
}

pub(crate) fn scan_ident(s: &str, pos: usize) -> (r: usize)
    requires
        pos <= s@.len(),
    ensures
        r == spec_scan_ident(s@, pos as int),
        pos <= r <= s@.len(),
    decreases s@.len() - pos,
{
    let n = s.unicode_len();
    if pos < n && ident_char(s.get_char(pos)) {
        return scan_ident(s, pos + 1);
    }
    pos
}

pub(crate) fn scan_string_body(s: &str, pos: usize) -> (r: usize)
    requires
        pos <= s@.len(),
    ensures
        r == spec_scan_string_body(s@, pos as int),
        pos <= r <= s@.len(),
    decreases s@.len() - pos,
{
    let n = s.unicode_len();
    if pos < n && s.get_char(pos) != '\'' {
        return scan_string_body(s, pos + 1);
    }
    pos
}

// ---------- numeric value of a digit run ----------

pub open spec fn all_digits(s: Seq<char>) -> bool {
    forall|i: int| 0 <= i < s.len() ==> is_digit_char(s[i])
}

/// The number denoted by a run of decimal digits, most significant first.
pub open spec fn digit_seq_val(s: Seq<char>) -> int
    decreases s.len(),
{
    if s.len() == 0 {
        0
    } else {
        digit_seq_val(s.drop_last()) * 10 + (s.last() as int - 48)
    }
}

pub open spec fn pow10(n: nat) -> int
    decreases n,
{
    if n == 0 {
        1
    } else {
        10 * pow10((n - 1) as nat)
    }
}

pub proof fn lemma_pow10_pos(n: nat)
    ensures
        pow10(n) >= 1,
    decreases n,
{
    if n > 0 {
        lemma_pow10_pos((n - 1) as nat);
    }
}

pub proof fn lemma_pow10_mono(a: nat, b: nat)
    requires
        a <= b,
    ensures
        pow10(a) <= pow10(b),
    decreases b,
{
    if a < b {
        lemma_pow10_mono(a, (b - 1) as nat);
        lemma_pow10_pos(a);
    }
}

pub proof fn lemma_pow10_18()
    ensures
        pow10(18) == 1_000_000_000_000_000_000int,
{
    reveal_with_fuel(pow10, 19);
}

pub proof fn lemma_digit_seq_val_bounds(s: Seq<char>)
    requires
        all_digits(s),
    ensures
        0 <= digit_seq_val(s) < pow10(s.len()),
    decreases s.len(),
{
    if s.len() > 0 {
        assert(all_digits(s.drop_last()));
        lemma_digit_seq_val_bounds(s.drop_last());
    }
}

/// Extending a digit run to the right can only increase its value:
/// the value of the whole run is at least the value of a prefix shifted
/// by the number of remaining digits.
pub proof fn lemma_digit_seq_val_prefix(s: Seq<char>, k: int)
    requires
        all_digits(s),
        0 <= k <= s.len(),
    ensures
        digit_seq_val(s) >= digit_seq_val(s.subrange(0, k)) * pow10((s.len() - k) as nat),
    decreases s.len() - k,
{
    if k == s.len() {
        assert(s.subrange(0, k) =~= s);
        lemma_pow10_pos(0);
    } else {
        let dl = s.drop_last();
        assert(all_digits(dl));
        lemma_digit_seq_val_prefix(dl, k);
        assert(dl.subrange(0, k) =~= s.subrange(0, k));
        let p = digit_seq_val(s.subrange(0, k));
        let m = (dl.len() - k) as nat;
        lemma_digit_seq_val_bounds(s.subrange(0, k));
        lemma_pow10_pos(m);
        assert(digit_seq_val(dl) * 10 >= (p * pow10(m)) * 10) by (nonlinear_arith)
            requires
                digit_seq_val(dl) >= p * pow10(m),
        ;
        assert((p * pow10(m)) * 10 == p * (10 * pow10(m))) by (nonlinear_arith);
        assert(s.last() as int - 48 >= 0);
    }
}

/// Concatenating digit runs: the combined value is the left value shifted
/// by the length of the right run, plus the right value.
pub proof fn lemma_digit_seq_val_concat(a: Seq<char>, b: Seq<char>)
    ensures
        digit_seq_val(a + b) == digit_seq_val(a) * pow10(b.len()) + digit_seq_val(b),
    decreases b.len(),
{
    if b.len() == 0 {
        assert(a + b =~= a);
    } else {
        let bd = b.drop_last();
        lemma_digit_seq_val_concat(a, bd);
        assert((a + b).drop_last() =~= a + bd);
        assert((a + b).last() == b.last());
        let va = digit_seq_val(a);
        let p = pow10(bd.len());
        assert((va * p + digit_seq_val(bd)) * 10 == va * (10 * p) + digit_seq_val(bd) * 10)
            by (nonlinear_arith);
    }
}

/// Largest value of `acc` for which `acc * 10 + 9` still fits in an `i64`.
pub(crate) const ACC_LIMIT: i64 = 922_337_203_685_477_580;

/// Reads the digits of `s` in `[from, to)` as an `i64`, most significant
/// first; reports `None` exactly when the denoted number exceeds `i64::MAX`.
pub(crate) fn parse_digits_i64(s: &str, from: usize, to: usize) -> (r: Option<i64>)
    requires
        from <= to <= s@.len(),
        forall|i: int| from <= i < to ==> is_digit_char(s@[i]),
    ensures
        ({
            let v = digit_seq_val(s@.subrange(from as int, to as int));
            match r {
                Some(x) => x == v && v <= i64::MAX,
                None => v > i64::MAX,
            }
        }),
{
    let mut acc: i64 = 0;
    let mut i: usize = from;
    while i < to
        invariant
            from <= i <= to <= s@.len(),
            forall|k: int| from <= k < to ==> is_digit_char(s@[k]),
            acc == digit_seq_val(s@.subrange(from as int, i as int)),
            0 <= acc,
        decreases to - i,
    {
        let c = s.get_char(i);
        let d = (c as u32) - 48;
        let d64 = d as i64;
        let ghost pre = s@.subrange(from as int, i as int);
        let ghost cur = s@.subrange(from as int, i as int + 1);
        proof {
            assert(cur.drop_last() =~= pre);
            assert(cur.last() == s@[i as int]);
        }
        if acc > ACC_LIMIT || (acc == ACC_LIMIT && d64 > 7) {
            proof {
                let ds = s@.subrange(from as int, to as int);
                assert(all_digits(ds));
                assert(cur =~= ds.subrange(0, i - from + 1));
                lemma_digit_seq_val_prefix(ds, i - from + 1);
                let v1 = digit_seq_val(cur);
                let p = pow10((ds.len() - (i - from + 1)) as nat);
                lemma_pow10_pos((ds.len() - (i - from + 1)) as nat);
                assert(v1 * p >= v1) by (nonlinear_arith)
                    requires
                        v1 >= 0 && p >= 1,
                ;
            }
            return None;
        }
        acc = acc * 10 + d64;
        i = i + 1;
    }
    proof {
        assert(s@.subrange(from as int, to as int) =~= s@.subrange(from as int, i as int));
    }
    Some(acc)
}

} // verus!
