//! Decimal digit strings as mathematical numbers.
//!
//! Rule matching compares truncations of digit strings by their numeric
//! value.  The executable code never parses a digit string into a machine
//! integer (a bound string may be arbitrarily long); it compares two
//! equal-width digit strings character by character, which this module proves
//! agrees with comparing their numeric values.

use vstd::prelude::*;

verus! {

/// A decimal digit character.
pub open spec fn is_digit_char(c: char) -> bool {
    48 <= c as int && c as int <= 57
}

/// Every character of `s` is a decimal digit.
pub open spec fn all_digits(s: Seq<char>) -> bool {
    forall|i: int| 0 <= i < s.len() ==> is_digit_char(#[trigger] s[i])
}

/// The numeric value of a digit character.
pub open spec fn digit_val(c: char) -> nat {
    (c as int - 48) as nat
}

/// `10^n`.
pub open spec fn pow10(n: nat) -> nat
    decreases n,
{
    if n == 0 {
        1
    } else {
        10 * pow10((n - 1) as nat)
    }
}

/// The numeric value of a digit string, most significant digit first.
pub open spec fn digits_val(s: Seq<char>) -> nat
    decreases s.len(),
{
    if s.len() == 0 {
        0
    } else {
        digit_val(s[0]) * pow10((s.len() - 1) as nat) + digits_val(s.drop_first())
    }
}

pub proof fn lemma_pow10_add(m: nat, n: nat)
    ensures
        pow10(m + n) == pow10(m) * pow10(n),
    decreases m,
{
    if m == 0 {
        assert(pow10(0 + n) == 1 * pow10(n));
    } else {
        lemma_pow10_add((m - 1) as nat, n);
        assert(pow10(m + n) == 10 * pow10((m + n - 1) as nat));
        assert(pow10((m - 1) as nat + n) == pow10((m - 1) as nat) * pow10(n));
        assert(10 * (pow10((m - 1) as nat) * pow10(n)) == (10 * pow10((m - 1) as nat)) * pow10(n))
            by (nonlinear_arith);
    }
}

/// A digit string of length `n` has value below `10^n`.
pub proof fn lemma_digits_val_bound(s: Seq<char>)
    requires
        all_digits(s),
    ensures
        digits_val(s) < pow10(s.len()),
    decreases s.len(),
{
    if s.len() == 0 {
    } else {
        let t = s.drop_first();
        assert(all_digits(t)) by {
            assert(forall|i: int| 0 <= i < t.len() ==> #[trigger] t[i] == s[i + 1]);
        }
        lemma_digits_val_bound(t);
        let p = pow10((s.len() - 1) as nat);
        let d = digit_val(s[0]);
        assert(d <= 9);
        assert(d * p <= 9 * p) by (nonlinear_arith)
            requires
                d <= 9,
                p >= 0,
        ;
        assert(digits_val(s) == d * p + digits_val(t));
        assert(digits_val(s) < 9 * p + p);
        assert(pow10(s.len()) == 10 * p);
    }
}

/// Splitting a digit string at `k` splits its value.
pub proof fn lemma_digits_val_split(s: Seq<char>, k: int)
    requires
        0 <= k <= s.len(),
    ensures
        digits_val(s) == digits_val(s.subrange(0, k)) * pow10((s.len() - k) as nat) + digits_val(
            s.subrange(k, s.len() as int),
        ),
    decreases k,
{
    if k == 0 {
        assert(s.subrange(0, 0) =~= Seq::<char>::empty());
        assert(s.subrange(0, s.len() as int) =~= s);
        assert(digits_val(s.subrange(0, 0)) == 0);
    } else {
        let n = s.len() as int;
        let t = s.drop_first();
        lemma_digits_val_split(t, k - 1);
        assert(s.subrange(0, k).drop_first() =~= t.subrange(0, k - 1));
        assert(s.subrange(k, n) =~= t.subrange(k - 1, n - 1));
        let d = digit_val(s[0]);
        let head = s.subrange(0, k);
        assert(head[0] == s[0]);
        assert(head.len() == k);
        // value of the head part
        assert(digits_val(head) == d * pow10((k - 1) as nat) + digits_val(t.subrange(0, k - 1)));
        // put the pieces together
        let pk = pow10((k - 1) as nat);
        let pr = pow10((n - k) as nat);
        lemma_pow10_add((k - 1) as nat, (n - k) as nat);
        assert(pow10((n - 1) as nat) == pk * pr);
        assert(digits_val(s) == d * (pk * pr) + digits_val(t));
        assert(digits_val(t) == digits_val(t.subrange(0, k - 1)) * pr + digits_val(
            t.subrange(k - 1, n - 1),
        ));
        assert((d * pk + digits_val(t.subrange(0, k - 1))) * pr == d * (pk * pr) + digits_val(
            t.subrange(0, k - 1),
        ) * pr) by (nonlinear_arith);
    }
}

/// If two equal-width digit strings agree up to position `i` and differ there,
/// the one with the smaller digit at `i` has the smaller value.
pub proof fn lemma_digits_val_lt(a: Seq<char>, b: Seq<char>, i: int)
    requires
        a.len() == b.len(),
        all_digits(a),
        all_digits(b),
        0 <= i < a.len(),
        a.subrange(0, i) == b.subrange(0, i),
        digit_val(a[i]) < digit_val(b[i]),
    ensures
        digits_val(a) < digits_val(b),
    decreases i,
{
    let n = a.len() as int;
    if i == 0 {
        let ta = a.drop_first();
        let tb = b.drop_first();
        assert(all_digits(ta)) by {
            assert(forall|j: int| 0 <= j < ta.len() ==> #[trigger] ta[j] == a[j + 1]);
        }
        lemma_digits_val_bound(ta);
        let p = pow10((n - 1) as nat);
        let da = digit_val(a[0]);
        let db = digit_val(b[0]);
        assert(digits_val(a) == da * p + digits_val(ta));
        assert(digits_val(b) == db * p + digits_val(tb));
        assert(da * p + p <= db * p) by (nonlinear_arith)
            requires
                da < db,
                p >= 0,
        ;
    } else {
        let ta = a.drop_first();
        let tb = b.drop_first();
        assert(all_digits(ta)) by {
            assert(forall|j: int| 0 <= j < ta.len() ==> #[trigger] ta[j] == a[j + 1]);
        }
        assert(all_digits(tb)) by {
            assert(forall|j: int| 0 <= j < tb.len() ==> #[trigger] tb[j] == b[j + 1]);
        }
        assert(a[0] == b[0]) by {
            assert(a.subrange(0, i)[0] == a[0]);
            assert(b.subrange(0, i)[0] == b[0]);
        }
        assert(ta.subrange(0, i - 1) =~= tb.subrange(0, i - 1)) by {
            assert(forall|j: int|
                0 <= j < i - 1 ==> #[trigger] ta.subrange(0, i - 1)[j] == a.subrange(0, i)[j + 1]);
            assert(forall|j: int|
                0 <= j < i - 1 ==> #[trigger] tb.subrange(0, i - 1)[j] == b.subrange(0, i)[j + 1]);
        }
        assert(ta[i - 1] == a[i]);
        assert(tb[i - 1] == b[i]);
        lemma_digits_val_lt(ta, tb, i - 1);
    }
}

/// Any part of an all-digit string is all digits.
pub proof fn lemma_all_digits_subrange(s: Seq<char>, a: int, b: int)
    requires
        all_digits(s),
        0 <= a <= b <= s.len(),
    ensures
        all_digits(s.subrange(a, b)),
{
    assert(forall|j: int| 0 <= j < b - a ==> #[trigger] s.subrange(a, b)[j] == s[j + a]);
}

/// Truncating two equal-width digit strings to a common width preserves their
/// numeric order.
pub proof fn lemma_truncate_monotone(a: Seq<char>, b: Seq<char>, w: int)
    requires
        a.len() == b.len(),
        all_digits(a),
        all_digits(b),
        0 <= w <= a.len(),
        digits_val(a) <= digits_val(b),
    ensures
        digits_val(a.subrange(0, w)) <= digits_val(b.subrange(0, w)),
{
    let n = a.len() as int;
    lemma_digits_val_split(a, w);
    lemma_digits_val_split(b, w);
    let aw = a.subrange(0, w);
    let bw = b.subrange(0, w);
    let ar = a.subrange(w, n);
    let br = b.subrange(w, n);
    assert(all_digits(ar)) by {
        assert(forall|j: int| 0 <= j < ar.len() ==> #[trigger] ar[j] == a[j + w]);
    }
    assert(all_digits(br)) by {
        assert(forall|j: int| 0 <= j < br.len() ==> #[trigger] br[j] == b[j + w]);
    }
    lemma_digits_val_bound(ar);
    lemma_digits_val_bound(br);
    let p = pow10((n - w) as nat);
    if digits_val(aw) > digits_val(bw) {
        assert(digits_val(bw) * p + p <= digits_val(aw) * p) by (nonlinear_arith)
            requires
                digits_val(bw) < digits_val(aw),
                p >= 0,
        ;
        assert(digits_val(b) < digits_val(bw) * p + p);
        assert(false);
    }
}

/// Whether every character of `s` is a decimal digit.
pub fn str_all_digits(s: &str) -> (r: bool)
    ensures
        r == all_digits(s@),
{
    let n = s.unicode_len();
    let mut i: usize = 0;
    while i < n
        invariant
            i <= n,
            n == s@.len(),
            forall|j: int| 0 <= j < i ==> is_digit_char(#[trigger] s@[j]),
        decreases n - i,
    {
        let c = s.get_char(i);
        let v = c as u32;
        if v < 48 || v > 57 {
            return false;
        }
        i += 1;
    }
    true
}

/// Whether the first `w` characters of `s` are all decimal digits.
pub fn prefix_all_digits(s: &str, w: usize) -> (r: bool)
    requires
        w <= s@.len(),
    ensures
        r == all_digits(s@.subrange(0, w as int)),
{
    let mut i: usize = 0;
    while i < w
        invariant
            i <= w <= s@.len(),
            forall|j: int| 0 <= j < i ==> is_digit_char(#[trigger] s@[j]),
        decreases w - i,
    {
        let c = s.get_char(i);
        let v = c as u32;
        if v < 48 || v > 57 {
            assert(!all_digits(s@.subrange(0, w as int))) by {
                assert(s@.subrange(0, w as int)[i as int] == s@[i as int]);
            }
            return false;
        }
        i += 1;
    }
    assert(forall|j: int|
        0 <= j < w ==> #[trigger] s@.subrange(0, w as int)[j] == s@[j]);
    true
}

/// Whether the first `w` characters of `a` and `b` coincide.
pub fn prefix_chars_eq(a: &str, b: &str, w: usize) -> (r: bool)
    requires
        w <= a@.len(),
        w <= b@.len(),
    ensures
        r == (a@.subrange(0, w as int) == b@.subrange(0, w as int)),
{
    let mut i: usize = 0;
    while i < w
        invariant
            i <= w <= a@.len(),
            w <= b@.len(),
            forall|j: int| 0 <= j < i ==> a@[j] == b@[j],
        decreases w - i,
    {
        if a.get_char(i) != b.get_char(i) {
            assert(a@.subrange(0, w as int)[i as int] != b@.subrange(0, w as int)[i as int]);
            return false;
        }
        i += 1;
    }
    assert(a@.subrange(0, w as int) =~= b@.subrange(0, w as int));
    true
}

/// Whether `a` and `b` hold the same characters.
pub fn str_eq(a: &str, b: &str) -> (r: bool)
    ensures
        r == (a@ == b@),
{
    let an = a.unicode_len();
    let bn = b.unicode_len();
    if an != bn {
        return false;
    }
    let r = prefix_chars_eq(a, b, an);
    proof {
        assert(a@.subrange(0, an as int) =~= a@);
        assert(b@.subrange(0, bn as int) =~= b@);
    }
    r
}

/// Whether, read as numbers, the first `w` digits of `a` are at most the
/// first `w` digits of `b`.
pub fn le_digits_prefix(a: &str, b: &str, w: usize) -> (r: bool)
    requires
        w <= a@.len(),
        w <= b@.len(),
        all_digits(a@.subrange(0, w as int)),
        all_digits(b@.subrange(0, w as int)),
    ensures
        r == (digits_val(a@.subrange(0, w as int)) <= digits_val(b@.subrange(0, w as int))),
{
    let ghost aw = a@.subrange(0, w as int);
    let ghost bw = b@.subrange(0, w as int);
    let mut i: usize = 0;
    while i < w
        invariant
            i <= w <= a@.len(),
            w <= b@.len(),
            aw == a@.subrange(0, w as int),
            bw == b@.subrange(0, w as int),
            all_digits(aw),
            all_digits(bw),
            forall|j: int| 0 <= j < i ==> aw[j] == bw[j],
        decreases w - i,
    {
        let ca = a.get_char(i);
        let cb = b.get_char(i);
        proof {
            assert(aw[i as int] == a@[i as int]);
            assert(bw[i as int] == b@[i as int]);
            assert(aw.subrange(0, i as int) =~= bw.subrange(0, i as int));
        }
        if (ca as u32) < (cb as u32) {
            proof {
                lemma_digits_val_lt(aw, bw, i as int);
            }
            return true;
        }
        if (ca as u32) > (cb as u32) {
            proof {
                lemma_digits_val_lt(bw, aw, i as int);
            }
            return false;
        }
        i += 1;
    }
    proof {
        assert(aw =~= bw);
    }
    true
}

} // verus!
