//! Exact decimal text: validation and normalization of provider amounts,
//! comparison, and subtraction and addition of non-negative amounts, with no
//! binary floating point anywhere.
use vstd::prelude::*;
use crate::text::{
    index_of, lemma_index_of, lemma_utf8_len_le_4, lemma_index_of_is, lemma_index_of_none, is_digit,
    all_digits, byte_len, chars, digits_only, has_char, has_char_in, push_char, slice, split_once,
    split_or_whole, string_of, string_of_all, trim_end, trim_end_char, trim_start, trim_start_char,
    utf8_len, utf8_length,
};

verus! {

/// The text without a leading minus sign.
pub open spec fn unsigned_part(raw: Seq<char>) -> Seq<char> {
    if raw.len() > 0 && raw[0] == '-' {
        raw.drop_first()
    } else {
        raw
    }
}

pub open spec fn is_negative_text(raw: Seq<char>) -> bool {
    raw.len() > 0 && raw[0] == '-'
}

/// Whole and fractional digits of an unsigned decimal text (`split_once('.')`,
/// or the whole text and no fraction).
pub open spec fn whole_of(s: Seq<char>) -> Seq<char> {
    match split_once(s, '.') {
        Some((w, _)) => w,
        None => s,
    }
}

pub open spec fn fraction_of(s: Seq<char>) -> Seq<char> {
    match split_once(s, '.') {
        Some((_, f)) => f,
        None => Seq::empty(),
    }
}

/// A decimal text that the exact normalization accepts: an optional minus
/// sign, at least one whole digit, and optionally a point followed by at
/// least one digit; at most 128 bytes.
pub open spec fn decimal_accepts(raw: Seq<char>) -> bool {
    let s = unsigned_part(raw);
    &&& raw.len() > 0
    &&& utf8_len(raw) <= 128
    &&& whole_of(s).len() > 0
    &&& all_digits(whole_of(s))
    &&& all_digits(fraction_of(s))
    &&& (has_char(s, '.') ==> fraction_of(s).len() > 0)
}

/// Whole digits without leading zeros, or a single zero.
pub open spec fn trimmed_whole(w: Seq<char>) -> Seq<char> {
    if trim_start(w, '0').len() == 0 {
        seq!['0']
    } else {
        trim_start(w, '0')
    }
}

/// The normal form of an accepted decimal text: no leading zeros, no trailing
/// fractional zeros, no point without digits after it, and no negative zero.
pub open spec fn decimal_normal(raw: Seq<char>) -> Seq<char> {
    let s = unsigned_part(raw);
    let w = trimmed_whole(whole_of(s));
    let f = trim_end(fraction_of(s), '0');
    let sign = if is_negative_text(raw) && (w != seq!['0'] || f.len() > 0) {
        seq!['-']
    } else {
        Seq::<char>::empty()
    };
    let point = if f.len() == 0 {
        Seq::<char>::empty()
    } else {
        seq!['.']
    };
    sign + w + point + f
}

/// Numeric value of one decimal digit.
pub open spec fn digit_value(c: char) -> int {
    c as int - 48
}

/// Value of a digit string read in base ten.
pub open spec fn digits_value(d: Seq<char>) -> int
    decreases d.len(),
{
    if d.len() == 0 {
        0
    } else {
        digits_value(d.drop_last()) * 10 + digit_value(d.last())
    }
}

pub open spec fn pow10(n: nat) -> int
    decreases n,
{
    if n == 0 {
        1
    } else {
        10 * pow10((n - 1) as nat)
    }
}

/// Value of an unsigned decimal text times ten to the number of its
/// fractional digits.
pub open spec fn units(s: Seq<char>) -> int {
    digits_value(whole_of(s) + fraction_of(s))
}

/// Number of fractional digits of an unsigned decimal text.
pub open spec fn scale(s: Seq<char>) -> nat {
    fraction_of(s).len()
}

/// Signed value of a decimal text times ten to its scale.
pub open spec fn signed_units(t: Seq<char>) -> int {
    if is_negative_text(t) {
        -units(unsigned_part(t))
    } else {
        units(unsigned_part(t))
    }
}

/// Two decimal texts denote the same number.
pub open spec fn same_value(a: Seq<char>, b: Seq<char>) -> bool {
    signed_units(a) * pow10(scale(unsigned_part(b))) == signed_units(b) * pow10(
        scale(unsigned_part(a)),
    )
}

/// A decimal text in normal form: accepted, without redundant zeros, and not
/// a negative zero.
pub open spec fn is_canonical(t: Seq<char>) -> bool {
    let s = unsigned_part(t);
    let w = whole_of(s);
    let f = fraction_of(s);
    &&& w.len() > 0
    &&& all_digits(w)
    &&& all_digits(f)
    &&& (has_char(s, '.') ==> f.len() > 0)
    &&& (w.len() > 1 ==> w[0] != '0')
    &&& (f.len() > 0 ==> f.last() != '0')
    &&& (is_negative_text(t) ==> !(w == seq!['0'] && f.len() == 0))
}

pub proof fn lemma_single_zero()
    ensures
        digits_value(seq!['0']) == 0,
{
    assert(digits_value(Seq::<char>::empty()) == 0);
    assert(seq!['0'].drop_last() =~= Seq::<char>::empty());
    assert(seq!['0'].last() == '0');
    assert(digit_value('0') == 0);
}

pub proof fn lemma_pow10_positive(n: nat)
    ensures
        pow10(n) >= 1,
    decreases n,
{
    if n > 0 {
        lemma_pow10_positive((n - 1) as nat);
    }
}

pub proof fn lemma_pow10_add(a: nat, b: nat)
    ensures
        pow10(a + b) == pow10(a) * pow10(b),
    decreases b,
{
    if b > 0 {
        lemma_pow10_add(a, (b - 1) as nat);
        assert(pow10(a + b) == 10 * pow10((a + b - 1) as nat));
        assert(pow10(a) * pow10(b) == pow10(a) * (10 * pow10((b - 1) as nat)));
        assert(pow10(a) * (10 * pow10((b - 1) as nat)) == 10 * (pow10(a) * pow10(
            (b - 1) as nat,
        ))) by (nonlinear_arith);
    }
}

pub proof fn lemma_digits_value_concat(a: Seq<char>, b: Seq<char>)
    ensures
        digits_value(a + b) == digits_value(a) * pow10(b.len()) + digits_value(b),
    decreases b.len(),
{
    if b.len() == 0 {
        assert(a + b =~= a);
    } else {
        let b1 = b.drop_last();
        lemma_digits_value_concat(a, b1);
        assert((a + b).drop_last() =~= a + b1);
        assert((a + b).last() == b.last());
        let x = digits_value(a);
        let p = pow10(b1.len());
        assert(pow10(b.len()) == 10 * p);
        assert((x * p + digits_value(b1)) * 10 + digit_value(b.last()) == x * (10 * p) + (
        digits_value(b1) * 10 + digit_value(b.last()))) by (nonlinear_arith);
    }
}

pub proof fn lemma_digits_value_bounds(d: Seq<char>)
    requires
        all_digits(d),
    ensures
        0 <= digits_value(d) < pow10(d.len()),
    decreases d.len(),
{
    if d.len() > 0 {
        let d1 = d.drop_last();
        assert(all_digits(d1)) by {
            assert forall|i: int| 0 <= i < d1.len() implies is_digit(d1[i]) by {
                assert(d1[i] == d[i]);
            }
        }
        lemma_digits_value_bounds(d1);
        assert(is_digit(d[d.len() - 1]));
        let x = digits_value(d1);
        let p = pow10(d1.len());
        assert(x * 10 + 9 < 10 * p) by (nonlinear_arith)
            requires
                x < p,
                0 <= x,
        ;
    }
}

/// Leading zeros do not change the value of a digit string.
pub proof fn lemma_digits_value_trim_start(d: Seq<char>)
    ensures
        digits_value(d) == digits_value(trim_start(d, '0')),
        d.len() >= trim_start(d, '0').len(),
        trim_start(d, '0').len() > 0 ==> trim_start(d, '0')[0] != '0',
        d =~= Seq::new((d.len() - trim_start(d, '0').len()) as nat, |i: int| '0') + trim_start(
            d,
            '0',
        ),
    decreases d.len(),
{
    if d.len() > 0 && d[0] == '0' {
        let rest = d.drop_first();
        lemma_digits_value_trim_start(rest);
        assert(d =~= seq!['0'] + rest);
        lemma_digits_value_concat(seq!['0'], rest);
        lemma_single_zero();
        let k = (rest.len() - trim_start(rest, '0').len()) as nat;
        assert(Seq::new((k + 1) as nat, |i: int| '0') =~= seq!['0'] + Seq::new(k, |i: int| '0'));
    } else {
        assert(Seq::new(0, |i: int| '0') + d =~= d);
    }
}

/// Trailing zeros multiply the value of a digit string by ten each.
pub proof fn lemma_trim_end_shape(d: Seq<char>)
    ensures
        d.len() >= trim_end(d, '0').len(),
        trim_end(d, '0').len() > 0 ==> trim_end(d, '0').last() != '0',
        d =~= trim_end(d, '0') + Seq::new((d.len() - trim_end(d, '0').len()) as nat, |i: int| '0'),
    decreases d.len(),
{
    if d.len() > 0 && d.last() == '0' {
        let rest = d.drop_last();
        lemma_trim_end_shape(rest);
        let k = (rest.len() - trim_end(rest, '0').len()) as nat;
        assert(Seq::new((k + 1) as nat, |i: int| '0') =~= Seq::new(k, |i: int| '0').push('0'));
        assert(d =~= rest.push('0'));
        assert(trim_end(d, '0') == trim_end(rest, '0'));
        assert(d =~= trim_end(rest, '0') + Seq::new((k + 1) as nat, |i: int| '0'));
    } else {
        assert(d + Seq::new(0, |i: int| '0') =~= d);
    }
}

pub proof fn lemma_zeros_value(k: nat)
    ensures
        digits_value(Seq::new(k, |i: int| '0')) == 0,
    decreases k,
{
    if k > 0 {
        lemma_zeros_value((k - 1) as nat);
        assert(Seq::new(k, |i: int| '0').drop_last() =~= Seq::new((k - 1) as nat, |i: int| '0'));
    }
}

pub proof fn lemma_all_digits_sub(d: Seq<char>, a: int, b: int)
    requires
        all_digits(d),
        0 <= a <= b <= d.len(),
    ensures
        all_digits(d.subrange(a, b)),
{
    assert forall|i: int| 0 <= i < b - a implies is_digit(d.subrange(a, b)[i]) by {
        assert(d.subrange(a, b)[i] == d[a + i]);
    }
}

pub proof fn lemma_all_digits_concat(a: Seq<char>, b: Seq<char>)
    requires
        all_digits(a),
        all_digits(b),
    ensures
        all_digits(a + b),
{
    assert forall|i: int| 0 <= i < (a + b).len() implies is_digit((a + b)[i]) by {
        if i < a.len() {
            assert((a + b)[i] == a[i]);
        } else {
            assert((a + b)[i] == b[i - a.len()]);
        }
    }
}

/// Splitting digits, a point and digits at the point gives back both parts.
pub proof fn lemma_split_point(w: Seq<char>, f: Seq<char>)
    requires
        all_digits(w),
    ensures
        split_once(w + seq!['.'] + f, '.') == Some((w, f)),
        whole_of(w + seq!['.'] + f) == w,
        fraction_of(w + seq!['.'] + f) == f,
        has_char(w + seq!['.'] + f, '.'),
{
    let s = w + seq!['.'] + f;
    assert(s[w.len() as int] == '.');
    assert forall|j: int| 0 <= j < w.len() implies s[j] != '.' by {
        assert(s[j] == w[j]);
        assert(is_digit(w[j]));
    }
    lemma_index_of_is(s, '.', w.len() as int);
    assert(s.subrange(0, w.len() as int) =~= w);
    assert(s.subrange(w.len() as int + 1, s.len() as int) =~= f);
}

/// A digit string has no point, so it is all whole part.
pub proof fn lemma_no_point(w: Seq<char>)
    requires
        all_digits(w),
    ensures
        split_once(w, '.') is None,
        whole_of(w) == w,
        fraction_of(w) == Seq::<char>::empty(),
        !has_char(w, '.'),
{
    assert forall|j: int| 0 <= j < w.len() implies w[j] != '.' by {
        assert(is_digit(w[j]));
    }
    lemma_index_of_none(w, '.');
}

/// Trimming leading whole zeros and trailing fractional zeros divides the
/// scaled value by ten per trailing zero.
pub proof fn lemma_normal_units(w0: Seq<char>, f0: Seq<char>)
    requires
        all_digits(w0),
        all_digits(f0),
    ensures
        digits_value(w0 + f0) == digits_value(trimmed_whole(w0) + trim_end(f0, '0')) * pow10(
            (f0.len() - trim_end(f0, '0').len()) as nat,
        ),
        f0.len() >= trim_end(f0, '0').len(),
{
    let w = trimmed_whole(w0);
    let f = trim_end(f0, '0');
    let t = trim_start(w0, '0');
    lemma_digits_value_trim_start(w0);
    lemma_trim_end_shape(f0);
    lemma_single_zero();
    let j = (f0.len() - f.len()) as nat;
    let k = (w0.len() - t.len()) as nat;
    lemma_zeros_value(j);
    lemma_zeros_value(k);
    lemma_digits_value_concat(w + f, Seq::new(j, |i: int| '0'));
    assert(w0 + f0 =~= Seq::new(k, |i: int| '0') + (t + f0));
    lemma_digits_value_concat(Seq::new(k, |i: int| '0'), t + f0);
    lemma_digits_value_concat(t, f0);
    lemma_digits_value_concat(w, f0);
    assert(w + f0 =~= (w + f) + Seq::new(j, |i: int| '0'));
    assert(digits_value(t) == digits_value(w)) by {
        if t.len() == 0 {
            assert(t =~= Seq::<char>::empty());
        }
    }
}

proof fn lemma_trim_start_len<A>(s: Seq<A>, c: A)
    ensures
        trim_start(s, c).len() <= s.len(),
    decreases s.len(),
{
    if s.len() > 0 && s[0] == c {
        lemma_trim_start_len(s.drop_first(), c);
    }
}

proof fn lemma_trim_end_len<A>(s: Seq<A>, c: A)
    ensures
        trim_end(s, c).len() <= s.len(),
    decreases s.len(),
{
    if s.len() > 0 && s.last() == c {
        lemma_trim_end_len(s.drop_last(), c);
    }
}

/// The normal form is never longer than the accepted text.
pub proof fn lemma_normal_len(raw: Seq<char>)
    requires
        decimal_accepts(raw),
    ensures
        decimal_normal(raw).len() <= raw.len(),
{
    let s = unsigned_part(raw);
    let w0 = whole_of(s);
    let f0 = fraction_of(s);
    lemma_trim_start_len(w0, '0');
    lemma_trim_end_len(f0, '0');
    lemma_index_of(s, '.');
    let f = trim_end(f0, '0');
    if f.len() > 0 {
        assert(index_of(s, '.') is Some);
    }
}

/// The normal form is canonical and denotes the same number.
#[verifier::rlimit(40)]
pub proof fn lemma_decimal_normal(raw: Seq<char>)
    requires
        decimal_accepts(raw),
    ensures
        is_canonical(decimal_normal(raw)),
        same_value(decimal_normal(raw), raw),
        is_negative_text(decimal_normal(raw)) ==> is_negative_text(raw),
{
    let s = unsigned_part(raw);
    let w0 = whole_of(s);
    let f0 = fraction_of(s);
    let w = trimmed_whole(w0);
    let f = trim_end(f0, '0');
    lemma_digits_value_trim_start(w0);
    lemma_trim_end_shape(f0);
    let t = trim_start(w0, '0');
    lemma_all_digits_sub(w0, (w0.len() - t.len()) as int, w0.len() as int);
    assert(w0.subrange((w0.len() - t.len()) as int, w0.len() as int) =~= t);
    lemma_all_digits_sub(f0, 0, f.len() as int);
    assert(f0.subrange(0, f.len() as int) =~= f);
    assert(all_digits(w)) by {
        if t.len() == 0 {
            assert(is_digit(w[0]));
        }
    }
    lemma_single_zero();
    assert(digits_value(w) == digits_value(w0));
    let sign = if is_negative_text(raw) && (w != seq!['0'] || f.len() > 0) {
        seq!['-']
    } else {
        Seq::<char>::empty()
    };
    let point = if f.len() == 0 {
        Seq::<char>::empty()
    } else {
        seq!['.']
    };
    let n = decimal_normal(raw);
    let u = w + point + f;
    assert(n =~= sign + u);
    assert(unsigned_part(n) =~= u) by {
        if sign.len() > 0 {
            assert(n[0] == '-');
            assert(n.drop_first() =~= u);
        } else {
            assert(n =~= u);
            if u.len() > 0 {
                assert(u[0] == w[0]);
                assert(is_digit(w[0]));
            }
        }
    }
    if f.len() > 0 {
        lemma_split_point(w, f);
    } else {
        assert(u =~= w);
        lemma_no_point(w);
    }
    assert(whole_of(u) == w);
    assert(fraction_of(u) == f);
    lemma_normal_units(w0, f0);
    let a = units(u);
    let j = (f0.len() - f.len()) as nat;
    let p = pow10(f.len());
    let q = pow10(j);
    assert(units(s) == a * q);
    lemma_pow10_add(f.len(), j);
    assert(a * (p * q) == (a * q) * p) by (nonlinear_arith);
    assert((-a) * (p * q) == (-(a * q)) * p) by (nonlinear_arith);
    if is_negative_text(n) {
        assert(sign.len() > 0);
    }
    if is_negative_text(raw) && sign.len() == 0 {
        // negative zero became zero
        assert(w == seq!['0'] && f.len() == 0);
        lemma_single_zero();
        assert(w + f =~= seq!['0']);
        assert(a == 0);
        assert(a * q == 0);
    }
}

/// Outcome of a three-way comparison.
#[derive(Clone, Copy, Debug, PartialEq, Eq, Structural)]
pub enum Comparison {
    Less,
    Equal,
    Greater,
}

/// Three-way comparison of two integers.
pub open spec fn order_of(a: int, b: int) -> Comparison {
    if a < b {
        Comparison::Less
    } else if a == b {
        Comparison::Equal
    } else {
        Comparison::Greater
    }
}

/// Lexicographic order of two texts (`str::cmp`).
pub open spec fn lex_order(a: Seq<char>, b: Seq<char>) -> Comparison
    decreases a.len(),
{
    if a.len() == 0 {
        if b.len() == 0 {
            Comparison::Equal
        } else {
            Comparison::Less
        }
    } else if b.len() == 0 {
        Comparison::Greater
    } else if a[0] < b[0] {
        Comparison::Less
    } else if a[0] > b[0] {
        Comparison::Greater
    } else {
        lex_order(a.drop_first(), b.drop_first())
    }
}

/// Fractional digit `i`, or zero past the end.
pub open spec fn padded_digit(f: Seq<char>, i: int) -> char {
    if 0 <= i < f.len() {
        f[i]
    } else {
        '0'
    }
}

/// Order of two fractions compared digit by digit from position `i` to `n`,
/// shorter fractions padded with zeros.
pub open spec fn fraction_order(a: Seq<char>, b: Seq<char>, i: int, n: int) -> Comparison
    decreases n - i,
{
    if i >= n {
        Comparison::Equal
    } else if padded_digit(a, i) < padded_digit(b, i) {
        Comparison::Less
    } else if padded_digit(a, i) > padded_digit(b, i) {
        Comparison::Greater
    } else {
        fraction_order(a, b, i + 1, n)
    }
}

/// Order of two whole parts without leading zeros: the longer (in bytes) is
/// larger, otherwise lexicographic.
pub open spec fn whole_order(a: Seq<char>, b: Seq<char>) -> Comparison {
    if utf8_len(a) < utf8_len(b) {
        Comparison::Less
    } else if utf8_len(a) > utf8_len(b) {
        Comparison::Greater
    } else {
        lex_order(a, b)
    }
}

/// The comparison of two unsigned decimal texts: refused when either is
/// negative; otherwise whole parts, then fractions.
pub open spec fn decimal_order(l: Seq<char>, r: Seq<char>) -> Option<Comparison> {
    if is_negative_text(l) || is_negative_text(r) {
        None
    } else {
        let wo = whole_order(trimmed_whole(whole_of(l)), trimmed_whole(whole_of(r)));
        if wo != Comparison::Equal {
            Some(wo)
        } else {
            let n = if fraction_of(l).len() >= fraction_of(r).len() {
                fraction_of(l).len()
            } else {
                fraction_of(r).len()
            };
            Some(fraction_order(fraction_of(l), fraction_of(r), 0, n as int))
        }
    }
}

/// Lexicographic comparison of two texts.
pub fn lex_compare(a: &Vec<char>, b: &Vec<char>) -> (r: Comparison)
    ensures
        r == lex_order(a@, b@),
{
    let mut i: usize = 0;
    assert(a@.subrange(0, a@.len() as int) =~= a@);
    assert(b@.subrange(0, b@.len() as int) =~= b@);
    while i < a.len() && i < b.len()
        invariant
            i <= a@.len(),
            i <= b@.len(),
            lex_order(a@, b@) == lex_order(
                a@.subrange(i as int, a@.len() as int),
                b@.subrange(i as int, b@.len() as int),
            ),
        decreases a@.len() - i,
    {
        let ghost sa = a@.subrange(i as int, a@.len() as int);
        let ghost sb = b@.subrange(i as int, b@.len() as int);
        if a[i] < b[i] {
            return Comparison::Less;
        }
        if a[i] > b[i] {
            return Comparison::Greater;
        }
        assert(sa.drop_first() =~= a@.subrange(i + 1, a@.len() as int));
        assert(sb.drop_first() =~= b@.subrange(i + 1, b@.len() as int));
        i = i + 1;
    }
    if i < b.len() {
        Comparison::Less
    } else if i < a.len() {
        Comparison::Greater
    } else {
        Comparison::Equal
    }
}

pub fn whole_key(w: &Vec<char>) -> (r: Vec<char>)
    ensures
        r@ == trimmed_whole(w@),
{
    let t = trim_start_char(w, '0');
    if t.len() == 0 {
        let mut z: Vec<char> = Vec::new();
        z.push('0');
        assert(z@ =~= seq!['0']);
        z
    } else {
        t
    }
}

/// Compares two unsigned decimal texts without converting them to numbers
/// ; `None` when either text is negative.
pub fn compare_decimals(left: &str, right: &str) -> (r: Option<Comparison>)
    ensures
        r == decimal_order(left@, right@),
{
    let l = chars(left);
    let r = chars(right);
    if (l.len() > 0 && l[0] == '-') || (r.len() > 0 && r[0] == '-') {
        return None;
    }
    let (lw, lf) = split_or_whole(&l, '.');
    let (rw, rf) = split_or_whole(&r, '.');
    let lk = whole_key(&lw);
    let rk = whole_key(&rw);
    let ln = utf8_length(&lk);
    let rn = utf8_length(&rk);
    let wo = if ln < rn {
        Comparison::Less
    } else if ln > rn {
        Comparison::Greater
    } else {
        lex_compare(&lk, &rk)
    };
    match wo {
        Comparison::Equal => {},
        _ => {
            return Some(wo);
        },
    }
    let n = if lf.len() >= rf.len() {
        lf.len()
    } else {
        rf.len()
    };
    let mut i: usize = 0;
    assert(decimal_order(left@, right@) == Some(fraction_order(lf@, rf@, 0, n as int)));
    while i < n
        invariant
            decimal_order(left@, right@) == Some(fraction_order(lf@, rf@, 0, n as int)),
            i <= n,
            n == if lf@.len() >= rf@.len() {
                lf@.len()
            } else {
                rf@.len()
            },
            fraction_order(lf@, rf@, 0, n as int) == fraction_order(lf@, rf@, i as int, n as int),
        decreases n - i,
    {
        let a = if i < lf.len() {
            lf[i]
        } else {
            '0'
        };
        let b = if i < rf.len() {
            rf[i]
        } else {
            '0'
        };
        if a < b {
            return Some(Comparison::Less);
        }
        if a > b {
            return Some(Comparison::Greater);
        }
        i = i + 1;
    }
    Some(Comparison::Equal)
}

pub proof fn lemma_digits_utf8_len(s: Seq<char>)
    requires
        all_digits(s),
    ensures
        utf8_len(s) == s.len(),
    decreases s.len(),
{
    if s.len() > 0 {
        lemma_all_digits_sub(s, 0, s.len() - 1);
        assert(s.subrange(0, s.len() - 1) =~= s.drop_last());
        lemma_digits_utf8_len(s.drop_last());
        assert(is_digit(s[s.len() - 1]));
    }
}

/// Splits off the first digit of a digit string.
pub proof fn lemma_digits_value_first(a: Seq<char>)
    requires
        a.len() > 0,
    ensures
        digits_value(a) == digit_value(a[0]) * pow10((a.len() - 1) as nat) + digits_value(
            a.drop_first(),
        ),
{
    assert(a =~= seq![a[0]] + a.drop_first());
    lemma_digits_value_concat(seq![a[0]], a.drop_first());
    assert(digits_value(Seq::<char>::empty()) == 0);
    assert(seq![a[0]].drop_last() =~= Seq::<char>::empty());
    assert(seq![a[0]].last() == a[0]);
    assert(digits_value(seq![a[0]]) == digit_value(a[0]));
}

/// For digit strings of equal length, lexicographic order is numeric order.
pub proof fn lemma_lex_order_numeric(a: Seq<char>, b: Seq<char>)
    requires
        all_digits(a),
        all_digits(b),
        a.len() == b.len(),
    ensures
        lex_order(a, b) == order_of(digits_value(a), digits_value(b)),
    decreases a.len(),
{
    if a.len() > 0 {
        let a1 = a.drop_first();
        let b1 = b.drop_first();
        lemma_all_digits_sub(a, 1, a.len() as int);
        lemma_all_digits_sub(b, 1, b.len() as int);
        assert(a.subrange(1, a.len() as int) =~= a1);
        assert(b.subrange(1, b.len() as int) =~= b1);
        lemma_lex_order_numeric(a1, b1);
        lemma_digits_value_first(a);
        lemma_digits_value_first(b);
        lemma_digits_value_bounds(a1);
        lemma_digits_value_bounds(b1);
        let p = pow10(a1.len());
        let x = digit_value(a[0]);
        let y = digit_value(b[0]);
        let u = digits_value(a1);
        let v = digits_value(b1);
        assert(is_digit(a[0]) && is_digit(b[0]));
        if x < y {
            assert(x * p + u < y * p + v) by (nonlinear_arith)
                requires
                    x < y,
                    0 <= u < p,
                    0 <= v,
            ;
        } else if x > y {
            assert(x * p + u > y * p + v) by (nonlinear_arith)
                requires
                    x > y,
                    0 <= v < p,
                    0 <= u,
            ;
        } else {
            assert(a[0] == b[0]);
        }
    } else {
        assert(a =~= Seq::<char>::empty());
        assert(b =~= Seq::<char>::empty());
    }
}

/// Whole parts without leading zeros order as their values.
pub proof fn lemma_whole_order_numeric(a: Seq<char>, b: Seq<char>)
    requires
        all_digits(a),
        all_digits(b),
        a.len() > 0,
        b.len() > 0,
        a.len() > 1 ==> a[0] != '0',
        b.len() > 1 ==> b[0] != '0',
    ensures
        whole_order(a, b) == order_of(digits_value(a), digits_value(b)),
{
    lemma_digits_utf8_len(a);
    lemma_digits_utf8_len(b);
    lemma_digits_value_bounds(a);
    lemma_digits_value_bounds(b);
    if a.len() < b.len() {
        lemma_whole_at_least(b);
        lemma_pow10_mono(a.len(), (b.len() - 1) as nat);
    } else if a.len() > b.len() {
        lemma_whole_at_least(a);
        lemma_pow10_mono(b.len(), (a.len() - 1) as nat);
    } else {
        lemma_lex_order_numeric(a, b);
    }
}

pub proof fn lemma_pow10_mono(a: nat, b: nat)
    requires
        a <= b,
    ensures
        pow10(a) <= pow10(b),
    decreases b,
{
    if a < b {
        lemma_pow10_mono(a, (b - 1) as nat);
        lemma_pow10_positive((b - 1) as nat);
    }
}

/// A digit string of two or more digits that does not start with zero is at
/// least ten to its length minus one.
pub proof fn lemma_whole_at_least(a: Seq<char>)
    requires
        all_digits(a),
        a.len() > 1,
        a[0] != '0',
    ensures
        digits_value(a) >= pow10((a.len() - 1) as nat),
{
    lemma_digits_value_first(a);
    lemma_all_digits_sub(a, 1, a.len() as int);
    assert(a.subrange(1, a.len() as int) =~= a.drop_first());
    lemma_digits_value_bounds(a.drop_first());
    assert(is_digit(a[0]));
    let x = digit_value(a[0]);
    let p = pow10((a.len() - 1) as nat);
    lemma_pow10_positive((a.len() - 1) as nat);
    assert(x * p >= p) by (nonlinear_arith)
        requires
            x >= 1,
            p >= 1,
    ;
}

/// A fraction padded with zeros to `n` digits.
pub open spec fn pad_fraction(f: Seq<char>, n: nat) -> Seq<char> {
    f + Seq::new((n - f.len()) as nat, |i: int| '0')
}

pub proof fn lemma_fraction_order_lex(a: Seq<char>, b: Seq<char>, i: int, n: nat)
    requires
        0 <= i <= n,
        a.len() <= n,
        b.len() <= n,
    ensures
        fraction_order(a, b, i, n as int) == lex_order(
            pad_fraction(a, n).subrange(i, n as int),
            pad_fraction(b, n).subrange(i, n as int),
        ),
    decreases n - i,
{
    let pa = pad_fraction(a, n);
    let pb = pad_fraction(b, n);
    let sa = pa.subrange(i, n as int);
    let sb = pb.subrange(i, n as int);
    if i < n {
        lemma_fraction_order_lex(a, b, i + 1, n);
        assert(sa[0] == padded_digit(a, i));
        assert(sb[0] == padded_digit(b, i));
        assert(sa.drop_first() =~= pa.subrange(i + 1, n as int));
        assert(sb.drop_first() =~= pb.subrange(i + 1, n as int));
    } else {
        assert(sa =~= Seq::<char>::empty());
        assert(sb =~= Seq::<char>::empty());
    }
}

/// For unsigned accepted decimal texts, the comparison is the numeric order.
pub proof fn lemma_decimal_order_numeric(l: Seq<char>, r: Seq<char>)
    requires
        decimal_accepts(l),
        decimal_accepts(r),
        !is_negative_text(l),
        !is_negative_text(r),
    ensures
        decimal_order(l, r) == Some(
            order_of(units(l) * pow10(scale(r)), units(r) * pow10(scale(l))),
        ),
{
    let lw = whole_of(l);
    let lf = fraction_of(l);
    let rw = whole_of(r);
    let rf = fraction_of(r);
    let s1 = lf.len();
    let s2 = rf.len();
    let n: nat = if s1 >= s2 {
        s1
    } else {
        s2
    };
    let m: nat = if s1 >= s2 {
        s2
    } else {
        s1
    };
    // whole parts
    let lk = trimmed_whole(lw);
    let rk = trimmed_whole(rw);
    lemma_digits_value_trim_start(lw);
    lemma_digits_value_trim_start(rw);
    lemma_single_zero();
    let tl = trim_start(lw, '0');
    let tr = trim_start(rw, '0');
    lemma_all_digits_sub(lw, (lw.len() - tl.len()) as int, lw.len() as int);
    assert(lw.subrange((lw.len() - tl.len()) as int, lw.len() as int) =~= tl);
    lemma_all_digits_sub(rw, (rw.len() - tr.len()) as int, rw.len() as int);
    assert(rw.subrange((rw.len() - tr.len()) as int, rw.len() as int) =~= tr);
    assert(all_digits(lk)) by {
        if tl.len() == 0 {
            assert(is_digit(lk[0]));
        }
    }
    assert(all_digits(rk)) by {
        if tr.len() == 0 {
            assert(is_digit(rk[0]));
        }
    }
    let w1 = digits_value(lw);
    let w2 = digits_value(rw);
    assert(digits_value(lk) == w1);
    assert(digits_value(rk) == w2);
    lemma_whole_order_numeric(lk, rk);
    // fractions
    let pl = pad_fraction(lf, n);
    let pr = pad_fraction(rf, n);
    lemma_fraction_order_lex(lf, rf, 0, n);
    assert(pl.subrange(0, n as int) =~= pl);
    assert(pr.subrange(0, n as int) =~= pr);
    lemma_all_digits_concat(lf, Seq::new((n - s1) as nat, |i: int| '0'));
    lemma_all_digits_concat(rf, Seq::new((n - s2) as nat, |i: int| '0'));
    lemma_lex_order_numeric(pl, pr);
    lemma_digits_value_concat(lf, Seq::new((n - s1) as nat, |i: int| '0'));
    lemma_digits_value_concat(rf, Seq::new((n - s2) as nat, |i: int| '0'));
    lemma_zeros_value((n - s1) as nat);
    lemma_zeros_value((n - s2) as nat);
    let f1 = digits_value(lf);
    let f2 = digits_value(rf);
    let q1 = pow10((n - s1) as nat);
    let q2 = pow10((n - s2) as nat);
    let pn = pow10(n);
    assert(digits_value(pl) == f1 * q1);
    assert(digits_value(pr) == f2 * q2);
    lemma_digits_value_bounds(pl);
    lemma_digits_value_bounds(pr);
    // units
    lemma_digits_value_concat(lw, lf);
    lemma_digits_value_concat(rw, rf);
    let u1 = units(l);
    let u2 = units(r);
    assert(u1 == w1 * pow10(s1) + f1);
    assert(u2 == w2 * pow10(s2) + f2);
    lemma_pow10_add(s1, (n - s1) as nat);
    lemma_pow10_add(s2, (n - s2) as nat);
    let x = w1 * pn + f1 * q1;
    let y = w2 * pn + f2 * q2;
    assert(x == u1 * q1) by (nonlinear_arith)
        requires
            u1 == w1 * pow10(s1) + f1,
            pn == pow10(s1) * q1,
            x == w1 * pn + f1 * q1,
    ;
    assert(y == u2 * q2) by (nonlinear_arith)
        requires
            u2 == w2 * pow10(s2) + f2,
            pn == pow10(s2) * q2,
            y == w2 * pn + f2 * q2,
    ;
    // scaling to the target comparison
    let pm = pow10(m);
    lemma_pow10_positive(m);
    lemma_pow10_add((n - s1) as nat, m);
    lemma_pow10_add((n - s2) as nat, m);
    assert(((n - s1) + m) as nat == s2);
    assert(((n - s2) + m) as nat == s1);
    let a = u1 * pow10(s2);
    let b = u2 * pow10(s1);
    assert(a == x * pm) by (nonlinear_arith)
        requires
            x == u1 * q1,
            pow10(s2) == q1 * pm,
            a == u1 * pow10(s2),
    ;
    assert(b == y * pm) by (nonlinear_arith)
        requires
            y == u2 * q2,
            pow10(s1) == q2 * pm,
            b == u2 * pow10(s1),
    ;
    assert(order_of(a, b) == order_of(x, y)) by (nonlinear_arith)
        requires
            a == x * pm,
            b == y * pm,
            pm >= 1,
    ;
    let p1 = f1 * q1;
    let p2 = f2 * q2;
    if w1 < w2 {
        assert(x < y) by (nonlinear_arith)
            requires
                w1 < w2,
                0 <= p1 < pn,
                0 <= p2,
                x == w1 * pn + p1,
                y == w2 * pn + p2,
        ;
    } else if w1 > w2 {
        assert(x > y) by (nonlinear_arith)
            requires
                w1 > w2,
                0 <= p2 < pn,
                0 <= p1,
                x == w1 * pn + p1,
                y == w2 * pn + p2,
        ;
    }
}

/// The last `k` characters of `d`, or all of it when it is shorter.
pub open spec fn low_digits(d: Seq<char>, k: nat) -> Seq<char> {
    if k >= d.len() {
        d
    } else {
        d.subrange(d.len() - k, d.len() as int)
    }
}

/// Whole and fractional digits of an unsigned decimal, the fraction padded
/// with zeros to `n` digits.
pub open spec fn aligned_digits(s: Seq<char>, n: nat) -> Seq<char> {
    whole_of(s) + pad_fraction(fraction_of(s), n)
}

/// The larger of the two scales.
pub open spec fn common_scale(a: Seq<char>, b: Seq<char>) -> nat {
    if scale(a) >= scale(b) {
        scale(a)
    } else {
        scale(b)
    }
}

/// `units(s)` expressed at a larger scale `n`.
pub open spec fn units_at(s: Seq<char>, n: nat) -> int {
    units(s) * pow10((n - scale(s)) as nat)
}

/// The digit character of a value below ten.
pub fn digit_char(d: u8) -> (c: char)
    requires
        d < 10,
    ensures
        is_digit(c),
        digit_value(c) == d,
{
    match d {
        0 => '0',
        1 => '1',
        2 => '2',
        3 => '3',
        4 => '4',
        5 => '5',
        6 => '6',
        7 => '7',
        8 => '8',
        _ => '9',
    }
}

/// Value of a digit character.
pub fn char_digit(c: char) -> (d: u8)
    requires
        is_digit(c),
    ensures
        d == digit_value(c),
        d < 10,
{
    if c == '0' {
        0
    } else if c == '1' {
        1
    } else if c == '2' {
        2
    } else if c == '3' {
        3
    } else if c == '4' {
        4
    } else if c == '5' {
        5
    } else if c == '6' {
        6
    } else if c == '7' {
        7
    } else if c == '8' {
        8
    } else {
        9
    }
}

/// The whole digits followed by the fraction padded to `n` digits.
pub fn aligned(s: &Vec<char>, n: usize) -> (r: Vec<char>)
    requires
        all_digits(whole_of(s@)),
        all_digits(fraction_of(s@)),
        fraction_of(s@).len() <= n,
    ensures
        r@ == aligned_digits(s@, n as nat),
        all_digits(r@),
        digits_value(r@) == units(s@) * pow10((n - scale(s@)) as nat),
{
    let (w, f) = split_or_whole(s, '.');
    let mut r = slice(&w, 0, w.len());
    assert(w@.subrange(0, w@.len() as int) =~= w@);
    push_all(&mut r, &f);
    let mut i = f.len();
    while i < n
        invariant
            f@.len() <= i <= n,
            r@ == w@ + f@ + Seq::new((i - f@.len()) as nat, |j: int| '0'),
        decreases n - i,
    {
        r.push('0');
        i = i + 1;
        assert(r@ =~= w@ + f@ + Seq::new((i - f@.len()) as nat, |j: int| '0'));
    }
    proof {
        assert(r@ =~= aligned_digits(s@, n as nat));
        let z = Seq::new((n - f@.len()) as nat, |j: int| '0');
        lemma_all_digits_concat(f@, z);
        lemma_all_digits_concat(w@, f@ + z);
        assert(r@ =~= w@ + (f@ + z));
        lemma_digits_value_concat(w@ + f@, z);
        assert(r@ =~= (w@ + f@) + z);
        lemma_zeros_value((n - f@.len()) as nat);
    }
    r
}

pub fn push_all(r: &mut Vec<char>, v: &Vec<char>)
    ensures
        final(r)@ == old(r)@ + v@,
{
    let mut i: usize = 0;
    while i < v.len()
        invariant
            i <= v@.len(),
            r@ == old(r)@ + v@.subrange(0, i as int),
        decreases v@.len() - i,
    {
        r.push(v[i]);
        i = i + 1;
        assert(r@ =~= old(r)@ + v@.subrange(0, i as int));
    }
    assert(v@.subrange(0, v@.len() as int) =~= v@);
}

pub proof fn lemma_low_digits_step(d: Seq<char>, k: nat)
    requires
        k < d.len(),
    ensures
        low_digits(d, k + 1) =~= seq![d[d.len() - 1 - k]] + low_digits(d, k),
{
}

/// Subtracts digit strings of equal scale, `b` from `a`, digit by digit from
/// the right with a borrow; `None` when a borrow is left over.
pub fn subtract_digits(a: &Vec<char>, b: &Vec<char>) -> (r: Option<Vec<char>>)
    requires
        all_digits(a@),
        all_digits(b@),
    ensures
        match r {
            Some(d) => d@.len() == a@.len() && all_digits(d@) && digits_value(d@) == digits_value(
                a@,
            ) - digits_value(low_digits(b@, a@.len())),
            None => digits_value(a@) < digits_value(low_digits(b@, a@.len())),
        },
{
    let n = a.len();
    let m = b.len();
    let mut rev: Vec<char> = Vec::new();
    let mut borrow: u8 = 0;
    let mut k: usize = 0;
    let ghost mut res: Seq<char> = Seq::empty();
    while k < n
        invariant
            n == a@.len(),
            m == b@.len(),
            all_digits(a@),
            all_digits(b@),
            k <= n,
            borrow <= 1,
            res.len() == k,
            all_digits(res),
            rev@.len() == k,
            forall|j: int| 0 <= j < k ==> rev@[j] == res[k - 1 - j],
            digits_value(res) - borrow * pow10(k as nat) == digits_value(
                a@.subrange(n - k, n as int),
            ) - digits_value(low_digits(b@, k as nat)),
        decreases n - k,
    {
        let i = n - 1 - k;
        let x = char_digit(a[i]);
        let y = if k < m {
            char_digit(b[m - 1 - k])
        } else {
            0
        };
        let (d, nb) = if x < y + borrow {
            (x + 10 - y - borrow, 1u8)
        } else {
            (x - y - borrow, 0u8)
        };
        let c = digit_char(d);
        proof {
            let ak = a@.subrange(n - k, n as int);
            let ak1 = a@.subrange(n - k - 1, n as int);
            assert(ak1 =~= seq![a@[i as int]] + ak);
            lemma_digits_value_concat(seq![a@[i as int]], ak);
            lemma_digits_value_concat(seq![c], res);
            assert(digits_value(Seq::<char>::empty()) == 0);
            assert(seq![a@[i as int]].drop_last() =~= Seq::<char>::empty());
            assert(seq![c].drop_last() =~= Seq::<char>::empty());
            let bk = low_digits(b@, k as nat);
            let bk1 = low_digits(b@, (k + 1) as nat);
            if k < m {
                lemma_low_digits_step(b@, k as nat);
                let bc = b@[m - 1 - k];
                assert(seq![bc].drop_last() =~= Seq::<char>::empty());
                lemma_digits_value_concat(seq![bc], bk);
                assert(digits_value(bk1) == y * pow10(k as nat) + digits_value(bk));
            } else {
                assert(bk1 == bk);
            }
            let p = pow10(k as nat);
            assert(pow10((k + 1) as nat) == 10 * p);
            assert(d - 10 * nb == x - borrow - y);
            let rv = digits_value(res);
            assert((d * p + rv) - nb * (10 * p) == (x * p + digits_value(ak)) - (y * p
                + digits_value(bk))) by (nonlinear_arith)
                requires
                    d - 10 * nb == x - borrow - y,
                    rv - borrow * p == digits_value(ak) - digits_value(bk),
            ;
            assert(all_digits(seq![c] + res)) by {
                lemma_all_digits_concat(seq![c], res);
            }
        }
        rev.push(c);
        proof {
            res = seq![c] + res;
        }
        borrow = nb;
        k = k + 1;
    }
    proof {
        assert(a@.subrange(0, n as int) =~= a@);
        lemma_digits_value_bounds(res);
        lemma_pow10_positive(n as nat);
    }
    if borrow != 0 {
        proof {
            assert(digits_value(res) < pow10(n as nat));
        }
        return None;
    }
    let mut out: Vec<char> = Vec::new();
    let mut j: usize = 0;
    while j < n
        invariant
            j <= n,
            rev@.len() == n,
            res.len() == n,
            forall|t: int| 0 <= t < n ==> rev@[t] == res[n - 1 - t],
            out@ == res.subrange(0, j as int),
        decreases n - j,
    {
        out.push(rev[n - 1 - j]);
        j = j + 1;
        assert(out@ =~= res.subrange(0, j as int));
    }
    assert(out@ =~= res);
    Some(out)
}

/// One column of a schoolbook addition: the digit `c` and the carry `nc` out
/// of column `k` keep the running sum equal to the sum of the low digits.
proof fn lemma_add_column(
    a: Seq<char>,
    b: Seq<char>,
    k: nat,
    res: Seq<char>,
    carry: int,
    c: char,
    nc: int,
)
    requires
        all_digits(a),
        all_digits(b),
        all_digits(res),
        is_digit(c),
        res.len() == k,
        digits_value(res) + carry * pow10(k) == digits_value(low_digits(a, k)) + digits_value(
            low_digits(b, k),
        ),
        digit_value(c) + 10 * nc == (if k < a.len() {
            digit_value(a[a.len() - 1 - k])
        } else {
            0
        }) + (if k < b.len() {
            digit_value(b[b.len() - 1 - k])
        } else {
            0
        }) + carry,
    ensures
        all_digits(seq![c] + res),
        digits_value(seq![c] + res) + nc * pow10(k + 1) == digits_value(low_digits(a, k + 1))
            + digits_value(low_digits(b, k + 1)),
{
    let ak = low_digits(a, k);
    let ak1 = low_digits(a, k + 1);
    let bk = low_digits(b, k);
    let bk1 = low_digits(b, k + 1);
    let x: int = if k < a.len() {
        digit_value(a[a.len() - 1 - k])
    } else {
        0
    };
    let y: int = if k < b.len() {
        digit_value(b[b.len() - 1 - k])
    } else {
        0
    };
    assert(digits_value(Seq::<char>::empty()) == 0);
    if k < a.len() {
        lemma_low_digits_step(a, k);
        let ac = a[a.len() - 1 - k];
        assert(seq![ac].drop_last() =~= Seq::<char>::empty());
        lemma_digits_value_concat(seq![ac], ak);
    } else {
        assert(ak1 == ak);
    }
    if k < b.len() {
        lemma_low_digits_step(b, k);
        let bc = b[b.len() - 1 - k];
        assert(seq![bc].drop_last() =~= Seq::<char>::empty());
        lemma_digits_value_concat(seq![bc], bk);
    } else {
        assert(bk1 == bk);
    }
    assert(digits_value(ak1) == x * pow10(k) + digits_value(ak));
    assert(digits_value(bk1) == y * pow10(k) + digits_value(bk));
    lemma_digits_value_concat(seq![c], res);
    assert(seq![c].drop_last() =~= Seq::<char>::empty());
    let p = pow10(k);
    assert(pow10(k + 1) == 10 * p);
    let d = digit_value(c);
    let rv = digits_value(res);
    assert((d * p + rv) + nc * (10 * p) == (x * p + digits_value(ak)) + (y * p + digits_value(
        bk,
    ))) by (nonlinear_arith)
        requires
            d + 10 * nc == x + y + carry,
            rv + carry * p == digits_value(ak) + digits_value(bk),
    ;
    lemma_all_digits_concat(seq![c], res);
}

/// Sum of two unsigned decimal texts when both are accepted
/// (`provider_io::total` before normalization): the digits of the exact sum
/// at the larger scale, with the point inserted.
pub fn add_digits(a: &Vec<char>, b: &Vec<char>) -> (r: Vec<char>)
    requires
        all_digits(a@),
        all_digits(b@),
    ensures
        all_digits(r@),
        r@.len() == if a@.len() >= b@.len() {
            a@.len()
        } else {
            b@.len()
        } || r@.len() == 1 + if a@.len() >= b@.len() {
            a@.len()
        } else {
            b@.len()
        },
        r@.len() > 0 || (a@.len() == 0 && b@.len() == 0),
        r@.len() == 1 + (if a@.len() >= b@.len() {
            a@.len()
        } else {
            b@.len()
        }) ==> r@[0] == '1',
        digits_value(r@) == digits_value(a@) + digits_value(b@),
{
    let n = a.len();
    let m = b.len();
    let top = if n >= m {
        n
    } else {
        m
    };
    let mut rev: Vec<char> = Vec::new();
    let mut carry: u8 = 0;
    let mut k: usize = 0;
    let ghost mut res: Seq<char> = Seq::empty();
    while k < top
        invariant
            n == a@.len(),
            m == b@.len(),
            top == if n >= m {
                n
            } else {
                m
            },
            all_digits(a@),
            all_digits(b@),
            k <= top,
            carry <= 1,
            res.len() == k,
            all_digits(res),
            rev@.len() == k,
            forall|j: int| 0 <= j < k ==> rev@[j] == res[k - 1 - j],
            digits_value(res) + carry * pow10(k as nat) == digits_value(low_digits(a@, k as nat))
                + digits_value(low_digits(b@, k as nat)),
        decreases top - k,
    {
        let x = if k < n {
            char_digit(a[n - 1 - k])
        } else {
            0
        };
        let y = if k < m {
            char_digit(b[m - 1 - k])
        } else {
            0
        };
        let sum = x + y + carry;
        let d = sum % 10;
        let nc = sum / 10;
        let c = digit_char(d);
        proof {
            lemma_add_column(a@, b@, k as nat, res, carry as int, c, nc as int);
        }
        rev.push(c);
        proof {
            res = seq![c] + res;
        }
        carry = nc;
        k = k + 1;
    }
    let mut out: Vec<char> = Vec::new();
    if carry > 0 {
        out.push('1');
    }
    let ghost lead: Seq<char> = out@;
    let mut j: usize = 0;
    while j < top
        invariant
            j <= top,
            rev@.len() == top,
            res.len() == top,
            forall|t: int| 0 <= t < top ==> rev@[t] == res[top - 1 - t],
            out@ == lead + res.subrange(0, j as int),
        decreases top - j,
    {
        out.push(rev[top - 1 - j]);
        j = j + 1;
        assert(out@ =~= lead + res.subrange(0, j as int));
    }
    proof {
        assert(res.subrange(0, top as int) =~= res);
        assert(low_digits(a@, top as nat) == a@);
        assert(low_digits(b@, top as nat) == b@);
        lemma_digits_value_concat(lead, res);
        if carry > 0 {
            assert(lead =~= seq!['1']);
            assert(seq!['1'].drop_last() =~= Seq::<char>::empty());
            assert(digits_value(Seq::<char>::empty()) == 0);
            lemma_all_digits_concat(lead, res);
        } else {
            assert(lead =~= Seq::<char>::empty());
            assert(out@ =~= res);
        }
    }
    out
}

/// The digits with a point before the last `n` of them (no point when `n`
/// is zero).
pub open spec fn with_point(d: Seq<char>, n: nat) -> Seq<char> {
    if n == 0 {
        d
    } else {
        d.subrange(0, d.len() - n) + seq!['.'] + d.subrange(d.len() - n, d.len() as int)
    }
}

/// `t` denotes the number `v / 10^n`.
pub open spec fn denotes(t: Seq<char>, v: int, n: nat) -> bool {
    signed_units(t) * pow10(n) == v * pow10(scale(unsigned_part(t)))
}

proof fn lemma_ascii_utf8_len(s: Seq<char>)
    requires
        forall|i: int| 0 <= i < s.len() ==> (s[i] as u32) < 0x80,
    ensures
        utf8_len(s) == s.len(),
    decreases s.len(),
{
    if s.len() > 0 {
        assert forall|i: int| 0 <= i < s.drop_last().len() implies (s.drop_last()[i] as u32)
            < 0x80 by {
            assert(s.drop_last()[i] == s[i]);
        }
        lemma_ascii_utf8_len(s.drop_last());
        assert((s[s.len() - 1] as u32) < 0x80);
    }
}

/// The text of digits with a point is an unsigned decimal of scale `n` whose
/// units are the digits' value; it is accepted exactly when it fits in 128
/// bytes.
proof fn lemma_with_point(d: Seq<char>, n: nat)
    requires
        all_digits(d),
        d.len() > n,
    ensures
        with_point(d, n).len() == d.len() + (if n > 0 {
            1int
        } else {
            0int
        }),
        decimal_accepts(with_point(d, n)) <==> with_point(d, n).len() <= 128,
        !is_negative_text(with_point(d, n)),
        unsigned_part(with_point(d, n)) == with_point(d, n),
        units(with_point(d, n)) == digits_value(d),
        scale(with_point(d, n)) == n,
{
    let t = with_point(d, n);
    assert(is_digit(d[0]));
    if n == 0 {
        lemma_no_point(d);
        lemma_digits_utf8_len(d);
    } else {
        let w = d.subrange(0, d.len() - n);
        let f = d.subrange(d.len() - n, d.len() as int);
        lemma_all_digits_sub(d, 0, d.len() - n);
        lemma_all_digits_sub(d, d.len() - n, d.len() as int);
        lemma_split_point(w, f);
        assert(w + f =~= d);
        assert(t[0] == d[0]);
        assert forall|i: int| 0 <= i < t.len() implies (t[i] as u32) < 0x80 by {
            if i < w.len() {
                assert(t[i] == w[i]);
                assert(is_digit(w[i]));
            } else if i == w.len() {
                assert(t[i] == '.');
            } else {
                assert(t[i] == f[i - w.len() - 1]);
                assert(is_digit(f[i - w.len() - 1]));
            }
        }
        lemma_ascii_utf8_len(t);
    }
}

/// Length in bytes of the digits-with-point text of the sum of two
/// non-negative decimal texts at their common scale.
pub open spec fn sum_text_len(a: Seq<char>, b: Seq<char>) -> int {
    let n = common_scale(a, b);
    let m = (if whole_of(a).len() >= whole_of(b).len() {
        whole_of(a).len()
    } else {
        whole_of(b).len()
    }) + n;
    let u = units_at(a, n) + units_at(b, n);
    m + (if u >= pow10(m as nat) {
        1int
    } else {
        0int
    }) + (if n > 0 {
        1int
    } else {
        0int
    })
}

proof fn lemma_order_at_common_scale(l: Seq<char>, r: Seq<char>)
    ensures
        (order_of(units(l) * pow10(scale(r)), units(r) * pow10(scale(l))) == Comparison::Less)
            <==> units_at(l, common_scale(l, r)) < units_at(r, common_scale(l, r)),
{
    let n = common_scale(l, r);
    let sl = scale(l);
    let sr = scale(r);
    let k = (n - sl) as nat;
    let m = (n - sr) as nat;
    let t = (sl + sr - n) as nat;
    lemma_pow10_add(k, t);
    lemma_pow10_add(m, t);
    lemma_pow10_positive(t);
    assert(k + t == sr);
    assert(m + t == sl);
    let ul = units(l);
    let ur = units(r);
    let pk = pow10(k);
    let pm = pow10(m);
    let pt = pow10(t);
    assert((ul * pk < ur * pm) <==> ((ul * pk) * pt < (ur * pm) * pt)) by (nonlinear_arith)
        requires
            pt > 0,
    ;
    assert((ul * pk) * pt == ul * (pk * pt)) by (nonlinear_arith);
    assert((ur * pm) * pt == ur * (pm * pt)) by (nonlinear_arith);
}

pub proof fn lemma_aligned_len(s: Seq<char>, n: nat)
    requires
        fraction_of(s).len() <= n,
    ensures
        aligned_digits(s, n).len() == whole_of(s).len() + n,
{
}

/// When `a` is at least `b`, the digits of `b` above the length of `a` are
/// all zero, so its low digits carry its whole value.
pub proof fn lemma_high_digits_zero(a: Seq<char>, b: Seq<char>)
    requires
        all_digits(a),
        all_digits(b),
        digits_value(a) >= digits_value(b),
    ensures
        digits_value(low_digits(b, a.len())) == digits_value(b),
{
    if a.len() < b.len() {
        let k = a.len();
        let hi = b.subrange(0, b.len() - k);
        let lo = low_digits(b, k);
        assert(hi + lo =~= b);
        lemma_digits_value_concat(hi, lo);
        lemma_all_digits_sub(b, 0, b.len() - k);
        lemma_all_digits_sub(b, b.len() - k, b.len() as int);
        lemma_digits_value_bounds(hi);
        lemma_digits_value_bounds(lo);
        lemma_digits_value_bounds(a);
        lemma_pow10_positive(k);
        let h = digits_value(hi);
        let p = pow10(k);
        assert(h == 0) by (nonlinear_arith)
            requires
                h >= 0,
                p > 0,
                h * p + digits_value(lo) <= digits_value(a),
                digits_value(a) < p,
                digits_value(lo) >= 0,
        ;
        assert(h * p == 0) by (nonlinear_arith)
            requires
                h == 0,
        ;
    }
}

/// The sum digits are one longer than the longer operand exactly when the
/// sum reaches the next power of ten.
proof fn lemma_sum_width(a: Seq<char>, b: Seq<char>, d: Seq<char>)
    requires
        all_digits(d),
        d.len() == (if a.len() >= b.len() {
            a.len()
        } else {
            b.len()
        }) || d.len() == 1 + (if a.len() >= b.len() {
            a.len()
        } else {
            b.len()
        }),
        d.len() == 1 + (if a.len() >= b.len() {
            a.len()
        } else {
            b.len()
        }) ==> d[0] == '1',
        digits_value(d) == digits_value(a) + digits_value(b),
        all_digits(a),
        all_digits(b),
    ensures
        d.len() == (if a.len() >= b.len() {
            a.len()
        } else {
            b.len()
        }) + (if digits_value(a) + digits_value(b) >= pow10(
            (if a.len() >= b.len() {
                a.len()
            } else {
                b.len()
            }) as nat,
        ) {
            1int
        } else {
            0int
        }),
{
    let m: nat = if a.len() >= b.len() {
        a.len()
    } else {
        b.len()
    };
    lemma_digits_value_bounds(d);
    if d.len() == m + 1 {
        let rest = d.subrange(1, d.len() as int);
        assert(seq![d[0]] + rest =~= d);
        lemma_digits_value_concat(seq![d[0]], rest);
        lemma_all_digits_sub(d, 1, d.len() as int);
        lemma_digits_value_bounds(rest);
        assert(seq![d[0]].drop_last() =~= Seq::<char>::empty());
        assert(seq![d[0]].last() == '1');
        assert(digits_value(Seq::<char>::empty()) == 0);
        assert(digits_value(seq![d[0]]) == 1);
        assert(rest.len() == m);
        assert(digits_value(d) == 1 * pow10(m) + digits_value(rest));
        assert(digits_value(a) + digits_value(b) >= pow10(m));
    } else {
        assert(digits_value(d) < pow10(m));
    }
}

/// A canonical text with the value of an unsigned text of scale `n`
/// denotes that text's units at scale `n`.
proof fn lemma_denotes_scaled(t: Seq<char>, p: Seq<char>, n: nat)
    requires
        same_value(t, p),
        !is_negative_text(p),
        unsigned_part(p) == p,
        scale(p) == n,
    ensures
        denotes(t, units(p), n),
{
}

/// Difference of two unsigned decimal texts at their common scale, as
/// digits with a point, normalized; `None` when either text is negative,
/// the left is the smaller, or the text would exceed 128 bytes.
pub fn subtract_decimal_texts(left: &str, right: &str) -> (r: Option<String>)
    requires
        decimal_accepts(left@),
        decimal_accepts(right@),
    ensures
        r is Some <==> (!is_negative_text(left@) && !is_negative_text(right@) && units_at(
            left@,
            common_scale(left@, right@),
        ) >= units_at(right@, common_scale(left@, right@)) && whole_of(left@).len()
            + common_scale(left@, right@) + (if common_scale(left@, right@) > 0 {
            1int
        } else {
            0int
        }) <= 128),
        r matches Some(t) ==> is_canonical(t@) && denotes(
            t@,
            units_at(left@, common_scale(left@, right@)) - units_at(
                right@,
                common_scale(left@, right@),
            ),
            common_scale(left@, right@),
        ),
{
    let l = chars(left);
    let rc = chars(right);
    if (l.len() > 0 && l[0] == '-') || (rc.len() > 0 && rc[0] == '-') {
        return None;
    }
    let ghost n0 = common_scale(left@, right@);
    proof {
        lemma_decimal_order_numeric(left@, right@);
        lemma_order_at_common_scale(left@, right@);
    }
    match compare_decimals(left, right) {
        Some(Comparison::Less) => {
            return None;
        },
        _ => {},
    }
    let (lw, lf) = split_or_whole(&l, '.');
    let (rw, rf) = split_or_whole(&rc, '.');
    let n = if lf.len() >= rf.len() {
        lf.len()
    } else {
        rf.len()
    };
    let a = aligned(&l, n);
    let b = aligned(&rc, n);
    proof {
        lemma_aligned_len(l@, n as nat);
        lemma_aligned_len(rc@, n as nat);
        lemma_high_digits_zero(a@, b@);
    }
    let d = match subtract_digits(&a, &b) {
        Some(d) => d,
        None => {
            return None;
        },
    };
    let ghost t = with_point(d@, n as nat);
    proof {
        lemma_with_point(d@, n as nat);
    }
    let text = if n == 0 {
        string_of_all(&d)
    } else {
        let mut s = string_of(&d, 0, d.len() - n);
        push_char(&mut s, '.');
        let tail = slice(&d, d.len() - n, d.len());
        push_chars(&mut s, &tail);
        s
    };
    assert(text@ == t);
    let out = normalize_decimal_text(text.as_str());
    proof {
        if out is Some {
            lemma_denotes_scaled(out.unwrap()@, t, n as nat);
        }
    }
    out
}

/// Sum of two non-negative decimal texts at their common scale, as digits
/// with a point, normalized; `None` when the text would exceed 128 bytes.
pub fn add_decimal_texts(a: &str, b: &str) -> (r: Option<String>)
    requires
        decimal_accepts(a@),
        decimal_accepts(b@),
        !is_negative_text(a@),
        !is_negative_text(b@),
    ensures
        r is Some <==> sum_text_len(a@, b@) <= 128,
        r matches Some(t) ==> is_canonical(t@) && denotes(
            t@,
            units_at(a@, common_scale(a@, b@)) + units_at(b@, common_scale(a@, b@)),
            common_scale(a@, b@),
        ),
{
    let x = chars(a);
    let y = chars(b);
    let (aw, af) = split_or_whole(&x, '.');
    let (bw, bf) = split_or_whole(&y, '.');
    let n = if af.len() >= bf.len() {
        af.len()
    } else {
        bf.len()
    };
    let da = aligned(&x, n);
    let db = aligned(&y, n);
    proof {
        lemma_aligned_len(x@, n as nat);
        lemma_aligned_len(y@, n as nat);
    }
    let d = add_digits(&da, &db);
    proof {
        lemma_sum_width(da@, db@, d@);
        lemma_with_point(d@, n as nat);
    }
    let ghost t = with_point(d@, n as nat);
    let text = if n == 0 {
        string_of_all(&d)
    } else {
        let mut s = string_of(&d, 0, d.len() - n);
        push_char(&mut s, '.');
        let tail = slice(&d, d.len() - n, d.len());
        push_chars(&mut s, &tail);
        s
    };
    assert(text@ == t);
    let out = normalize_decimal_text(text.as_str());
    proof {
        if out is Some {
            lemma_denotes_scaled(out.unwrap()@, t, n as nat);
        }
    }
    out
}

/// The digit character of a value below ten.
pub open spec fn digit_of(d: nat) -> char {
    (d + 48) as char
}

/// The decimal text of a natural number, without leading zeros.
pub open spec fn nat_text(n: nat) -> Seq<char>
    decreases n,
{
    if n < 10 {
        seq![digit_of(n)]
    } else {
        nat_text(n / 10) + seq![digit_of(n % 10)]
    }
}

/// The decimal text of an unsigned integer (`u64::to_string`).
pub fn u64_text(n: u64) -> (r: String)
    ensures
        r@ == nat_text(n as nat),
{
    let mut q: u64 = n;
    let mut rev: Vec<char> = Vec::new();
    let ghost mut tail: Seq<char> = Seq::empty();
    loop
        invariant_except_break
            q > 0 || (n == 0 && rev@.len() == 0),
            nat_text(n as nat) == nat_text(q as nat) + tail,
        invariant
            rev@.len() == tail.len(),
            forall|j: int| 0 <= j < rev@.len() ==> rev@[j] == tail[tail.len() - 1 - j],
        ensures
            nat_text(n as nat) == tail,
            rev@.len() == tail.len(),
            forall|j: int| 0 <= j < rev@.len() ==> rev@[j] == tail[tail.len() - 1 - j],
        decreases q,
    {
        let d = q % 10;
        let c = digit_char((d) as u8);
        proof {
            assert(c == digit_of(d as nat));
            if q >= 10 {
                assert(nat_text(q as nat) == nat_text((q / 10) as nat) + seq![c]);
                assert(nat_text(q as nat) + tail =~= nat_text((q / 10) as nat) + (seq![c] + tail));
            } else {
                assert(nat_text(q as nat) == seq![c]);
            }
            tail = seq![c] + tail;
        }
        rev.push(c);
        q = q / 10;
        if q == 0 {
            break;
        }
    }
    let mut out = String::new();
    let mut j: usize = rev.len();
    while j > 0
        invariant
            j <= rev@.len(),
            rev@.len() == tail.len(),
            forall|k: int| 0 <= k < rev@.len() ==> rev@[k] == tail[tail.len() - 1 - k],
            out@ == tail.subrange(0, (rev@.len() - j) as int),
        decreases j,
    {
        j = j - 1;
        push_char(&mut out, rev[j]);
        assert(out@ =~= tail.subrange(0, (rev@.len() - j) as int));
    }
    assert(tail.subrange(0, tail.len() as int) =~= tail);
    out
}

proof fn lemma_digit_step(v: Seq<char>, i: int)
    requires
        all_digits(v),
        0 <= i < v.len() <= 38,
    ensures
        is_digit(v[i]),
        digits_value(v.subrange(0, i + 1)) == digits_value(v.subrange(0, i)) * 10 + digit_value(
            v[i],
        ),
        digits_value(v.subrange(0, i)) * 10 + 9 < 0x1_0000_0000_0000_0000_0000_0000_0000_0000,
{
    lemma_all_digits_sub(v, 0, i);
    lemma_digits_value_bounds(v.subrange(0, i));
    lemma_pow10_mono(i as nat, 37);
    assert(pow10(37) == 10000000000000000000000000000000000000) by {
        reveal_with_fuel(pow10, 38);
    }
    assert(v.subrange(0, i + 1).drop_last() =~= v.subrange(0, i));
}

/// The value of a digit string of at most 38 digits.
pub fn digits_u128(v: &Vec<char>) -> (r: u128)
    requires
        all_digits(v@),
        v@.len() <= 38,
    ensures
        r == digits_value(v@),
{
    let mut total: u128 = 0;
    let mut i: usize = 0;
    while i < v.len()
        invariant
            i <= v@.len() <= 38,
            all_digits(v@),
            total == digits_value(v@.subrange(0, i as int)),
        decreases v@.len() - i,
    {
        proof {
            lemma_digit_step(v@, i as int);
        }
        total = total * 10 + (char_digit(v[i]) as u128);
        i = i + 1;
    }
    assert(v@.subrange(0, v@.len() as int) =~= v@);
    total
}

/// Appends characters to a string.
pub fn push_chars(s: &mut String, v: &Vec<char>)
    ensures
        final(s)@ == old(s)@ + v@,
{
    let mut i: usize = 0;
    while i < v.len()
        invariant
            i <= v@.len(),
            s@ == old(s)@ + v@.subrange(0, i as int),
        decreases v@.len() - i,
    {
        push_char(s, v[i]);
        i = i + 1;
        assert(s@ =~= old(s)@ + v@.subrange(0, i as int));
    }
    assert(v@.subrange(0, v@.len() as int) =~= v@);
}

/// Exact decimal normalization of a text (`provider_io::decimal` on a JSON
/// string): accepts exactly `decimal_accepts` and returns `decimal_normal`.
pub fn normalize_decimal_text(raw: &str) -> (r: Option<String>)
    ensures
        r is Some <==> decimal_accepts(raw@),
        r matches Some(t) ==> t@ == decimal_normal(raw@) && is_canonical(t@) && same_value(
            t@,
            raw@,
        ),
{
    let v = chars(raw);
    if v.len() == 0 {
        return None;
    }
    let n = byte_len(&v);
    if n > 128 {
        return None;
    }
    let negative = v[0] == '-';
    let s = if negative {
        slice(&v, 1, v.len())
    } else {
        slice(&v, 0, v.len())
    };
    assert(s@ == unsigned_part(raw@)) by {
        if negative {
            assert(v@.subrange(1, v@.len() as int) =~= v@.drop_first());
        } else {
            assert(v@.subrange(0, v@.len() as int) =~= v@);
        }
    }
    let (whole, fraction) = split_or_whole(&s, '.');
    let has_point = has_char_in(&s, '.');
    if whole.len() == 0 || !digits_only(&whole) || !digits_only(&fraction) || (has_point
        && fraction.len() == 0) {
        return None;
    }
    let trimmed = trim_start_char(&whole, '0');
    let w = if trimmed.len() == 0 {
        let mut z: Vec<char> = Vec::new();
        z.push('0');
        assert(z@ =~= seq!['0']);
        z
    } else {
        trimmed
    };
    let f = trim_end_char(&fraction, '0');
    let is_zero = w.len() == 1 && w[0] == '0' && f.len() == 0;
    proof {
        if w@.len() == 1 && w@[0] == '0' {
            assert(w@ =~= seq!['0']);
        }
    }
    let mut out = String::new();
    if negative && !is_zero {
        push_char(&mut out, '-');
    }
    push_chars(&mut out, &w);
    if f.len() > 0 {
        push_char(&mut out, '.');
    }
    push_chars(&mut out, &f);
    proof {
        let sign = if is_negative_text(raw@) && (w@ != seq!['0'] || f@.len() > 0) {
            seq!['-']
        } else {
            Seq::<char>::empty()
        };
        let point = if f@.len() == 0 {
            Seq::<char>::empty()
        } else {
            seq!['.']
        };
        assert(out@ =~= sign + w@ + point + f@);
        lemma_decimal_normal(raw@);
    }
    Some(out)
}

} // verus!
