//! Exact signed amounts: decimal texts read as a signed digit string and a
//! scale, with exact addition, comparison and ratio tests.
use vstd::prelude::*;
use crate::decimal::{
    add_digits, aligned, char_digit, compare_decimals, decimal_accepts, decimal_order,
    digits_value, fraction_of, is_negative_text, lemma_all_digits_concat, lemma_all_digits_sub,
    lemma_aligned_len, lemma_decimal_order_numeric, lemma_digits_value_bounds,
    lemma_digits_value_concat, lemma_digits_value_trim_start, lemma_high_digits_zero,
    lemma_pow10_add, lemma_pow10_positive, lemma_whole_order_numeric, lemma_zeros_value,
    lex_compare, normalize_decimal_text, order_of, pow10, push_all, scale, signed_units,
    subtract_digits, trimmed_whole, unsigned_part, units, whole_key, whole_of, whole_order,
    Comparison,
};
use crate::text::{all_digits, chars, slice, split_or_whole, utf8_length, is_digit};

verus! {

/// An exact amount: `digits` read in base ten, negated when `negative`,
/// divided by ten to the `scale`.
pub struct Amount {
    pub negative: bool,
    pub digits: Vec<char>,
    pub scale: usize,
}

/// A rational `num / 10^scale`.
pub open spec fn amount_value(a: Amount) -> (int, nat) {
    (if a.negative {
        -digits_value(a.digits@)
    } else {
        digits_value(a.digits@)
    }, a.scale as nat)
}

pub open spec fn amount_wf(a: Amount) -> bool {
    all_digits(a.digits@)
}

/// The value of a decimal text.
pub open spec fn text_value(t: Seq<char>) -> (int, nat) {
    (signed_units(t), scale(unsigned_part(t)))
}

/// Exact sum at the larger scale.
pub open spec fn add_values(a: (int, nat), b: (int, nat)) -> (int, nat) {
    let m = if a.1 >= b.1 {
        a.1
    } else {
        b.1
    };
    (a.0 * pow10((m - a.1) as nat) + b.0 * pow10((m - b.1) as nat), m)
}

pub open spec fn neg_value(a: (int, nat)) -> (int, nat) {
    (-a.0, a.1)
}

pub open spec fn abs_value(a: (int, nat)) -> (int, nat) {
    (if a.0 < 0 {
        -a.0
    } else {
        a.0
    }, a.1)
}

/// Numeric order of two rationals.
pub open spec fn value_order(a: (int, nat), b: (int, nat)) -> Comparison {
    order_of(a.0 * pow10(b.1), b.0 * pow10(a.1))
}

/// `num * 100 / den > limit`, for a positive denominator.
pub open spec fn ratio_exceeds(num: (int, nat), den: (int, nat), limit: (int, nat)) -> bool {
    num.0 * 100 * pow10(den.1) * pow10(limit.1) > limit.0 * den.0 * pow10(num.1)
}

pub open spec fn zeros(k: nat) -> Seq<char> {
    Seq::new(k, |i: int| '0')
}

proof fn lemma_zeros_digits(k: nat)
    ensures
        all_digits(zeros(k)),
        digits_value(zeros(k)) == 0,
{
    lemma_zeros_value(k);
}

/// Digits with `k` zeros appended: the value times ten to the `k`.
fn append_zeros(v: &Vec<char>, k: usize) -> (r: Vec<char>)
    requires
        all_digits(v@),
    ensures
        r@ == v@ + zeros(k as nat),
        all_digits(r@),
        digits_value(r@) == digits_value(v@) * pow10(k as nat),
{
    let mut r = slice(v, 0, v.len());
    assert(v@.subrange(0, v@.len() as int) =~= v@);
    let mut i: usize = 0;
    while i < k
        invariant
            i <= k,
            r@ == v@ + zeros(i as nat),
        decreases k - i,
    {
        r.push('0');
        i = i + 1;
        assert(r@ =~= v@ + zeros(i as nat));
    }
    proof {
        lemma_zeros_digits(k as nat);
        lemma_all_digits_concat(v@, zeros(k as nat));
        lemma_digits_value_concat(v@, zeros(k as nat));
    }
    r
}

/// Numeric comparison of two digit strings.
pub fn compare_digit_values(a: &Vec<char>, b: &Vec<char>) -> (r: Comparison)
    requires
        all_digits(a@),
        all_digits(b@),
    ensures
        r == order_of(digits_value(a@), digits_value(b@)),
{
    let ka = whole_key(a);
    let kb = whole_key(b);
    proof {
        lemma_trimmed_key(a@);
        lemma_trimmed_key(b@);
        lemma_whole_order_numeric(ka@, kb@);
        crate::decimal::lemma_digits_utf8_len(ka@);
        crate::decimal::lemma_digits_utf8_len(kb@);
    }
    let la = ka.len();
    let lb = kb.len();
    if la < lb {
        Comparison::Less
    } else if la > lb {
        Comparison::Greater
    } else {
        lex_compare(&ka, &kb)
    }
}

proof fn lemma_trimmed_key(a: Seq<char>)
    requires
        all_digits(a),
    ensures
        all_digits(trimmed_whole(a)),
        trimmed_whole(a).len() > 0,
        trimmed_whole(a).len() > 1 ==> trimmed_whole(a)[0] != '0',
        digits_value(trimmed_whole(a)) == digits_value(a),
{
    lemma_digits_value_trim_start(a);
    let t = crate::text::trim_start(a, '0');
    let k = (a.len() - t.len()) as int;
    assert(t =~= a.subrange(k, a.len() as int)) by {
        assert(a =~= Seq::new(k as nat, |i: int| '0') + t);
    }
    lemma_all_digits_sub(a, k, a.len() as int);
    if t.len() == 0 {
        crate::decimal::lemma_single_zero();
        assert(digits_value(t) == 0) by {
            assert(t =~= Seq::<char>::empty());
        }
    }
}

/// Reads a decimal text as an exact amount; `None` exactly when the text is
/// not an accepted decimal.
pub fn parse_amount(t: &str) -> (r: Option<Amount>)
    ensures
        r is Some <==> decimal_accepts(t@),
        r matches Some(a) ==> amount_wf(a) && amount_value(a) == text_value(t@) && a.negative
            == is_negative_text(t@),
{
    if normalize_decimal_text(t).is_none() {
        return None;
    }
    let v = chars(t);
    let negative = v[0] == '-';
    let s = if negative {
        slice(&v, 1, v.len())
    } else {
        slice(&v, 0, v.len())
    };
    assert(s@ == unsigned_part(t@)) by {
        if negative {
            assert(v@.subrange(1, v@.len() as int) =~= v@.drop_first());
        } else {
            assert(v@.subrange(0, v@.len() as int) =~= v@);
        }
    }
    let (_, f) = split_or_whole(&s, '.');
    let digits = aligned(&s, f.len());
    proof {
        assert(f@ == fraction_of(s@));
        assert(pow10(0) == 1);
    }
    Some(Amount { negative, digits, scale: f.len() })
}

/// Exact sum.
pub fn add_amounts(a: &Amount, b: &Amount) -> (r: Amount)
    requires
        amount_wf(*a),
        amount_wf(*b),
    ensures
        amount_wf(r),
        amount_value(r) == add_values(amount_value(*a), amount_value(*b)),
{
    let m = if a.scale >= b.scale {
        a.scale
    } else {
        b.scale
    };
    let da = append_zeros(&a.digits, m - a.scale);
    let db = append_zeros(&b.digits, m - b.scale);
    let ghost x = digits_value(da@);
    let ghost y = digits_value(db@);
    proof {
        let a0 = digits_value(a.digits@);
        let b0 = digits_value(b.digits@);
        let pa = pow10((m - a.scale) as nat);
        let pb = pow10((m - b.scale) as nat);
        assert((-a0) * pa == -(a0 * pa)) by (nonlinear_arith);
        assert((-b0) * pb == -(b0 * pb)) by (nonlinear_arith);
    }
    if a.negative == b.negative {
        let d = add_digits(&da, &db);
        return Amount { negative: a.negative, digits: d, scale: m };
    }
    match compare_digit_values(&da, &db) {
        Comparison::Less => {
            proof {
                lemma_digits_value_bounds(da@);
                lemma_high_digits_zero(db@, da@);
            }
            let d = subtract_digits(&db, &da).unwrap();
            Amount { negative: b.negative, digits: d, scale: m }
        },
        _ => {
            proof {
                lemma_digits_value_bounds(db@);
                lemma_high_digits_zero(da@, db@);
            }
            let d = subtract_digits(&da, &db).unwrap();
            Amount { negative: a.negative, digits: d, scale: m }
        },
    }
}

/// The amount with its sign flipped.
pub fn negate_amount(a: &Amount) -> (r: Amount)
    requires
        amount_wf(*a),
    ensures
        amount_wf(r),
        amount_value(r) == neg_value(amount_value(*a)),
{
    let r = Amount { negative: !a.negative, digits: slice(&a.digits, 0, a.digits.len()), scale: a.scale };
    assert(a.digits@.subrange(0, a.digits@.len() as int) =~= a.digits@);
    r
}

/// The amount without its sign.
pub fn abs_amount(a: &Amount) -> (r: Amount)
    requires
        amount_wf(*a),
    ensures
        amount_wf(r),
        !r.negative,
        amount_value(r) == abs_value(amount_value(*a)),
{
    proof {
        lemma_digits_value_bounds(a.digits@);
    }
    let r = Amount { negative: false, digits: slice(&a.digits, 0, a.digits.len()), scale: a.scale };
    assert(a.digits@.subrange(0, a.digits@.len() as int) =~= a.digits@);
    r
}

fn is_zero_digits(v: &Vec<char>) -> (r: bool)
    requires
        all_digits(v@),
    ensures
        r == (digits_value(v@) == 0),
{
    let z: Vec<char> = Vec::new();
    proof {
        assert(all_digits(z@));
        assert(digits_value(z@) == 0);
    }
    match compare_digit_values(v, &z) {
        Comparison::Equal => true,
        _ => {
            proof {
                lemma_digits_value_bounds(v@);
            }
            false
        },
    }
}

/// Numeric comparison of two amounts.
pub fn compare_amounts(a: &Amount, b: &Amount) -> (r: Comparison)
    requires
        amount_wf(*a),
        amount_wf(*b),
    ensures
        r == value_order(amount_value(*a), amount_value(*b)),
{
    let l = append_zeros(&a.digits, b.scale);
    let r = append_zeros(&b.digits, a.scale);
    proof {
        lemma_digits_value_bounds(a.digits@);
        lemma_digits_value_bounds(b.digits@);
        lemma_pow10_positive(a.scale as nat);
        lemma_pow10_positive(b.scale as nat);
    }
    let za = is_zero_digits(&a.digits);
    let zb = is_zero_digits(&b.digits);
    let na = a.negative && !za;
    let nb = b.negative && !zb;
    let ghost pa = pow10(a.scale as nat);
    let ghost pb = pow10(b.scale as nat);
    let ghost ma = digits_value(a.digits@);
    let ghost mb = digits_value(b.digits@);
    assert(ma * pb >= 0 && mb * pa >= 0) by (nonlinear_arith)
        requires
            ma >= 0,
            mb >= 0,
            pa > 0,
            pb > 0,
    ;
    assert(za ==> ma * pb == 0) by (nonlinear_arith)
        requires
            za ==> ma == 0,
    ;
    assert(zb ==> mb * pa == 0) by (nonlinear_arith)
        requires
            zb ==> mb == 0,
    ;
    assert(!za ==> ma * pb > 0) by (nonlinear_arith)
        requires
            !za ==> ma > 0,
            pb > 0,
    ;
    assert(!zb ==> mb * pa > 0) by (nonlinear_arith)
        requires
            !zb ==> mb > 0,
            pa > 0,
    ;
    assert((-ma) * pb == -(ma * pb)) by (nonlinear_arith);
    assert((-mb) * pa == -(mb * pa)) by (nonlinear_arith);
    if na && !nb {
        return Comparison::Less;
    }
    if !na && nb {
        return Comparison::Greater;
    }
    let c = compare_digit_values(&l, &r);
    if na {
        match c {
            Comparison::Less => Comparison::Greater,
            Comparison::Greater => Comparison::Less,
            Comparison::Equal => Comparison::Equal,
        }
    } else {
        c
    }
}

/// Product of two digit strings.
pub fn multiply_digits(a: &Vec<char>, b: &Vec<char>) -> (r: Vec<char>)
    requires
        all_digits(a@),
        all_digits(b@),
    ensures
        all_digits(r@),
        digits_value(r@) == digits_value(a@) * digits_value(b@),
{
    let mut acc: Vec<char> = Vec::new();
    let mut i: usize = 0;
    assert(digits_value(b@.subrange(0, 0)) == 0);
    while i < b.len()
        invariant
            i <= b@.len(),
            all_digits(a@),
            all_digits(b@),
            all_digits(acc@),
            digits_value(acc@) == digits_value(a@) * digits_value(b@.subrange(0, i as int)),
        decreases b@.len() - i,
    {
        let ghost before = digits_value(acc@);
        acc = append_zeros(&acc, 1);
        proof {
            assert(pow10(1) == 10) by {
                reveal_with_fuel(pow10, 2);
            }
            assert(digits_value(acc@) == before * 10 + 0 * digits_value(a@)) by (nonlinear_arith)
                requires
                    digits_value(acc@) == before * 10,
            ;
        }
        assert(is_digit(b@[i as int]));
        let d = char_digit(b[i]);
        let mut j: u8 = 0;
        while j < d
            invariant
                j <= d,
                all_digits(a@),
                all_digits(acc@),
                digits_value(acc@) == before * 10 + j * digits_value(a@),
            decreases d - j,
        {
            acc = add_digits(&acc, a);
            j = j + 1;
            assert(digits_value(acc@) == before * 10 + j * digits_value(a@)) by (nonlinear_arith)
                requires
                    digits_value(acc@) == before * 10 + (j - 1) * digits_value(a@) + digits_value(
                        a@,
                    ),
            ;
        }
        proof {
            let pre = b@.subrange(0, i as int);
            let next = b@.subrange(0, i + 1);
            assert(next.drop_last() =~= pre);
            assert(next.last() == b@[i as int]);
            let va = digits_value(a@);
            let vp = digits_value(pre);
            assert(va * vp * 10 + d * va == va * (vp * 10 + d)) by (nonlinear_arith);
        }
        i = i + 1;
    }
    assert(b@.subrange(0, b@.len() as int) =~= b@);
    acc
}

proof fn lemma_hundred(h: Seq<char>)
    requires
        h == seq!['1', '0', '0'],
    ensures
        all_digits(h),
        digits_value(h) == 100,
{
    assert(h.drop_last() =~= seq!['1', '0']);
    assert(seq!['1', '0'].drop_last() =~= seq!['1']);
    assert(seq!['1'].drop_last() =~= Seq::<char>::empty());
    assert(crate::decimal::digit_value('1') == 1);
    assert(crate::decimal::digit_value('0') == 0);
    assert(digits_value(Seq::<char>::empty()) == 0);
    assert(digits_value(seq!['1']) == 1);
    assert(digits_value(seq!['1', '0']) == 10);
    assert(is_digit(h[0]) && is_digit(h[1]) && is_digit(h[2]));
}

/// Whether `num * 100 / den` exceeds `limit`, for a positive denominator.
pub fn exceeds_ratio(num: &Amount, den: &Amount, limit: &Amount) -> (r: bool)
    requires
        amount_wf(*num),
        amount_wf(*den),
        amount_wf(*limit),
        !num.negative,
        !den.negative,
        !limit.negative,
    ensures
        r == ratio_exceeds(amount_value(*num), amount_value(*den), amount_value(*limit)),
{
    let mut hundred: Vec<char> = Vec::new();
    hundred.push('1');
    hundred.push('0');
    hundred.push('0');
    proof {
        assert(hundred@ =~= seq!['1', '0', '0']);
        lemma_hundred(hundred@);
    }
    let scaled = multiply_digits(&num.digits, &hundred);
    let shifted = append_zeros(&scaled, den.scale);
    let left = append_zeros(&shifted, limit.scale);
    let prod = multiply_digits(&limit.digits, &den.digits);
    let right = append_zeros(&prod, num.scale);
    proof {
        lemma_pow10_add(den.scale as nat, limit.scale as nat);
        let n = digits_value(num.digits@);
        let pd = pow10(den.scale as nat);
        let pl = pow10(limit.scale as nat);
        assert(n * 100 * (pd * pl) == n * 100 * pd * pl) by (nonlinear_arith);
        let l = digits_value(limit.digits@);
        let q = digits_value(den.digits@);
        assert((l * q) * pow10(num.scale as nat) == l * q * pow10(num.scale as nat));
    }
    match compare_digit_values(&left, &right) {
        Comparison::Greater => true,
        _ => false,
    }
}

} // verus!
